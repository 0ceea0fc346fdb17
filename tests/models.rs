use epic_store::models::{DBState, DbError, Epic, Status, Story};

#[test]
fn epic_new_test() {
    let e: Epic = Epic::new(
        "Project 1".to_string(),
        "Start of bootcamp projects".to_string(),
    );
    assert_eq!(e.status, Status::Open);
}

#[test]
fn story_new_test() {
    let s: Story = Story::new(
        "Create database".to_string(),
        "Implment models and database for project".to_string(),
    );
    assert_eq!(s.status, Status::Open);
}

#[test]
fn new_entities_keep_name_and_description() {
    let e = Epic::new("E1".to_string(), "d".to_string());
    assert_eq!(e.name, "E1");
    assert_eq!(e.description, "d");
    assert!(e.stories.is_empty());
    let s = Story::new("S1".to_string(), "sd".to_string());
    assert_eq!(s.name, "S1");
    assert_eq!(s.description, "sd");
}

#[test]
fn fresh_state_is_empty() {
    let s = DBState::new();
    assert_eq!(s.last_item_id, 0);
    assert!(s.epics.is_empty());
    assert!(s.stories.is_empty());
}

#[test]
fn added_entities_are_open() {
    let mut s = DBState::new();
    let e = s.add_epic(Epic::new("E".to_string(), "d".to_string())).unwrap();
    let st = s.add_story(Story::new("S".to_string(), "d".to_string()), e).unwrap();
    assert_eq!(s.epics[&e].status, Status::Open);
    assert_eq!(s.stories[&st].status, Status::Open);
}

#[test]
fn ids_increase_across_epics_and_stories() {
    let mut s = DBState::new();
    let e1 = s.add_epic(Epic::new("E1".to_string(), "d".to_string())).unwrap();
    let s1 = s.add_story(Story::new("S1".to_string(), "d".to_string()), e1).unwrap();
    let e2 = s.add_epic(Epic::new("E2".to_string(), "d".to_string())).unwrap();
    let s2 = s.add_story(Story::new("S2".to_string(), "d".to_string()), e1).unwrap();
    assert_eq!(vec![e1, s1, e2, s2], vec![1, 2, 3, 4]);
    assert_eq!(s.last_item_id, 4);
    s.delete_epic(e2).unwrap();
    let e3 = s.add_epic(Epic::new("E3".to_string(), "d".to_string())).unwrap();
    assert_eq!(e3, 5);
}

#[test]
fn scenario_add_update_delete() {
    let mut s = DBState::new();
    assert_eq!(s.add_epic(Epic::new("E1".to_string(), "d".to_string())), Ok(1));
    assert_eq!(s.add_story(Story::new("S1".to_string(), "d".to_string()), 1), Ok(2));
    assert_eq!(s.epics[&1].stories, vec![2]);
    assert_eq!(s.update_story_status(2, Status::Resolved), Ok(()));
    assert_eq!(s.stories[&2].status, Status::Resolved);
    assert_eq!(s.delete_epic(1), Ok(()));
    assert!(s.epics.is_empty());
    assert!(s.stories.is_empty());
}

#[test]
fn update_missing_epic_fails() {
    let mut s = DBState::new();
    assert_eq!(s.update_epic_status(99, Status::Closed), Err(DbError::NotFound(99)));
    assert_eq!(s, DBState::new());
}

#[test]
fn update_epic_status_sets_status() {
    let mut s = DBState::new();
    let e = s.add_epic(Epic::new("E".to_string(), "d".to_string())).unwrap();
    assert_eq!(s.update_epic_status(e, Status::InProgress), Ok(()));
    assert_eq!(s.epics[&e].status, Status::InProgress);
    assert_eq!(s.epics[&e].name, "E");
}

#[test]
fn update_missing_story_fails() {
    let mut s = DBState::new();
    assert_eq!(s.update_story_status(7, Status::Closed), Err(DbError::NotFound(7)));
}

#[test]
fn delete_missing_epic_changes_nothing() {
    let mut s = DBState::new();
    let e = s.add_epic(Epic::new("E".to_string(), "d".to_string())).unwrap();
    s.add_story(Story::new("S".to_string(), "d".to_string()), e).unwrap();
    let before = s.clone();
    assert_eq!(s.delete_epic(42), Err(DbError::NotFound(42)));
    assert_eq!(s, before);
}

#[test]
fn delete_epic_removes_its_stories_only() {
    let mut s = DBState::new();
    let e1 = s.add_epic(Epic::new("E1".to_string(), "d".to_string())).unwrap();
    let e2 = s.add_epic(Epic::new("E2".to_string(), "d".to_string())).unwrap();
    let a = s.add_story(Story::new("A".to_string(), "d".to_string()), e1).unwrap();
    let b = s.add_story(Story::new("B".to_string(), "d".to_string()), e1).unwrap();
    let c = s.add_story(Story::new("C".to_string(), "d".to_string()), e2).unwrap();
    assert_eq!(s.delete_epic(e1), Ok(()));
    assert!(!s.epics.contains_key(&e1));
    assert!(s.epics.contains_key(&e2));
    assert_eq!(s.update_story_status(a, Status::Closed), Err(DbError::NotFound(a)));
    assert_eq!(s.update_story_status(b, Status::Closed), Err(DbError::NotFound(b)));
    assert_eq!(s.update_story_status(c, Status::Closed), Ok(()));
}

#[test]
fn add_story_to_missing_epic_changes_nothing() {
    let mut s = DBState::new();
    assert_eq!(
        s.add_story(Story::new("S".to_string(), "d".to_string()), 3),
        Err(DbError::NotFound(3))
    );
    assert_eq!(s.last_item_id, 0);
    assert!(s.stories.is_empty());
}

#[test]
fn delete_story_removes_it_from_its_epic() {
    let mut s = DBState::new();
    let e = s.add_epic(Epic::new("E".to_string(), "d".to_string())).unwrap();
    let a = s.add_story(Story::new("A".to_string(), "d".to_string()), e).unwrap();
    let b = s.add_story(Story::new("B".to_string(), "d".to_string()), e).unwrap();
    let c = s.add_story(Story::new("C".to_string(), "d".to_string()), e).unwrap();
    assert_eq!(s.delete_story(e, b), Ok(()));
    assert_eq!(s.epics[&e].stories, vec![a, c]);
    assert!(!s.stories.contains_key(&b));
    assert_eq!(s.stories.len(), 2);
}

#[test]
fn delete_missing_story_fails_first() {
    let mut s = DBState::new();
    assert_eq!(s.delete_story(5, 6), Err(DbError::NotFound(6)));
}

#[test]
fn delete_story_with_missing_epic_changes_nothing() {
    let mut s = DBState::new();
    let e = s.add_epic(Epic::new("E".to_string(), "d".to_string())).unwrap();
    let a = s.add_story(Story::new("A".to_string(), "d".to_string()), e).unwrap();
    let before = s.clone();
    assert_eq!(s.delete_story(77, a), Err(DbError::NotFound(77)));
    assert_eq!(s, before);
}
