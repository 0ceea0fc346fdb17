use std::collections::HashMap;
use vstd::prelude::*;

verus! {

broadcast use vstd::std_specs::hash::group_hash_axioms;

/// Lifecycle stage of an epic or a story. Any status may follow any other.
#[derive(Clone, Copy, Debug, PartialEq, Eq, Structural)]
pub enum Status {
    Open,
    InProgress,
    Resolved,
    Closed,
}

/// What can go wrong when the state is changed or loaded.
#[derive(Clone, Debug, PartialEq, Eq)]
pub enum DbError {
    /// No epic or story has this identifier.
    NotFound(u32),
    /// The stored content is not a well-formed state.
    Parse(String),
    /// The backing store could not be read or written.
    Io(String),
}

/// A top-level unit of work; `stories` lists the identifiers of its stories
/// in the order in which they were added.
#[derive(Clone, Debug, PartialEq)]
pub struct Epic {
    pub name: String,
    pub description: String,
    pub status: Status,
    pub stories: Vec<u32>,
}

impl Epic {
    /// An open epic with no stories.
    pub fn new(name: String, description: String) -> (r: Epic)
        ensures
            r.name == name,
            r.description == description,
            r.status == Status::Open,
            r.stories@ == Seq::<u32>::empty(),
    {
        Epic { name, description, status: Status::Open, stories: Vec::new() }
    }
}

/// A leaf unit of work. Its identifier is the key under which it is stored.
#[derive(Clone, Debug, PartialEq)]
pub struct Story {
    pub name: String,
    pub description: String,
    pub status: Status,
}

impl Story {
    /// An open story.
    pub fn new(name: String, description: String) -> (r: Story)
        ensures
            r.name == name,
            r.description == description,
            r.status == Status::Open,
    {
        Story { name, description, status: Status::Open }
    }
}

/// The whole state: the identifier counter and the two mappings.
#[derive(Clone, Debug, PartialEq)]
pub struct DBState {
    pub last_item_id: u32,
    pub epics: HashMap<u32, Epic>,
    pub stories: HashMap<u32, Story>,
}

/// The state as the contracts see it: the counter and what each mapping holds.
pub struct DBStateView {
    pub last_item_id: u32,
    pub epics: Map<u32, Epic>,
    pub stories: Map<u32, Story>,
}

impl View for DBState {
    type V = DBStateView;

    open spec fn view(&self) -> DBStateView {
        DBStateView { last_item_id: self.last_item_id, epics: self.epics@, stories: self.stories@ }
    }
}

impl DBState {
    /// Every identifier in use was issued by the counter, and no identifier
    /// names both an epic and a story.
    pub open spec fn wf(&self) -> bool {
        &&& forall|k: u32| #[trigger]
            self.epics@.contains_key(k) ==> 1 <= k <= self.last_item_id
        &&& forall|k: u32| #[trigger]
            self.stories@.contains_key(k) ==> 1 <= k <= self.last_item_id
        &&& forall|k: u32|
            !(#[trigger] self.epics@.contains_key(k) && #[trigger] self.stories@.contains_key(k))
    }

    /// Parent/child consistency: every story that an epic lists exists, and
    /// no story is listed by two epics.
    pub open spec fn linked(&self) -> bool {
        &&& forall|e: u32, k: u32|
            #![trigger self.epics@[e].stories@.contains(k)]
            self.epics@.contains_key(e) && self.epics@[e].stories@.contains(k)
                ==> self.stories@.contains_key(k)
        &&& forall|e1: u32, e2: u32, k: u32|
            #![trigger self.epics@[e1].stories@.contains(k), self.epics@[e2].stories@.contains(k)]
            self.epics@.contains_key(e1) && self.epics@.contains_key(e2)
                && self.epics@[e1].stories@.contains(k) && self.epics@[e2].stories@.contains(k)
                ==> e1 == e2
    }

    /// Whether `id` names an epic or a story.
    pub open spec fn in_use(&self, id: u32) -> bool {
        self.epics@.contains_key(id) || self.stories@.contains_key(id)
    }

    /// The fresh state: counter at zero, no epics, no stories.
    pub open spec fn empty_view() -> DBStateView {
        DBStateView {
            last_item_id: 0,
            epics: Map::<u32, Epic>::empty(),
            stories: Map::<u32, Story>::empty(),
        }
    }

    /// The fresh state.
    pub fn new() -> (r: DBState)
        ensures
            r@ == DBState::empty_view(),
            r.wf(),
            r.linked(),
    {
        DBState { last_item_id: 0, epics: HashMap::new(), stories: HashMap::new() }
    }

    /// Issues the next identifier and stores `epic` under it.
    pub fn add_epic(&mut self, epic: Epic) -> (r: Result<u32, DbError>)
        requires
            old(self).last_item_id < u32::MAX,
        ensures
            r == Ok::<u32, DbError>((old(self).last_item_id + 1) as u32),
            final(self).last_item_id == old(self).last_item_id + 1,
            final(self).epics@ == old(self).epics@.insert(final(self).last_item_id, epic),
            final(self).stories@ == old(self).stories@,
            old(self).wf() ==> !old(self).in_use(final(self).last_item_id),
            old(self).wf() ==> final(self).wf(),
            old(self).linked() && epic.stories@.len() == 0 ==> final(self).linked(),
    {
        let id: u32 = self.last_item_id + 1;
        self.last_item_id = id;
        self.epics.insert(id, epic);
        Ok(id)
    }

    /// Sets the status of epic `epic_id`.
    pub fn update_epic_status(&mut self, epic_id: u32, status: Status) -> (r: Result<(), DbError>)
        ensures
            old(self).epics@.contains_key(epic_id) <==> r is Ok,
            !old(self).epics@.contains_key(epic_id) ==> r == Err::<(), DbError>(
                DbError::NotFound(epic_id),
            ) && final(self)@ == old(self)@,
            r is Ok ==> final(self).epics@ == old(self).epics@.insert(
                epic_id,
                with_epic_status(old(self).epics@[epic_id], status),
            ),
            final(self).stories@ == old(self).stories@,
            final(self).last_item_id == old(self).last_item_id,
            old(self).wf() ==> final(self).wf(),
            old(self).linked() ==> final(self).linked(),
    {
        match self.epics.remove(&epic_id) {
            Some(epic) => {
                let mut epic = epic;
                epic.status = status;
                self.epics.insert(epic_id, epic);
                assert(self.epics@ =~= old(self).epics@.insert(
                    epic_id,
                    with_epic_status(old(self).epics@[epic_id], status),
                ));
                Ok(())
            },
            None => {
                assert(self.epics@ =~= old(self).epics@);
                Err(DbError::NotFound(epic_id))
            },
        }
    }

    /// Removes epic `epic_id` together with every story that it lists.
    pub fn delete_epic(&mut self, epic_id: u32) -> (r: Result<(), DbError>)
        ensures
            old(self).epics@.contains_key(epic_id) <==> r is Ok,
            !old(self).epics@.contains_key(epic_id) ==> r == Err::<(), DbError>(
                DbError::NotFound(epic_id),
            ) && final(self)@ == old(self)@,
            r is Ok ==> final(self).epics@ == old(self).epics@.remove(epic_id),
            r is Ok ==> final(self).stories@ == old(self).stories@.remove_keys(
                old(self).epics@[epic_id].stories@.to_set(),
            ),
            final(self).last_item_id == old(self).last_item_id,
            old(self).wf() ==> final(self).wf(),
            old(self).linked() ==> final(self).linked(),
    {
        match self.epics.remove(&epic_id) {
            Some(epic) => {
                let ghost before = self.stories@;
                let ghost listed = epic.stories@;
                let mut i: usize = 0;
                while i < epic.stories.len()
                    invariant
                        0 <= i <= listed.len(),
                        epic.stories@ == listed,
                        self.epics@ == old(self).epics@.remove(epic_id),
                        self.last_item_id == old(self).last_item_id,
                        forall|k: u32| #[trigger]
                            self.stories@.contains_key(k) <==> before.contains_key(k) && !(exists|
                                j: int,
                            | 0 <= j < i && listed[j] == k),
                        forall|k: u32| #[trigger]
                            self.stories@.contains_key(k) ==> self.stories@[k] == before[k],
                    decreases listed.len() - i,
                {
                    let story_id: u32 = epic.stories[i];
                    self.stories.remove(&story_id);
                    i = i + 1;
                }
                proof {
                    assert(self.stories@ =~= before.remove_keys(listed.to_set()));
                }
                Ok(())
            },
            None => {
                assert(self.epics@ =~= old(self).epics@);
                Err(DbError::NotFound(epic_id))
            },
        }
    }

    /// Issues the next identifier, stores `story` under it and appends it
    /// to the stories of epic `epic_id`. Nothing changes when that epic does
    /// not exist.
    pub fn add_story(&mut self, story: Story, epic_id: u32) -> (r: Result<u32, DbError>)
        requires
            old(self).last_item_id < u32::MAX,
        ensures
            old(self).epics@.contains_key(epic_id) <==> r is Ok,
            !old(self).epics@.contains_key(epic_id) ==> r == Err::<u32, DbError>(
                DbError::NotFound(epic_id),
            ) && final(self)@ == old(self)@,
            r is Ok ==> {
                let id = (old(self).last_item_id + 1) as u32;
                let e = old(self).epics@[epic_id];
                &&& r == Ok::<u32, DbError>(id)
                &&& final(self).last_item_id == id
                &&& final(self).stories@ == old(self).stories@.insert(id, story)
                &&& epic_stories_replaced(
                    old(self).epics@,
                    final(self).epics@,
                    epic_id,
                    e.stories@.push(id),
                )
                &&& old(self).wf() ==> !old(self).in_use(id)
            },
            old(self).wf() ==> final(self).wf(),
            old(self).wf() && old(self).linked() ==> final(self).linked(),
    {
        match self.epics.remove(&epic_id) {
            Some(epic) => {
                let mut epic = epic;
                let id: u32 = self.last_item_id + 1;
                self.last_item_id = id;
                self.stories.insert(id, story);
                epic.stories.push(id);
                self.epics.insert(epic_id, epic);
                assert(self.epics@.remove(epic_id) =~= old(self).epics@.remove(epic_id));
                proof {
                    let listed = old(self).epics@[epic_id].stories@;
                    let grown = listed.push(id);
                    assert forall|k: u32| grown.contains(k) <==> listed.contains(k) || k == id by {
                        if grown.contains(k) {
                            let j = choose|j: int| 0 <= j < grown.len() && grown[j] == k;
                            if j < listed.len() {
                                assert(listed[j] == k);
                            }
                        }
                        if listed.contains(k) {
                            let j = choose|j: int| 0 <= j < listed.len() && listed[j] == k;
                            assert(grown[j] == k);
                        }
                        if k == id {
                            assert(grown[listed.len() as int] == k);
                        }
                    }
                    if old(self).wf() && old(self).linked() {
                        assert forall|e: u32| #[trigger]
                            old(self).epics@.contains_key(e) implies !old(
                            self,
                        ).epics@[e].stories@.contains(id) by {
                            if old(self).epics@[e].stories@.contains(id) {
                                assert(old(self).stories@.contains_key(id));
                            }
                        }
                    }
                }
                Ok(id)
            },
            None => {
                assert(self.epics@ =~= old(self).epics@);
                Err(DbError::NotFound(epic_id))
            },
        }
    }

    /// Sets the status of story `story_id`.
    pub fn update_story_status(&mut self, story_id: u32, status: Status) -> (r: Result<(), DbError>)
        ensures
            old(self).stories@.contains_key(story_id) <==> r is Ok,
            !old(self).stories@.contains_key(story_id) ==> r == Err::<(), DbError>(
                DbError::NotFound(story_id),
            ) && final(self)@ == old(self)@,
            r is Ok ==> final(self).stories@ == old(self).stories@.insert(
                story_id,
                with_story_status(old(self).stories@[story_id], status),
            ),
            final(self).epics@ == old(self).epics@,
            final(self).last_item_id == old(self).last_item_id,
            old(self).wf() ==> final(self).wf(),
            old(self).linked() ==> final(self).linked(),
    {
        match self.stories.remove(&story_id) {
            Some(story) => {
                let mut story = story;
                story.status = status;
                self.stories.insert(story_id, story);
                assert(self.stories@ =~= old(self).stories@.insert(
                    story_id,
                    with_story_status(old(self).stories@[story_id], status),
                ));
                Ok(())
            },
            None => {
                assert(self.stories@ =~= old(self).stories@);
                Err(DbError::NotFound(story_id))
            },
        }
    }

    /// Removes story `story_id` and takes it out of the stories of epic
    /// `epic_id`. Both identifiers are checked before anything changes: a
    /// missing story is reported first, then a missing epic.
    pub fn delete_story(&mut self, epic_id: u32, story_id: u32) -> (r: Result<(), DbError>)
        ensures
            !old(self).stories@.contains_key(story_id) ==> r == Err::<(), DbError>(
                DbError::NotFound(story_id),
            ),
            old(self).stories@.contains_key(story_id) && !old(self).epics@.contains_key(epic_id)
                ==> r == Err::<(), DbError>(DbError::NotFound(epic_id)),
            r is Err ==> final(self)@ == old(self)@,
            old(self).stories@.contains_key(story_id) && old(self).epics@.contains_key(epic_id)
                ==> r is Ok,
            r is Ok ==> {
                let e = old(self).epics@[epic_id];
                &&& final(self).stories@ == old(self).stories@.remove(story_id)
                &&& epic_stories_replaced(
                    old(self).epics@,
                    final(self).epics@,
                    epic_id,
                    e.stories@.filter(other_than(story_id)),
                )
            },
            final(self).last_item_id == old(self).last_item_id,
            old(self).wf() ==> final(self).wf(),
            old(self).linked() && old(self).epics@.contains_key(epic_id)
                && old(self).epics@[epic_id].stories@.contains(story_id) ==> final(self).linked(),
    {
        if !self.stories.contains_key(&story_id) {
            return Err(DbError::NotFound(story_id));
        }
        match self.epics.remove(&epic_id) {
            Some(epic) => {
                let mut epic = epic;
                let kept = without_id(&epic.stories, story_id);
                epic.stories = kept;
                self.epics.insert(epic_id, epic);
                self.stories.remove(&story_id);
                assert(self.epics@.remove(epic_id) =~= old(self).epics@.remove(epic_id));
                proof {
                    let listed = old(self).epics@[epic_id].stories@;
                    let kept = listed.filter(other_than(story_id));
                    assert forall|k: u32| #[trigger] kept.contains(k) implies listed.contains(k)
                        && k != story_id by {
                        listed.lemma_filter_contains_rev(other_than(story_id), k);
                        let j = choose|j: int| 0 <= j < kept.len() && kept[j] == k;
                        listed.lemma_filter_pred(other_than(story_id), j);
                    }
                }
                Ok(())
            },
            None => {
                assert(self.epics@ =~= old(self).epics@);
                Err(DbError::NotFound(epic_id))
            },
        }
    }
}

/// An epic made by `Epic::new` and stored by `add_epic` under `id`, and a
/// story made by `Story::new` and stored by `add_story` under `story_id`,
/// are stored with status Open.
pub proof fn lemma_added_entities_are_open(
    before: DBState,
    after_epic: DBState,
    after_story: DBState,
    epic: Epic,
    story: Story,
    id: u32,
    story_id: u32,
)
    requires
        epic.status == Status::Open,
        story.status == Status::Open,
        after_epic.epics@ == before.epics@.insert(id, epic),
        after_story.stories@ == after_epic.stories@.insert(story_id, story),
    ensures
        after_epic.epics@.contains_key(id),
        after_epic.epics@[id].status == Status::Open,
        after_story.stories@.contains_key(story_id),
        after_story.stories@[story_id].status == Status::Open,
{
}

/// In a well-formed state every identifier in use is at most the counter,
/// so the identifier that the next `add_epic` or `add_story` issues
/// (counter plus one) is larger than all of them and names nothing yet.
pub proof fn lemma_next_id_is_fresh(s: DBState, id: u32)
    requires
        s.wf(),
        s.in_use(id),
    ensures
        id < s.last_item_id + 1,
        id != s.last_item_id + 1,
{
}

/// After `delete_epic(epic_id)` succeeds, no story that the epic listed is
/// left, so `update_story_status` on any of them reports it as not found.
pub proof fn lemma_deleted_epic_takes_its_stories(
    before: DBState,
    after: DBState,
    epic_id: u32,
    story_id: u32,
)
    requires
        before.epics@.contains_key(epic_id),
        before.epics@[epic_id].stories@.contains(story_id),
        after.stories@ == before.stories@.remove_keys(before.epics@[epic_id].stories@.to_set()),
    ensures
        !after.stories@.contains_key(story_id),
{
    assert(before.epics@[epic_id].stories@.to_set().contains(story_id));
}

/// `e` with its status replaced by `status`.
pub open spec fn with_epic_status(e: Epic, status: Status) -> Epic {
    Epic { status: status, ..e }
}

/// `after` is `before` with the story list of epic `epic_id` replaced by
/// `stories`, and nothing else changed.
pub open spec fn epic_stories_replaced(
    before: Map<u32, Epic>,
    after: Map<u32, Epic>,
    epic_id: u32,
    stories: Seq<u32>,
) -> bool {
    &&& before.contains_key(epic_id)
    &&& after.contains_key(epic_id)
    &&& after.remove(epic_id) == before.remove(epic_id)
    &&& after[epic_id].name == before[epic_id].name
    &&& after[epic_id].description == before[epic_id].description
    &&& after[epic_id].status == before[epic_id].status
    &&& after[epic_id].stories@ == stories
}

/// `s` with its status replaced by `status`.
pub open spec fn with_story_status(s: Story, status: Status) -> Story {
    Story { status: status, ..s }
}

/// Holds of every identifier but `id`.
pub open spec fn other_than(id: u32) -> spec_fn(u32) -> bool {
    |x: u32| x != id
}

/// The elements of `ids` other than `id`, in their order.
fn without_id(ids: &Vec<u32>, id: u32) -> (r: Vec<u32>)
    ensures
        r@ == ids@.filter(other_than(id)),
{
    let mut r: Vec<u32> = Vec::new();
    let mut i: usize = 0;
    while i < ids.len()
        invariant
            0 <= i <= ids.len(),
            r@ == ids@.subrange(0, i as int).filter(other_than(id)),
        decreases ids.len() - i,
    {
        proof {
            reveal(Seq::filter);
            assert(ids@.subrange(0, i + 1).drop_last() =~= ids@.subrange(0, i as int));
        }
        if ids[i] != id {
            r.push(ids[i]);
        }
        i = i + 1;
    }
    proof {
        assert(ids@.subrange(0, ids.len() as int) =~= ids@);
    }
    r
}

} // verus!
