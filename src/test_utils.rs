use crate::db::Database;
use crate::models::{DBState, DBStateView, DbError};
use vstd::prelude::*;

verus! {

/// An in-memory store: it keeps the last state written and hands out an
/// independent copy of it on each read.
pub struct MockDB {
    last_written_state: DBState,
}

impl View for MockDB {
    type V = DBStateView;

    closed spec fn view(&self) -> DBStateView {
        self.last_written_state@
    }
}

impl MockDB {
    pub fn new() -> (r: MockDB)
        ensures
            r@ == DBState::empty_view(),
    {
        MockDB { last_written_state: DBState::new() }
    }
}

/// Writing a state and then reading the store gives back a state with the
/// same counter and the same mappings.
pub proof fn lemma_write_then_read(state: DBState, written: MockDB, read_back: DBState)
    requires
        written@ == state@,
        read_back@ == written@,
    ensures
        read_back@ == state@,
        read_back.last_item_id == state.last_item_id,
        read_back.epics@ == state.epics@,
        read_back.stories@ == state.stories@,
{
}

impl Database for MockDB {
    fn read_db(&self) -> (r: Result<DBState, DbError>)
        ensures
            r is Ok && r->Ok_0@ == self@,
    {
        let s = &self.last_written_state;
        Ok(DBState { last_item_id: s.last_item_id, epics: s.epics.clone(), stories: s.stories.clone() })
    }

    fn write_db(&mut self, db_state: &DBState) -> (r: Result<(), DbError>)
        ensures
            r is Ok,
            final(self)@ == db_state@,
    {
        self.last_written_state = DBState {
            last_item_id: db_state.last_item_id,
            epics: db_state.epics.clone(),
            stories: db_state.stories.clone(),
        };
        Ok(())
    }
}

} // verus!
