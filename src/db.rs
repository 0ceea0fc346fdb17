use crate::models::{DBState, DbError};
use vstd::prelude::*;

verus! {

/// Loads and saves the whole state at once.
pub trait Database {
    fn read_db(&self) -> Result<DBState, DbError>;

    fn write_db(&mut self, db_state: &DBState) -> Result<(), DbError>;
}

/// A store kept as one JSON file. Reading and writing the file, and turning
/// its text into a state and back, happen outside this crate; what a load
/// yields, given the file's text, is decided here.
pub struct JSONFileDatabase {
    pub file_path: String,
}

impl JSONFileDatabase {
    pub fn new(file_path: String) -> (r: JSONFileDatabase)
        ensures
            r.file_path == file_path,
    {
        JSONFileDatabase { file_path }
    }

    /// The result of loading a store whose text is `contents`, where
    /// `decoded` is what parsing that text gave. Empty text stands for the
    /// fresh state; otherwise the parse decides, and its failure is passed
    /// on rather than replaced by a default.
    pub fn state_from_contents(
        contents: &str,
        decoded: Result<DBState, DbError>,
    ) -> (r: Result<DBState, DbError>)
        ensures
            contents@.len() == 0 ==> r is Ok && r->Ok_0@ == DBState::empty_view(),
            contents@.len() != 0 ==> r == decoded,
    {
        if contents.is_empty() {
            Ok(DBState::new())
        } else {
            decoded
        }
    }
}

} // verus!
