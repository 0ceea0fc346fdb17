//! A store for a two-level work tracker: epics that hold stories.
//!
//! `models` holds the entities and the operations that change the whole
//! state; `db` holds the storage abstraction; `test_utils` holds an
//! in-memory store for deterministic tests.
pub mod db;
pub mod models;
pub mod test_utils;
