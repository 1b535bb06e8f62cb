//! Sessions of a sandboxed command runner: their identifiers, their places on
//! disk, the retention of rollback sessions, and the records that audit and
//! rollback leave behind.
//!
//! Everything here computes on plain values. Reading directories, probing
//! processes and writing records is left to the program around the library,
//! which hands in what it read and carries out what it is told.

pub mod audit;
pub mod capabilities;
pub mod discovery;
pub mod errors;
pub mod evidence;
pub mod exclusions;
pub mod exit_laws;
pub mod id_laws;
pub mod lists;
pub mod loading;
pub mod paths;
pub mod prune_laws;
pub mod retention;
pub mod retention_laws;
pub mod rollback;
pub mod session;
pub mod session_id;
pub mod session_laws;
pub mod setup;
pub mod setup_laws;
pub mod sizes;
pub mod text;
