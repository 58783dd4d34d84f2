//! The files of an instance: where they lie, which provider they come from, and
//! how what is on disk is brought together with what is recorded.
pub mod file;
pub mod ids;
pub mod provider;
pub mod removal;
pub mod roots;
pub mod sync;
pub mod updates;
