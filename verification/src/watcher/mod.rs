//! The watch over the folders of instances: which are watched, whom an event
//! concerns, and what follows from it.
pub mod changes;
pub mod events;
pub mod folders;
pub mod registry;
