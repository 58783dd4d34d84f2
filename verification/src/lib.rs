//! Verified core of the launcher's install, content and watcher logic.
pub mod content;
pub mod decimal;
pub mod error;
pub mod install;
pub mod jre;
pub mod metadata;
pub mod names;
pub mod order;
pub mod paths;
pub mod single_flight;
pub mod text;
pub mod updater;
pub mod watcher;
