//! Install jobs: what they hold, and every decision made while they run.
pub mod archive;
pub mod cleanroom;
pub mod commands;
pub mod curseforge;
pub mod errors;
pub mod lifecycle;
pub mod loader_kind;
pub mod loaders;
pub mod local_pack;
pub mod model;
pub mod pack;
pub mod prepare;
pub mod request;
pub mod requests;
pub mod run;
