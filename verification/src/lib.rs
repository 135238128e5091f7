//! The resident editing daemon's verified core.
use vstd::prelude::*;

pub mod analysis;
pub mod base;
pub mod caches;
pub mod clients;
pub mod commands;
pub mod connection;
pub mod daemon;
pub mod editor;
pub mod edits;
pub mod engine_laws;
pub mod errand;
pub mod file_laws;
pub mod finish;
pub mod languages;
pub mod laws;
pub mod lists;
pub mod log;
pub mod open;
pub mod opening;
pub mod outline;
pub mod paths;
pub mod process;
pub mod rename;
pub mod request_laws;
pub mod review;
pub mod server_laws;
pub mod sessions;
pub mod serve;
pub mod snapshot;
pub mod strings;
pub mod syntax;
pub mod table;
pub mod text;
pub mod types;
pub mod watch;

verus! {

} // verus!
