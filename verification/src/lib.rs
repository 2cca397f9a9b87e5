//! Keeps a local copy of a Raindrop.io bookmark library: the data model of the
//! API and of the output file, the configuration, the rules that page through
//! the API, and the selection of recent bookmarks.

pub mod paths;
pub mod config;
pub mod models;
pub mod sync;
pub mod calendar;
pub mod filter;
pub mod api;
pub mod logging;
