//! A sidebar of project sessions for a terminal multiplexer: its state,
//! how it answers each event, and what it draws.
pub mod model;
pub mod ai;
pub mod strings;
pub mod store;
pub mod sessions;
pub mod sorting;
pub mod state;
pub mod render;
pub mod config;
pub mod discovery;
pub mod warnings;
pub mod laws;
