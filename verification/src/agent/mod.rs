//! The surface for programs: its requests and replies, its routes, its event stream,
//! its client and its command line.
pub mod api;
pub mod cli;
pub mod client;
pub mod events;
pub mod heard;
pub mod json;
pub mod laws;
pub mod server;
