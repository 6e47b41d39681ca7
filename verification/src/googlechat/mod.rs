//! The Google Chat service: its codecs, its event channel and its rules.
pub mod api;
pub mod asked;
pub mod auth;
pub mod channel;
pub mod chunk;
pub mod commands;
pub mod convert;
pub mod cookies;
pub mod direct;
pub mod declared;
pub mod dispatch;
pub mod found;
pub mod io;
pub mod laws;
pub mod loaded;
pub mod missed;
pub mod pblite;
pub mod poll;
pub mod proto;
pub mod raw;
pub mod reply;
pub mod reread;
pub mod schema;
pub mod script;
pub mod search;
pub mod session;
pub mod signed;
pub mod spelled;
pub mod streamed;
pub mod told;
pub mod typed;
pub mod wire;
pub mod world;
