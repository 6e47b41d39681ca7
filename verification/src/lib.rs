//! Data structures, codecs and rules of a terminal chat client.
use vstd::prelude::*;

pub mod agent;
pub mod assoc;
pub mod config;
pub mod cut;
pub mod error;
pub mod event;
pub mod googlechat;
pub mod json;
pub mod kept;
pub mod percent;
pub mod platform;
pub mod store;
pub mod text;
pub mod tui;
pub mod types;

verus! {

} // verus!
