//! The window: its state, its keys, its areas, and what is shown in them.
pub mod inbound;
pub mod keys;
pub mod layout;
pub mod line;
pub mod seen;
pub mod state;
pub mod theme;
pub mod widgets;
