//! What passes between the services and the rest of the program.
pub mod inbound;
pub mod outbound;

pub use inbound::{DisconnectReason, InboundEvent};
pub use outbound::OutboundCommand;
