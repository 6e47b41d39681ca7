//! The things that chat is about: spaces, messages, users and their names.
pub mod ids;
pub mod message;
pub mod space;
pub mod timestamp;

pub use ids::{IdInterner, InternedId, MessageId, PlatformId, SpaceId, TopicId, UserId};
pub use message::{Annotation, AnnotationKind, Emoji, Message, MessageType, Reaction};
pub use space::{MemberRole, MembershipState, PresenceStatus, Space, SpaceKind, User};
pub use timestamp::Timestamp;
