//! Events from the services.
use vstd::prelude::*;

use crate::text::text_opt;
use crate::types::message::{messages, reactions, Message, MessageV, Reaction, ReactionV};
use crate::types::space::{
    spaces, users, MemberRole, MembershipState, PresenceStatus, Space, SpaceV, User, UserV,
};
use crate::types::ids::{MessageId, PlatformId, SpaceId, UserId};
use crate::types::timestamp::Timestamp;

verus! {

/// Something that happened on a service.
#[derive(Debug)]
pub enum InboundEvent {
    Connected { platform: PlatformId },
    Disconnected { platform: PlatformId, reason: DisconnectReason },
    Reconnecting { platform: PlatformId, attempt: u32 },
    WorldSync { platform: PlatformId, spaces: Vec<Space>, self_user: User },
    SpaceUpdated { space: Space },
    /// The names as the service writes them come with the message, for those
    /// who have to give them back to the service.
    MessagePosted {
        message: Message,
        space_id_raw: String,
        topic_id_raw: Option<String>,
        message_id_raw: String,
    },
    MessageEdited {
        message: Message,
        space_id_raw: String,
        topic_id_raw: Option<String>,
        message_id_raw: String,
    },
    MessageDeleted { space_id: SpaceId, message_id: MessageId },
    TypingStarted { space_id: SpaceId, user_id: UserId, timestamp: Timestamp },
    TypingStopped { space_id: SpaceId, user_id: UserId },
    PresenceChanged { user_id: UserId, presence: PresenceStatus },
    ReadStateUpdated { space_id: SpaceId, last_read: Timestamp, unread_count: u32 },
    ReactionUpdated { space_id: SpaceId, message_id: MessageId, reactions: Vec<Reaction> },
    HistoryChunk { space_id: SpaceId, messages: Vec<Message>, has_more: bool },
    UsersResolved { users: Vec<User> },
    MembershipChanged {
        space_id: SpaceId,
        user_id: UserId,
        state: MembershipState,
        role: MemberRole,
    },
}

/// Why a connection ended.
#[derive(Debug)]
pub enum DisconnectReason {
    AuthFailed(String),
    SessionExpired,
    MaxRetriesExceeded,
    ServerError(String),
    Shutdown,
}

/// The mathematical form of a [`DisconnectReason`].
pub ghost enum ReasonV {
    AuthFailed(Seq<char>),
    SessionExpired,
    MaxRetriesExceeded,
    ServerError(Seq<char>),
    Shutdown,
}

/// The mathematical form of an [`InboundEvent`].
pub ghost enum EventV {
    Connected { platform: PlatformId },
    Disconnected { platform: PlatformId, reason: ReasonV },
    Reconnecting { platform: PlatformId, attempt: u32 },
    WorldSync { platform: PlatformId, spaces: Seq<SpaceV>, self_user: UserV },
    SpaceUpdated { space: SpaceV },
    MessagePosted {
        message: MessageV,
        space_id_raw: Seq<char>,
        topic_id_raw: Option<Seq<char>>,
        message_id_raw: Seq<char>,
    },
    MessageEdited {
        message: MessageV,
        space_id_raw: Seq<char>,
        topic_id_raw: Option<Seq<char>>,
        message_id_raw: Seq<char>,
    },
    MessageDeleted { space_id: SpaceId, message_id: MessageId },
    TypingStarted { space_id: SpaceId, user_id: UserId, timestamp: Timestamp },
    TypingStopped { space_id: SpaceId, user_id: UserId },
    PresenceChanged { user_id: UserId, presence: PresenceStatus },
    ReadStateUpdated { space_id: SpaceId, last_read: Timestamp, unread_count: u32 },
    ReactionUpdated { space_id: SpaceId, message_id: MessageId, reactions: Seq<ReactionV> },
    HistoryChunk { space_id: SpaceId, messages: Seq<MessageV>, has_more: bool },
    UsersResolved { users: Seq<UserV> },
    MembershipChanged {
        space_id: SpaceId,
        user_id: UserId,
        state: MembershipState,
        role: MemberRole,
    },
}

impl View for DisconnectReason {
    type V = ReasonV;

    open spec fn view(&self) -> ReasonV {
        match *self {
            DisconnectReason::AuthFailed(m) => ReasonV::AuthFailed(m@),
            DisconnectReason::SessionExpired => ReasonV::SessionExpired,
            DisconnectReason::MaxRetriesExceeded => ReasonV::MaxRetriesExceeded,
            DisconnectReason::ServerError(m) => ReasonV::ServerError(m@),
            DisconnectReason::Shutdown => ReasonV::Shutdown,
        }
    }
}

impl View for InboundEvent {
    type V = EventV;

    open spec fn view(&self) -> EventV {
        match *self {
            InboundEvent::Connected { platform } => EventV::Connected { platform },
            InboundEvent::Disconnected { platform, reason } => EventV::Disconnected {
                platform,
                reason: reason@,
            },
            InboundEvent::Reconnecting { platform, attempt } => EventV::Reconnecting {
                platform,
                attempt,
            },
            InboundEvent::WorldSync { platform, spaces: s, self_user } => EventV::WorldSync {
                platform,
                spaces: spaces(s@),
                self_user: self_user@,
            },
            InboundEvent::SpaceUpdated { space } => EventV::SpaceUpdated { space: space@ },
            InboundEvent::MessagePosted {
                message,
                space_id_raw,
                topic_id_raw,
                message_id_raw,
            } => EventV::MessagePosted {
                message: message@,
                space_id_raw: space_id_raw@,
                topic_id_raw: text_opt(topic_id_raw),
                message_id_raw: message_id_raw@,
            },
            InboundEvent::MessageEdited {
                message,
                space_id_raw,
                topic_id_raw,
                message_id_raw,
            } => EventV::MessageEdited {
                message: message@,
                space_id_raw: space_id_raw@,
                topic_id_raw: text_opt(topic_id_raw),
                message_id_raw: message_id_raw@,
            },
            InboundEvent::MessageDeleted { space_id, message_id } => EventV::MessageDeleted {
                space_id,
                message_id,
            },
            InboundEvent::TypingStarted { space_id, user_id, timestamp } => EventV::TypingStarted {
                space_id,
                user_id,
                timestamp,
            },
            InboundEvent::TypingStopped { space_id, user_id } => EventV::TypingStopped {
                space_id,
                user_id,
            },
            InboundEvent::PresenceChanged { user_id, presence } => EventV::PresenceChanged {
                user_id,
                presence,
            },
            InboundEvent::ReadStateUpdated { space_id, last_read, unread_count } =>
            EventV::ReadStateUpdated { space_id, last_read, unread_count },
            InboundEvent::ReactionUpdated { space_id, message_id, reactions: r } =>
            EventV::ReactionUpdated { space_id, message_id, reactions: reactions(r@) },
            InboundEvent::HistoryChunk { space_id, messages: m, has_more } => EventV::HistoryChunk {
                space_id,
                messages: messages(m@),
                has_more,
            },
            InboundEvent::UsersResolved { users: u } => EventV::UsersResolved { users: users(u@) },
            InboundEvent::MembershipChanged { space_id, user_id, state, role } =>
            EventV::MembershipChanged { space_id, user_id, state, role },
        }
    }
}

/// The views of a list of events.
pub open spec fn events(v: Seq<InboundEvent>) -> Seq<EventV> {
    v.map_values(|e: InboundEvent| e@)
}

} // verus!
