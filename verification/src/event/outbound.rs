//! Commands to the services.
use vstd::prelude::*;

use crate::types::ids::{MessageId, SpaceId, TopicId, UserId};
use crate::types::message::Emoji;
use crate::types::timestamp::Timestamp;

verus! {

/// Something that a service is asked to do.
#[allow(inconsistent_fields)]
#[derive(Debug)]
pub enum OutboundCommand {
    SendMessage { space_id: SpaceId, text: String, thread_id: Option<TopicId> },
    EditMessage { space_id: SpaceId, message_id: MessageId, new_text: String },
    DeleteMessage { space_id: SpaceId, message_id: MessageId },
    SetTyping { space_id: SpaceId, typing: bool },
    MarkRead { space_id: SpaceId, up_to: MessageId },
    AddReaction { space_id: SpaceId, message_id: MessageId, emoji: Emoji },
    RemoveReaction { space_id: SpaceId, message_id: MessageId, emoji: Emoji },
    FetchHistory { space_id: SpaceId, before: Timestamp, count: u32 },
    /// Begin a topic in a threaded room.
    CreateTopic { space_id: SpaceId, text: String },
    GetUsers { user_ids: Vec<UserId> },
    GetUserPresence { user_ids: Vec<UserId> },
    RefreshSelf,
    CreateRoom { name: String, invite_user_ids: Vec<UserId> },
    CreateDm { user_ids: Vec<UserId> },
    AddMembers { space_id: SpaceId, user_ids: Vec<UserId> },
    RemoveMembers { space_id: SpaceId, user_ids: Vec<UserId> },
    RenameSpace { space_id: SpaceId, new_name: String },
    /// Hide a space without leaving it, or show it again.
    HideSpace { space_id: SpaceId, hide: bool },
    ListSpaceMembers { space_id: SpaceId },
    /// Do not disturb for that many microseconds; zero ends it.
    SetDndDuration { duration_usec: u64 },
    SetCustomStatus { text: String, emoji: Option<Emoji>, expiry_usec: Option<i64> },
    BlockEntity {
        user_id: Option<UserId>,
        space_id: Option<SpaceId>,
        blocked: bool,
        reported: bool,
    },
    SetPresenceShared { shared: bool },
    CreateCustomEmoji { shortcode: String },
    AutocompleteSlashCommands { query: String, space_id: SpaceId, max_results: u32 },
    CreateVideoCall { space_id: SpaceId },
    Disconnect,
}

} // verus!
