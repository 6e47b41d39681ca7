//! The requests, replies and events of the surface for programs.
use vstd::prelude::*;

use crate::text;
use crate::types;

verus! {

/// The reply to the question whether the daemon is there.
#[derive(Debug)]
pub struct HealthResponse {
    /// `ok`.
    pub status: String,
    /// `valid` or `expired`.
    pub auth: String,
    pub self_user_id: Option<String>,
    pub uptime_secs: u64,
}

#[derive(Debug)]
pub struct SpaceInfo {
    pub id: String,
    pub name: String,
    pub kind: SpaceKind,
}

#[derive(Copy, Clone, Debug, PartialEq, Eq, Structural)]
pub enum SpaceKind {
    Room,
    ThreadedRoom,
    DirectMessage,
    GroupDm,
    Channel,
    Unknown,
}

/// The kind of a space, in the words of the surface.
pub open spec fn kind_of(k: types::space::SpaceKind) -> SpaceKind {
    match k {
        types::space::SpaceKind::Room => SpaceKind::Room,
        types::space::SpaceKind::ThreadedRoom => SpaceKind::ThreadedRoom,
        types::space::SpaceKind::DirectMessage => SpaceKind::DirectMessage,
        types::space::SpaceKind::GroupDm => SpaceKind::GroupDm,
        types::space::SpaceKind::Channel => SpaceKind::Channel,
    }
}

impl From<types::space::SpaceKind> for SpaceKind {
    fn from(k: types::space::SpaceKind) -> (r: SpaceKind) {
        match k {
            types::space::SpaceKind::Room => SpaceKind::Room,
            types::space::SpaceKind::ThreadedRoom => SpaceKind::ThreadedRoom,
            types::space::SpaceKind::DirectMessage => SpaceKind::DirectMessage,
            types::space::SpaceKind::GroupDm => SpaceKind::GroupDm,
            types::space::SpaceKind::Channel => SpaceKind::Channel,
        }
    }
}

impl vstd::std_specs::convert::FromSpecImpl<types::space::SpaceKind> for SpaceKind {
    open spec fn obeys_from_spec() -> bool {
        true
    }

    open spec fn from_spec(k: types::space::SpaceKind) -> SpaceKind {
        kind_of(k)
    }
}

#[derive(Debug)]
pub struct SpacesResponse {
    pub spaces: Vec<SpaceInfo>,
}

#[derive(Debug)]
pub struct AskRequest {
    pub text: String,
    /// A request that comes again with the same key is answered as it was before.
    pub idempotency_key: Option<String>,
}

#[derive(Debug)]
pub struct AskResponse {
    pub topic_id: String,
    pub message_id: String,
    pub space_id: String,
}

#[derive(Debug)]
pub struct SearchResponse {
    pub query: String,
    pub threads: Vec<ThreadJson>,
    pub continuation: Option<String>,
}

#[derive(Debug)]
pub struct ThreadJson {
    pub topic_id: String,
    pub messages: Vec<MessageJson>,
}

#[derive(Debug)]
pub struct MessageJson {
    pub author_id: String,
    pub text: String,
    pub timestamp_usec: u64,
}

#[derive(Debug)]
pub struct ReplyRequest {
    pub space_id: String,
    pub text: String,
    /// A request that comes again with the same key is answered as it was before.
    pub idempotency_key: Option<String>,
}

#[derive(Debug)]
pub struct ReplyResponse {
    pub message_id: String,
}

/// An event of the stream.
#[derive(Debug)]
pub struct EventEnvelope {
    pub kind: EventKind,
    pub space_id: String,
    pub topic_id: Option<String>,
    pub message_id: Option<String>,
    pub author_id: Option<String>,
    pub text: Option<String>,
    pub timestamp_usec: Option<u64>,
}

/// What an event tells.
#[derive(Copy, Clone, Debug, PartialEq, Eq, Hash, Structural)]
pub enum EventKind {
    MessagePosted,
    MessageEdited,
    MessageDeleted,
    ReactionUpdated,
    TypingStarted,
    TypingStopped,
    SpaceUpdated,
    PresenceChanged,
    MembershipChanged,
    ReadStateUpdated,
}

/// The name of a kind of event.
pub open spec fn kind_text(k: EventKind) -> Seq<char> {
    match k {
        EventKind::MessagePosted => "message_posted"@,
        EventKind::MessageEdited => "message_edited"@,
        EventKind::MessageDeleted => "message_deleted"@,
        EventKind::ReactionUpdated => "reaction_updated"@,
        EventKind::TypingStarted => "typing_started"@,
        EventKind::TypingStopped => "typing_stopped"@,
        EventKind::SpaceUpdated => "space_updated"@,
        EventKind::PresenceChanged => "presence_changed"@,
        EventKind::MembershipChanged => "membership_changed"@,
        EventKind::ReadStateUpdated => "read_state_updated"@,
    }
}

/// The kind of event with this name.
pub open spec fn kind_named(s: Seq<char>) -> Option<EventKind> {
    if s == "message_posted"@ {
        Some(EventKind::MessagePosted)
    } else if s == "message_edited"@ {
        Some(EventKind::MessageEdited)
    } else if s == "message_deleted"@ {
        Some(EventKind::MessageDeleted)
    } else if s == "reaction_updated"@ {
        Some(EventKind::ReactionUpdated)
    } else if s == "typing_started"@ {
        Some(EventKind::TypingStarted)
    } else if s == "typing_stopped"@ {
        Some(EventKind::TypingStopped)
    } else if s == "space_updated"@ {
        Some(EventKind::SpaceUpdated)
    } else if s == "presence_changed"@ {
        Some(EventKind::PresenceChanged)
    } else if s == "membership_changed"@ {
        Some(EventKind::MembershipChanged)
    } else if s == "read_state_updated"@ {
        Some(EventKind::ReadStateUpdated)
    } else {
        None
    }
}

impl EventKind {
    /// The name of the kind.
    pub fn as_str(self) -> (r: &'static str)
        ensures
            r@ == kind_text(self),
    {
        match self {
            EventKind::MessagePosted => "message_posted",
            EventKind::MessageEdited => "message_edited",
            EventKind::MessageDeleted => "message_deleted",
            EventKind::ReactionUpdated => "reaction_updated",
            EventKind::TypingStarted => "typing_started",
            EventKind::TypingStopped => "typing_stopped",
            EventKind::SpaceUpdated => "space_updated",
            EventKind::PresenceChanged => "presence_changed",
            EventKind::MembershipChanged => "membership_changed",
            EventKind::ReadStateUpdated => "read_state_updated",
        }
    }

    /// The kind with this name.
    pub fn from_str(s: &str) -> (r: Option<EventKind>)
        ensures
            r == kind_named(s@),
    {
        if text::same(s, "message_posted") {
            Some(EventKind::MessagePosted)
        } else if text::same(s, "message_edited") {
            Some(EventKind::MessageEdited)
        } else if text::same(s, "message_deleted") {
            Some(EventKind::MessageDeleted)
        } else if text::same(s, "reaction_updated") {
            Some(EventKind::ReactionUpdated)
        } else if text::same(s, "typing_started") {
            Some(EventKind::TypingStarted)
        } else if text::same(s, "typing_stopped") {
            Some(EventKind::TypingStopped)
        } else if text::same(s, "space_updated") {
            Some(EventKind::SpaceUpdated)
        } else if text::same(s, "presence_changed") {
            Some(EventKind::PresenceChanged)
        } else if text::same(s, "membership_changed") {
            Some(EventKind::MembershipChanged)
        } else if text::same(s, "read_state_updated") {
            Some(EventKind::ReadStateUpdated)
        } else {
            None
        }
    }
}

/// The name of a kind stands for that kind, and no other text does.
pub proof fn law_kind_reads_back(k: EventKind, s: Seq<char>)
    ensures
        kind_named(kind_text(k)) == Some(k),
        kind_named(s) == Some(k) ==> s == kind_text(k),
{
    reveal_strlit("message_posted");
    reveal_strlit("message_edited");
    reveal_strlit("message_deleted");
    reveal_strlit("reaction_updated");
    reveal_strlit("typing_started");
    reveal_strlit("typing_stopped");
    reveal_strlit("space_updated");
    reveal_strlit("presence_changed");
    reveal_strlit("membership_changed");
    reveal_strlit("read_state_updated");
    assert("message_posted"@.len() == 14);
    assert("message_edited"@.len() == 14);
    assert("message_deleted"@.len() == 15);
    assert("reaction_updated"@.len() == 16);
    assert("typing_started"@.len() == 14);
    assert("typing_stopped"@.len() == 14);
    assert("space_updated"@.len() == 13);
    assert("presence_changed"@.len() == 16);
    assert("membership_changed"@.len() == 18);
    assert("read_state_updated"@.len() == 18);
    assert("message_posted"@[8] != "message_edited"@[8]);
    assert("typing_started"@[0] != "message_posted"@[0]);
    assert("typing_started"@[0] != "message_edited"@[0]);
    assert("typing_stopped"@[0] != "message_posted"@[0]);
    assert("typing_stopped"@[0] != "message_edited"@[0]);
    assert("typing_started"@[9] != "typing_stopped"@[9]);
    assert("reaction_updated"@[0] != "presence_changed"@[0]);
    assert("membership_changed"@[0] != "read_state_updated"@[0]);
}

/// An error, as it is told to a program.
#[derive(Debug)]
pub struct ErrorResponse {
    pub error: String,
    pub detail: Option<String>,
}

} // verus!
