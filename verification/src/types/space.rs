//! Spaces and the users in them.
use vstd::prelude::*;

use crate::text::text_opt;
use crate::types::ids::{PlatformId, SpaceId, UserId};
use crate::types::timestamp::Timestamp;

verus! {

/// A room, a direct message or a channel.
#[derive(Debug)]
pub struct Space {
    pub id: SpaceId,
    pub name: String,
    pub kind: SpaceKind,
    pub platform: PlatformId,
    pub unread_count: u32,
    pub last_activity: Timestamp,
    pub sort_timestamp: Timestamp,
    pub typing_users: Vec<UserId>,
}

/// What sort of space it is.
#[derive(Copy, Clone, Debug, PartialEq, Eq, Structural)]
pub enum SpaceKind {
    DirectMessage,
    GroupDm,
    /// A room without topics.
    Room,
    /// A room in which messages belong to topics.
    ThreadedRoom,
    Channel,
}

/// A user.
#[derive(Debug)]
pub struct User {
    pub id: UserId,
    pub display_name: String,
    pub email: Option<String>,
    pub avatar_url: Option<String>,
    pub presence: PresenceStatus,
    pub is_bot: bool,
}

/// Whether a user is there.
#[derive(Copy, Clone, Debug, PartialEq, Eq, Structural)]
pub enum PresenceStatus {
    Active,
    Inactive,
    Dnd,
    Unknown,
}

/// What a member may do in a space.
#[derive(Copy, Clone, Debug, PartialEq, Eq, Structural)]
pub enum MemberRole {
    Owner,
    Manager,
    Member,
    Invitee,
    Unknown,
}

/// Whether a user is a member of a space.
#[derive(Copy, Clone, Debug, PartialEq, Eq, Structural)]
pub enum MembershipState {
    Joined,
    Invited,
    Left,
    Unknown,
}

// ───────────────────────── models ─────────────────────────

/// The mathematical form of a [`Space`].
pub ghost struct SpaceV {
    pub id: SpaceId,
    pub name: Seq<char>,
    pub kind: SpaceKind,
    pub platform: PlatformId,
    pub unread_count: u32,
    pub last_activity: Timestamp,
    pub sort_timestamp: Timestamp,
    pub typing_users: Seq<UserId>,
}

/// The mathematical form of a [`User`].
pub ghost struct UserV {
    pub id: UserId,
    pub display_name: Seq<char>,
    pub email: Option<Seq<char>>,
    pub avatar_url: Option<Seq<char>>,
    pub presence: PresenceStatus,
    pub is_bot: bool,
}

impl View for Space {
    type V = SpaceV;

    open spec fn view(&self) -> SpaceV {
        SpaceV {
            id: self.id,
            name: self.name@,
            kind: self.kind,
            platform: self.platform,
            unread_count: self.unread_count,
            last_activity: self.last_activity,
            sort_timestamp: self.sort_timestamp,
            typing_users: self.typing_users@,
        }
    }
}

impl View for User {
    type V = UserV;

    open spec fn view(&self) -> UserV {
        UserV {
            id: self.id,
            display_name: self.display_name@,
            email: text_opt(self.email),
            avatar_url: text_opt(self.avatar_url),
            presence: self.presence,
            is_bot: self.is_bot,
        }
    }
}

pub open spec fn spaces(v: Seq<Space>) -> Seq<SpaceV> {
    v.map_values(|s: Space| s@)
}

pub open spec fn users(v: Seq<User>) -> Seq<UserV> {
    v.map_values(|u: User| u@)
}

} // verus!
