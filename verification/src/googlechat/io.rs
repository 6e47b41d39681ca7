//! The rules of a session's command loop: what a command asks of the service, which
//! calls are made, and which replies are told of.
use vstd::prelude::*;

use crate::error::{fetch_failed, field_missing, AuthError};
use crate::event::inbound::{events, DisconnectReason, EventV, InboundEvent, ReasonV};
use crate::event::outbound::OutboundCommand;
use crate::googlechat::api::ApiRequest;
use crate::googlechat::commands::{asks, command_to_api_request};
use crate::googlechat::convert::{
    events_messages, history_response_to_event, list_topics_response_to_event_with_interner,
    member_users, members_response_to_event, plain_self, presence_response_to_event, presence_users,
    topics_messages, world_items, world_response_to_event, world_spaces,
};
use crate::googlechat::poll::{disconnected, ended};
use crate::googlechat::proto;
use crate::googlechat::reply::text_member;
use crate::googlechat::session::{
    extract_sid_from_stream, parse_sid_from_register, sid_in_header, streamed_sid, SidFound,
};
use crate::json::{self, parsed};
use crate::text::{self, join2, within};
use crate::types::ids::{with, IdInterner, InternedId, PlatformId, Pool, SpaceId};
use crate::types::space::{spaces, Space, User};

verus! {

broadcast use vstd::string::group_string_axioms;

/// Who makes the calls of a session.
#[derive(Copy, Clone, Debug, PartialEq, Eq, Structural)]
pub enum Caller {
    /// A browser that is signed in.
    Browser,
    /// Plain HTTP calls.
    Direct,
    /// A worker that takes calls from a queue.
    Queue,
}

/// What a command comes to.
#[derive(Debug)]
pub enum CommandStep {
    /// The session ends.
    Stop,
    /// A call, and the space whose history it asks for.
    Call(ApiRequest, Option<SpaceId>),
}

/// The space whose history a command asks for.
pub open spec fn history_of(cmd: OutboundCommand) -> Option<SpaceId> {
    match cmd {
        OutboundCommand::FetchHistory { space_id, .. } => Some(space_id),
        _ => None,
    }
}

/// What a command comes to, in the process `process` at the time `now` in microseconds.
pub fn command_step(cmd: OutboundCommand, interner: &IdInterner, process: u32, now: u128) -> (r:
    CommandStep)
    ensures
        match r {
            CommandStep::Stop => cmd is Disconnect,
            CommandStep::Call(q, space) => !(cmd is Disconnect) && asks(
                cmd,
                interner@,
                process,
                now,
                Some(q),
            ) && space == history_of(cmd),
        },
{
    let space = match &cmd {
        OutboundCommand::FetchHistory { space_id, .. } => Some(*space_id),
        _ => None,
    };
    match command_to_api_request(cmd, interner, process, now) {
        Some(q) => CommandStep::Call(q, space),
        None => CommandStep::Stop,
    }
}

/// The call is made by this caller. Plain HTTP calls are made for nine kinds of calls
/// alone, and a browser leaves the world and the messages of a space to its loading.
pub open spec fn made_by(caller: Caller, q: ApiRequest) -> bool {
    match caller {
        Caller::Browser => !(q is PaginatedWorld || q is ListMessages),
        Caller::Direct => q is SendMessage || q is ListTopics || q is EditMessage
            || q is DeleteMessage || q is SetTyping || q is MarkRead || q is UpdateReaction
            || q is GetGroup || q is GetMembers,
        Caller::Queue => true,
    }
}

/// True where the call is made by this caller.
pub fn is_made_by(caller: Caller, q: &ApiRequest) -> (r: bool)
    ensures
        r == made_by(caller, *q),
{
    match caller {
        Caller::Browser => match q {
            ApiRequest::PaginatedWorld(_) | ApiRequest::ListMessages(_) => false,
            _ => true,
        },
        Caller::Direct => match q {
            ApiRequest::SendMessage(_)
            | ApiRequest::ListTopics(_)
            | ApiRequest::EditMessage(_)
            | ApiRequest::DeleteMessage(_)
            | ApiRequest::SetTyping(_)
            | ApiRequest::MarkRead(_)
            | ApiRequest::UpdateReaction(_)
            | ApiRequest::GetGroup(_)
            | ApiRequest::GetMembers(_) => true,
            _ => false,
        },
        Caller::Queue => true,
    }
}

/// A reply to a call.
#[derive(Debug)]
pub enum ApiReply {
    CatchUp(proto::CatchUpResponse),
    Topics(proto::ListTopicsResponse),
    Members(proto::GetMembersResponse),
    Presence(proto::GetUserPresenceResponse),
    World(proto::PaginatedWorldResponse),
    /// A reply that only says that the call went well.
    Other,
}

/// The space that a reply is about: the one whose history was asked for, else the one
/// that was named first.
pub open spec fn about(space: Option<SpaceId>) -> SpaceId {
    match space {
        Some(s) => s,
        None => SpaceId { platform: PlatformId::GoogleChat, id: InternedId::lowest() },
    }
}

/// What is told of a reply, and the pool behind it. A browser tells of histories, topics,
/// members and presence, plain HTTP calls of topics and members, and a queue of the
/// world.
pub open spec fn told_of(caller: Caller, reply: ApiReply, space: Option<SpaceId>, pool: Pool) -> (
    Pool,
    Option<EventV>,
) {
    match reply {
        ApiReply::CatchUp(x) => if caller == Caller::Browser {
            let (p, m) = events_messages(x.events@, about(space), pool, Seq::empty());
            (
                p,
                Some(
                    EventV::HistoryChunk {
                        space_id: about(space),
                        messages: m,
                        has_more: x.status == Some(2i32),
                    },
                ),
            )
        } else {
            (pool, None)
        },
        ApiReply::Topics(x) => if caller == Caller::Queue {
            (pool, None)
        } else {
            let (p, m) = topics_messages(x.topics@, about(space), pool, Seq::empty());
            (
                p,
                Some(
                    EventV::HistoryChunk {
                        space_id: about(space),
                        messages: m,
                        has_more: x.contains_first_topic == Some(false),
                    },
                ),
            )
        },
        ApiReply::Members(x) => if caller == Caller::Queue {
            (pool, None)
        } else {
            let (p, u) = member_users(x.members@, pool);
            (p, Some(EventV::UsersResolved { users: u }))
        },
        ApiReply::Presence(x) => if caller == Caller::Browser {
            let (p, u) = presence_users(x.user_presences@, pool);
            (p, Some(EventV::UsersResolved { users: u }))
        } else {
            (pool, None)
        },
        ApiReply::World(x) => if caller == Caller::Queue {
            let (p, s) = world_spaces(world_items(x), pool);
            (
                with(p, "self"@),
                Some(
                    EventV::WorldSync {
                        platform: PlatformId::GoogleChat,
                        spaces: s,
                        self_user: plain_self(p, "self"@),
                    },
                ),
            )
        } else {
            (pool, None)
        },
        ApiReply::Other => (pool, None),
    }
}

fn space_about(space: Option<SpaceId>) -> (r: SpaceId)
    ensures
        r == about(space),
{
    match space {
        Some(s) => s,
        None => {
            SpaceId { platform: PlatformId::GoogleChat, id: InternedId::first() }
        },
    }
}

/// What is told of a reply.
pub fn reply_event(
    caller: Caller,
    reply: ApiReply,
    space: Option<SpaceId>,
    interner: &mut IdInterner,
) -> (r: Option<InboundEvent>)
    ensures
        ({
            let (p, e) = told_of(caller, reply, space, old(interner)@);
            final(interner)@ == p && match e {
                Some(v) => r matches Some(x) && x@ == v,
                None => r is None,
            }
        }),
{
    match reply {
        ApiReply::CatchUp(x) => match caller {
            Caller::Browser => Some(history_response_to_event(x, space_about(space), interner)),
            _ => None,
        },
        ApiReply::Topics(x) => match caller {
            Caller::Queue => None,
            _ => Some(
                list_topics_response_to_event_with_interner(x, space_about(space), interner),
            ),
        },
        ApiReply::Members(x) => match caller {
            Caller::Queue => None,
            _ => Some(members_response_to_event(x, interner)),
        },
        ApiReply::Presence(x) => match caller {
            Caller::Browser => Some(presence_response_to_event(x, interner)),
            _ => None,
        },
        ApiReply::World(x) => match caller {
            Caller::Queue => Some(world_response_to_event(x, interner)),
            _ => None,
        },
        ApiReply::Other => None,
    }
}

/// What is told at the start of a session: the spaces, then that it is connected.
pub fn start_events(all: Vec<Space>, me: User) -> (r: Vec<InboundEvent>)
    ensures
        events(r@) == seq![
            EventV::WorldSync {
                platform: PlatformId::GoogleChat,
                spaces: spaces(all@),
                self_user: me@,
            },
            EventV::Connected { platform: PlatformId::GoogleChat },
        ],
{
    let mut out: Vec<InboundEvent> = Vec::new();
    let first = InboundEvent::WorldSync {
        platform: PlatformId::GoogleChat,
        spaces: all,
        self_user: me,
    };
    let ghost fv = first@;
    out.push(first);
    out.push(InboundEvent::Connected { platform: PlatformId::GoogleChat });
    proof {
        assert(events(out@) =~= seq![fv, EventV::Connected { platform: PlatformId::GoogleChat }]);
    }
    out
}

/// What is told where a session cannot be signed in.
pub fn sign_in_failed(error: &AuthError) -> (r: InboundEvent)
    ensures
        r@ == ended(ReasonV::AuthFailed(error.text())),
{
    disconnected(DisconnectReason::AuthFailed(error.message()))
}

/// What is told at the end of a session.
pub fn end_event() -> (r: InboundEvent)
    ensures
        r@ == ended(ReasonV::Shutdown),
{
    disconnected(DisconnectReason::Shutdown)
}

// ───────────────────────── the tab of the event channel ─────────────────────────

/// The error of a tab that does not get past the sign-in page, with the first sixty
/// bytes of its address.
pub fn stuck_tab(url: &str) -> (r: AuthError)
    ensures
        r matches AuthError::SessionFetch(m) && m@ == "BC tab stuck on SSO: "@ + within(url@, 60),
{
    let shown = text::cut_bytes(url, 60);
    AuthError::SessionFetch(join2("BC tab stuck on SSO: ", shown.as_str()))
}

/// The number of the event channel in what the tab gives back: in the header where there
/// is one, else in the body.
pub fn channel_sid(reply: &str) -> (r: Result<String, AuthError>)
    ensures
        match parsed(reply@) {
            Err(m) => fetch_failed(r, "SID parse: "@ + m),
            Ok(j) => match text_member(j, "sid_header"@) {
                Some(h) => match sid_in_header(h) {
                    SidFound::Sid(s) => r matches Ok(t) && t@ == s,
                    SidFound::NoArray => field_missing(r, "SID array"@),
                    SidFound::NoJson(m) => fetch_failed(r, m),
                    SidFound::NoSid => field_missing(r, "SID"@),
                },
                None => match text_member(j, "body"@) {
                    Some(b) => match streamed_sid(b) {
                        Some(s) => r matches Ok(t) && t@ == s,
                        None => field_missing(r, "SID in body"@),
                    },
                    None => fetch_failed(
                        r,
                        "SID fetch failed: "@ + match text_member(j, "error"@) {
                            Some(e) => e,
                            None => "unknown"@,
                        },
                    ),
                },
            },
        },
{
    let j = match json::parse(reply) {
        Ok(j) => j,
        Err(m) => return Err(AuthError::SessionFetch(join2("SID parse: ", m.as_str()))),
    };
    let header = match j.member("sid_header") {
        Some(v) => v.as_str(),
        None => None,
    };
    match header {
        Some(h) => return parse_sid_from_register(h),
        None => {},
    }
    let body = match j.member("body") {
        Some(v) => v.as_str(),
        None => None,
    };
    match body {
        Some(b) => match extract_sid_from_stream(b) {
            Some(s) => Ok(s),
            None => Err(AuthError::MissingField("SID in body")),
        },
        None => {
            let error = match j.member("error") {
                Some(v) => match v.as_str() {
                    Some(e) => e,
                    None => "unknown",
                },
                None => "unknown",
            };
            Err(AuthError::SessionFetch(join2("SID fetch failed: ", error)))
        },
    }
}

} // verus!
