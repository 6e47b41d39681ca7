//! What the service is asked for: each command becomes a call that names the same space, the
//! same message and the same users, and holds the same text.
use vstd::prelude::*;

use crate::event::outbound::OutboundCommand;
use crate::googlechat::api::ApiRequest;
use crate::googlechat::commands::{
    are_invitees, are_members, are_users, asks, has_group, is_emoji, is_group,
};
use crate::googlechat::convert::{
    emoji_of, events_messages, member_users, presence_users, world_items, world_spaces,
};
use crate::googlechat::io::{history_of, made_by, told_of, ApiReply, Caller};
use crate::googlechat::proto;
use crate::googlechat::told::home;
use crate::event::inbound::EventV;
use crate::text::{after, holds, lemma_find_from, occurs_at, starts};
use crate::types::ids::{string_of, InternedId, Pool, SpaceId, UserId};
use crate::types::message::Emoji;

verus! {

broadcast use vstd::string::group_string_axioms;

// ───────────────────────── names ─────────────────────────

/// The number stands for this name.
pub open spec fn stands_for(pool: Pool, id: InternedId, s: Seq<char>) -> bool {
    string_of(pool, id) == Some(s)
}

/// The group is the one of that name: a direct message where the name has the prefix or is an
/// address, else a room. Prefixes are left off.
pub open spec fn goes_to(g: Option<proto::GroupId>, s: Seq<char>) -> bool {
    g is Some && if starts(s, "dm/"@) {
        g->0.space_id is None && g->0.dm_id is Some && g->0.dm_id->0.dm_id is Some
            && g->0.dm_id->0.dm_id->0@ == after(s, 3)
    } else if s.contains('@') {
        g->0.space_id is None && g->0.dm_id is Some && g->0.dm_id->0.dm_id is Some
            && g->0.dm_id->0.dm_id->0@ == s
    } else {
        g->0.dm_id is None && g->0.space_id is Some && g->0.space_id->0.space_id is Some
            && g->0.space_id->0.space_id->0@ == if starts(s, "space/"@) {
            after(s, 6)
        } else if starts(s, "spaces/"@) {
            after(s, 7)
        } else {
            s
        }
    }
}

proof fn lemma_has_at(s: Seq<char>)
    ensures
        holds(s, "@"@) <==> s.contains('@'),
{
    reveal_strlit("@");
    let p = "@"@;
    assert(p =~= seq!['@']);
    lemma_find_from(s, p, 0);
    if s.contains('@') {
        let i = s.index_of('@');
        assert(s.subrange(i, i + 1) =~= p);
        assert(occurs_at(s, p, i));
    }
    if holds(s, p) {
        let i = crate::text::find(s, p)->0;
        assert(s.subrange(i, i + 1)[0] == s[i]);
        assert(p[0] == '@');
    }
}

/// A call goes to the space that was named.
pub proof fn law_calls_go_to_the_space(g: proto::GroupId, s: Seq<char>)
    requires
        is_group(g, s),
    ensures
        goes_to(Some(g), s),
{
    reveal_strlit("dm/");
    reveal_strlit("space/");
    reveal_strlit("spaces/");
    lemma_has_at(s);
}

/// The emoji in the service's form is read back as the same emoji.
pub proof fn law_emoji_reads_back(p: proto::Emoji, e: Emoji)
    requires
        is_emoji(p, e),
    ensures
        emoji_of(Some(p)) == e@,
{
}

// ───────────────────────── messages ─────────────────────────

/// A message is sent to the space, in the topic that was named and in no other, with the text
/// as it was written.
pub proof fn law_a_message_is_sent_as_written(
    space_id: SpaceId,
    text: String,
    thread_id: Option<crate::types::ids::TopicId>,
    pool: Pool,
    process: u32,
    now: u128,
    r: Option<ApiRequest>,
    space: Seq<char>,
    topic: Seq<char>,
)
    requires
        asks(OutboundCommand::SendMessage { space_id, text, thread_id }, pool, process, now, r),
        stands_for(pool, space_id.id, space),
        thread_id is Some ==> stands_for(pool, (thread_id->0).0, topic),
    ensures
        r matches Some(ApiRequest::SendMessage(q)) && {
            let t = q.parent_id->0.topic_id->0;
            &&& q.text_body is Some && q.text_body->0@ == text@
            &&& q.parent_id is Some && q.parent_id->0.topic_id is Some
            &&& goes_to(t.group_id, space)
            &&& thread_id is Some ==> t.topic_id is Some && t.topic_id->0@ == topic
            &&& thread_id is None ==> t.topic_id is None
        },
{
    let q = r->0->SendMessage_0;
    law_calls_go_to_the_space(q.parent_id->0.topic_id->0.group_id->0, space);
}

/// An edit names the message and gives the new text, and a deletion names the message.
pub proof fn law_an_edit_names_its_message(
    space_id: SpaceId,
    message_id: crate::types::ids::MessageId,
    new_text: String,
    pool: Pool,
    process: u32,
    now: u128,
    edit: Option<ApiRequest>,
    deletion: Option<ApiRequest>,
    name: Seq<char>,
)
    requires
        asks(
            OutboundCommand::EditMessage { space_id, message_id, new_text },
            pool,
            process,
            now,
            edit,
        ),
        asks(OutboundCommand::DeleteMessage { space_id, message_id }, pool, process, now, deletion),
        stands_for(pool, message_id.0, name),
    ensures
        edit matches Some(ApiRequest::EditMessage(q)) && q.message_id is Some
            && q.message_id->0.message_id is Some && q.message_id->0.message_id->0@ == name
            && q.text_body is Some && q.text_body->0@ == new_text@,
        deletion matches Some(ApiRequest::DeleteMessage(q)) && q.message_id is Some
            && q.message_id->0.message_id is Some && q.message_id->0.message_id->0@ == name,
{
}

/// A reaction is put on the message of that name in that space, with its emoji, and taken away
/// from the same: the two calls differ only in the option, one to add and two to remove.
pub proof fn law_a_reaction_is_taken_away_as_it_was_put(
    space_id: SpaceId,
    message_id: crate::types::ids::MessageId,
    emoji: Emoji,
    pool: Pool,
    process: u32,
    now: u128,
    put: Option<ApiRequest>,
    taken: Option<ApiRequest>,
    space: Seq<char>,
    name: Seq<char>,
)
    requires
        asks(OutboundCommand::AddReaction { space_id, message_id, emoji }, pool, process, now, put),
        asks(
            OutboundCommand::RemoveReaction { space_id, message_id, emoji },
            pool,
            process,
            now,
            taken,
        ),
        stands_for(pool, space_id.id, space),
        stands_for(pool, message_id.0, name),
    ensures
        put matches Some(ApiRequest::UpdateReaction(q)) && q.option == Some(1i32) && emoji_of(
            q.emoji,
        ) == emoji@ && on_message(q, space, name),
        taken matches Some(ApiRequest::UpdateReaction(q)) && q.option == Some(2i32) && emoji_of(
            q.emoji,
        ) == emoji@ && on_message(q, space, name),
{
    let p = put->0->UpdateReaction_0;
    let t = taken->0->UpdateReaction_0;
    law_calls_go_to_the_space(home(p.message_id)->0.group_id->0, space);
    law_calls_go_to_the_space(home(t.message_id)->0.group_id->0, space);
}

/// The call is about the message of that name in that space.
pub open spec fn on_message(
    q: proto::UpdateReactionRequest,
    space: Seq<char>,
    name: Seq<char>,
) -> bool {
    &&& q.message_id is Some && q.message_id->0.message_id is Some
    &&& q.message_id->0.message_id->0@ == name
    &&& home(q.message_id) is Some && goes_to(home(q.message_id)->0.group_id, space)
}

// ───────────────────────── spaces ─────────────────────────

/// The group that a call about a space names.
pub open spec fn group_asked(q: ApiRequest) -> Option<proto::GroupId> {
    match q {
        ApiRequest::SetTyping(q) => if q.context is Some {
            q.context->0.group_id
        } else {
            None
        },
        ApiRequest::MarkRead(q) => q.id,
        ApiRequest::ListTopics(q) => q.group_id,
        ApiRequest::CreateTopic(q) => q.group_id,
        ApiRequest::CreateMembership(q) => q.group_id,
        ApiRequest::RemoveMemberships(q) => q.group_id,
        ApiRequest::HideGroup(q) => q.id,
        ApiRequest::ListMembers(q) => q.group_id,
        ApiRequest::AutocompleteSlashCommands(q) => q.group_id,
        ApiRequest::CreateVideoCall(q) => q.group_id,
        _ => None,
    }
}

/// The space that a command is about.
pub open spec fn space_asked(cmd: OutboundCommand) -> Option<SpaceId> {
    match cmd {
        OutboundCommand::SetTyping { space_id, .. } => Some(space_id),
        OutboundCommand::MarkRead { space_id, .. } => Some(space_id),
        OutboundCommand::FetchHistory { space_id, .. } => Some(space_id),
        OutboundCommand::CreateTopic { space_id, .. } => Some(space_id),
        OutboundCommand::AddMembers { space_id, .. } => Some(space_id),
        OutboundCommand::RemoveMembers { space_id, .. } => Some(space_id),
        OutboundCommand::HideSpace { space_id, .. } => Some(space_id),
        OutboundCommand::ListSpaceMembers { space_id } => Some(space_id),
        OutboundCommand::AutocompleteSlashCommands { space_id, .. } => Some(space_id),
        OutboundCommand::CreateVideoCall { space_id } => Some(space_id),
        _ => None,
    }
}

/// The call is of the kind that the command asks for, and says whatever else the command says.
pub open spec fn says_the_same(cmd: OutboundCommand, q: ApiRequest) -> bool {
    match cmd {
        OutboundCommand::SetTyping { typing, .. } => q matches ApiRequest::SetTyping(x) && x.state
            == Some(
            if typing {
                3i32
            } else {
                1
            },
        ),
        OutboundCommand::MarkRead { .. } => q is MarkRead,
        OutboundCommand::FetchHistory { count, .. } => q matches ApiRequest::ListTopics(x) && (count
            <= i32::MAX ==> x.page_size_for_topics == Some(count as i32)),
        OutboundCommand::CreateTopic { text, .. } => q matches ApiRequest::CreateTopic(x)
            && x.text_body matches Some(t) && t@ == text@,
        OutboundCommand::AddMembers { .. } => q matches ApiRequest::CreateMembership(x)
            && x.membership_state == Some(2i32),
        OutboundCommand::RemoveMembers { .. } => q matches ApiRequest::RemoveMemberships(x)
            && x.membership_state == Some(3i32),
        OutboundCommand::HideSpace { hide, .. } => q matches ApiRequest::HideGroup(x) && x.hide
            == Some(hide),
        OutboundCommand::ListSpaceMembers { .. } => q is ListMembers,
        OutboundCommand::AutocompleteSlashCommands { query, max_results, .. } => q
            matches ApiRequest::AutocompleteSlashCommands(x) && x.query matches Some(t) && t@
            == query@ && (max_results <= i32::MAX ==> x.max_num_results == Some(max_results as i32)),
        OutboundCommand::CreateVideoCall { .. } => q is CreateVideoCall,
        OutboundCommand::RenameSpace { new_name, .. } => q matches ApiRequest::UpdateGroup(x)
            && x.name matches Some(t) && t@ == new_name@,
        OutboundCommand::CreateRoom { name, .. } => q matches ApiRequest::CreateGroup(x)
            && x.space matches Some(s) && s.name matches Some(t) && t@ == name@,
        OutboundCommand::SetDndDuration { duration_usec } => q matches ApiRequest::SetDndDuration(x)
            && (duration_usec <= i64::MAX ==> x.new_dnd_duration_usec == Some(duration_usec as i64)),
        OutboundCommand::SetCustomStatus { text, expiry_usec, .. } => q
            matches ApiRequest::SetCustomStatus(x) && x.custom_status matches Some(s)
            && s.status_text matches Some(t) && t@ == text@ && s.state_expiry_timestamp_usec
            == expiry_usec && x.custom_status_expiry_timestamp_usec == expiry_usec,
        OutboundCommand::BlockEntity { blocked, reported, .. } => q
            matches ApiRequest::BlockEntity(x) && x.blocked == Some(blocked) && x.reported == Some(
            reported,
        ),
        OutboundCommand::SetPresenceShared { shared } => q matches ApiRequest::SetPresenceShared(x)
            && x.presence_shared == Some(shared),
        OutboundCommand::CreateCustomEmoji { shortcode } => q
            matches ApiRequest::CreateCustomEmoji(x) && x.shortcode matches Some(t) && t@
            == shortcode@,
        OutboundCommand::RefreshSelf => q is GetSelfUserStatus,
        OutboundCommand::GetUsers { .. } => q is GetMembers,
        OutboundCommand::GetUserPresence { .. } => q is GetUserPresence,
        OutboundCommand::CreateDm { .. } => q is CreateDm,
        _ => true,
    }
}

/// A call about a space goes to that space, and says what the command says.
pub proof fn law_a_call_says_what_was_asked(
    cmd: OutboundCommand,
    pool: Pool,
    process: u32,
    now: u128,
    q: ApiRequest,
    space: Seq<char>,
)
    requires
        asks(cmd, pool, process, now, Some(q)),
        space_asked(cmd) is Some ==> stands_for(pool, space_asked(cmd)->0.id, space),
    ensures
        says_the_same(cmd, q),
        space_asked(cmd) is Some ==> goes_to(group_asked(q), space),
{
    if space_asked(cmd) is Some {
        assert(has_group(group_asked(q), space));
        law_calls_go_to_the_space(group_asked(q)->0, space);
    }
}

/// Who is renamed is the room of that name, and the blocking names the user and the space that
/// it was asked for.
pub proof fn law_blocking_and_renaming_name_their_subject(
    cmd: OutboundCommand,
    pool: Pool,
    process: u32,
    now: u128,
    q: ApiRequest,
    name: Seq<char>,
)
    requires
        asks(cmd, pool, process, now, Some(q)),
    ensures
        cmd matches OutboundCommand::RenameSpace { space_id, .. } && stands_for(
            pool,
            space_id.id,
            name,
        ) ==> (q matches ApiRequest::UpdateGroup(x) && x.space_id matches Some(s)
            && s.space_id matches Some(t) && t@ == name && x.update_masks@ == seq![1i32]),
        cmd matches OutboundCommand::BlockEntity { user_id, .. } && user_id matches Some(u)
            && stands_for(pool, u.id, name) ==> (q matches ApiRequest::BlockEntity(x) && x.user_id
            matches Some(y) && y.id matches Some(t) && t@ == name),
        cmd matches OutboundCommand::BlockEntity { space_id, .. } && space_id matches Some(s)
            && stands_for(pool, s.id, name) ==> (q matches ApiRequest::BlockEntity(x) && goes_to(
            x.group_id,
            name,
        )),
{
    match cmd {
        OutboundCommand::BlockEntity { space_id, .. } => if space_id is Some && stands_for(
            pool,
            space_id->0.id,
            name,
        ) {
            law_calls_go_to_the_space(q->BlockEntity_0.group_id->0, name);
        },
        _ => {},
    }
}

// ───────────────────────── users ─────────────────────────

/// The users that a command names.
pub open spec fn users_asked(cmd: OutboundCommand) -> Seq<UserId> {
    match cmd {
        OutboundCommand::GetUsers { user_ids } => user_ids@,
        OutboundCommand::GetUserPresence { user_ids } => user_ids@,
        OutboundCommand::CreateRoom { invite_user_ids, .. } => invite_user_ids@,
        OutboundCommand::CreateDm { user_ids } => user_ids@,
        OutboundCommand::AddMembers { user_ids, .. } => user_ids@,
        OutboundCommand::RemoveMembers { user_ids, .. } => user_ids@,
        _ => Seq::empty(),
    }
}

/// The name of the user at a place of a call.
pub open spec fn user_at(q: ApiRequest, i: int) -> Option<proto::UserId> {
    match q {
        ApiRequest::GetMembers(x) => x.member_ids@[i].user_id,
        ApiRequest::GetUserPresence(x) => Some(x.user_ids@[i]),
        ApiRequest::CreateGroup(x) => if x.space is Some
            && x.space->0.invitee_member_infos@[i].invitee_info is Some {
            x.space->0.invitee_member_infos@[i].invitee_info->0.user_id
        } else {
            None
        },
        ApiRequest::CreateDm(x) => Some(x.members@[i]),
        ApiRequest::CreateMembership(x) => x.member_ids@[i].user_id,
        ApiRequest::RemoveMemberships(x) => x.member_ids@[i].user_id,
        _ => None,
    }
}

/// The number of users that a call names.
pub open spec fn user_count(q: ApiRequest) -> nat {
    match q {
        ApiRequest::GetMembers(x) => x.member_ids@.len(),
        ApiRequest::GetUserPresence(x) => x.user_ids@.len(),
        ApiRequest::CreateGroup(x) => if x.space is Some {
            x.space->0.invitee_member_infos@.len()
        } else {
            0
        },
        ApiRequest::CreateDm(x) => x.members@.len(),
        ApiRequest::CreateMembership(x) => x.member_ids@.len(),
        ApiRequest::RemoveMemberships(x) => x.member_ids@.len(),
        _ => 0,
    }
}

/// A call names the users that the command names, all of them, in their order.
pub proof fn law_a_call_names_the_users(
    cmd: OutboundCommand,
    pool: Pool,
    process: u32,
    now: u128,
    q: ApiRequest,
    i: int,
    name: Seq<char>,
)
    requires
        asks(cmd, pool, process, now, Some(q)),
        0 <= i < users_asked(cmd).len(),
        stands_for(pool, users_asked(cmd)[i].id, name),
    ensures
        user_count(q) == users_asked(cmd).len(),
        user_at(q, i) matches Some(u) && u.id is Some && u.id->0@ == name,
{
    match cmd {
        OutboundCommand::GetUsers { user_ids } => {
            let v = q->GetMembers_0.member_ids@;
            assert(are_members(v, user_ids@, pool));
            assert(v[i].user_id is Some);
        },
        OutboundCommand::GetUserPresence { user_ids } => {
            let v = q->GetUserPresence_0.user_ids@;
            assert(are_users(v, user_ids@, pool));
            assert(v[i].id is Some);
        },
        OutboundCommand::CreateRoom { invite_user_ids, .. } => {
            let v = q->CreateGroup_0.space->0.invitee_member_infos@;
            assert(are_invitees(v, invite_user_ids@, pool));
            assert(v[i].invitee_info is Some);
        },
        OutboundCommand::CreateDm { user_ids } => {
            let v = q->CreateDm_0.members@;
            assert(are_users(v, user_ids@, pool));
            assert(v[i].id is Some);
        },
        OutboundCommand::AddMembers { user_ids, .. } => {
            let v = q->CreateMembership_0.member_ids@;
            assert(are_members(v, user_ids@, pool));
            assert(v[i].user_id is Some);
        },
        OutboundCommand::RemoveMembers { user_ids, .. } => {
            let v = q->RemoveMemberships_0.member_ids@;
            assert(are_members(v, user_ids@, pool));
            assert(v[i].user_id is Some);
        },
        _ => {},
    }
}

// ───────────────────────── replies ─────────────────────────

/// The history that was asked for is told as the history of that space.
pub proof fn law_history_is_told_of_its_space(
    cmd: OutboundCommand,
    reply: ApiReply,
    caller: Caller,
    pool: Pool,
)
    requires
        cmd is FetchHistory,
        reply is Topics,
        caller == Caller::Browser || caller == Caller::Direct,
    ensures
        history_of(cmd) == Some(cmd->FetchHistory_space_id),
        told_of(caller, reply, history_of(cmd), pool).1 matches Some(EventV::HistoryChunk {
            space_id,
            has_more,
            ..
        }) && space_id == cmd->FetchHistory_space_id && (has_more
            <==> reply->Topics_0.contains_first_topic == Some(false)),
{
}

/// Replies with users, with missed events and with the world are told in full by those who are
/// there to tell of them.
pub proof fn law_replies_are_told(
    members: proto::GetMembersResponse,
    presence: proto::GetUserPresenceResponse,
    missed: proto::CatchUpResponse,
    world: proto::PaginatedWorldResponse,
    space: SpaceId,
    pool: Pool,
)
    ensures
        told_of(Caller::Browser, ApiReply::Members(members), None, pool).1 == Some(
            EventV::UsersResolved { users: member_users(members.members@, pool).1 },
        ),
        told_of(Caller::Direct, ApiReply::Members(members), None, pool).1 == Some(
            EventV::UsersResolved { users: member_users(members.members@, pool).1 },
        ),
        told_of(Caller::Browser, ApiReply::Presence(presence), None, pool).1 == Some(
            EventV::UsersResolved { users: presence_users(presence.user_presences@, pool).1 },
        ),
        told_of(Caller::Browser, ApiReply::CatchUp(missed), Some(space), pool).1 == Some(
            EventV::HistoryChunk {
                space_id: space,
                messages: events_messages(missed.events@, space, pool, Seq::empty()).1,
                has_more: missed.status == Some(2i32),
            },
        ),
        told_of(Caller::Queue, ApiReply::World(world), None, pool).1 matches Some(EventV::WorldSync {
            spaces,
            ..
        }) && spaces == world_spaces(world_items(world), pool).1,
{
}

/// What a session needs is called for, whoever makes the calls: messages are sent, edited and
/// deleted, histories and members fetched, typing, reading and reactions told.
pub proof fn law_the_common_calls_are_made(caller: Caller, q: ApiRequest)
    requires
        q is SendMessage || q is ListTopics || q is EditMessage || q is DeleteMessage
            || q is SetTyping || q is MarkRead || q is UpdateReaction || q is GetMembers,
    ensures
        made_by(caller, q),
{
}

} // verus!
