//! Commands turned into calls to the chat service.
use vstd::prelude::*;

use crate::event::outbound::OutboundCommand;
use crate::googlechat::api::ApiRequest;
use crate::googlechat::proto;
use crate::googlechat::raw::group_text;
use crate::text::{self, decimal, holds, or_empty, starts, text_opt, without_prefix};
use crate::types::ids::{string_of, IdInterner, InternedId, Pool, UserId};
use crate::types::message::Emoji;

verus! {

broadcast use vstd::string::group_string_axioms;

// ───────────────────────── parts of calls ─────────────────────────

/// The string that a number stands for, empty where it stands for none.
pub open spec fn named(pool: Pool, id: InternedId) -> Seq<char> {
    or_empty(string_of(pool, id))
}

fn name_of(interner: &IdInterner, id: InternedId) -> (r: String)
    ensures
        r@ == named(interner@, id),
{
    match interner.resolve(id) {
        Some(s) => s.to_owned(),
        None => String::new(),
    }
}

/// What the client says that it can handle.
pub open spec fn capabilities() -> proto::ClientFeatureCapabilities {
    proto::ClientFeatureCapabilities {
        spaces_level_for_testing: None,
        dms_level_for_testing: None,
        post_rooms_level: None,
        spam_room_invites_level: Some(2),
        tombstone_level: Some(2),
        rich_text_viewing_level: None,
        threaded_spaces_level: Some(2),
        flat_named_room_topic_ordering_by_creation_time_level: Some(2),
        target_audience_level: Some(2),
        group_scoped_capabilities_level: Some(2),
        activity_feed_level: None,
        roster_as_member_support_level: Some(2),
        tombstone_in_dms_and_ufrs_level: Some(2),
        quoted_message_support_level: Some(2),
        render_announcement_spaces_level: Some(2),
        dark_launch_space_support: Some(2),
        avoid_http_400_error_support_level: Some(2),
        custom_hyperlink_level: Some(2),
        snippets_for_named_rooms: Some(2),
        can_add_continuous_direct_add_groups: Some(2),
        drive_smart_chip_level: Some(2),
        gsuite_integration_in_native_renderer_level: Some(2),
        mentions_shortcut_level: Some(2),
        starred_shortcut_level: Some(2),
        search_snippet_and_keyword_highlight_level: Some(2),
        app_section_level: None,
        create_thread_on_message_send_level: None,
        can_handle_batch_reaction_update: Some(2),
        longer_group_snippets_level: Some(2),
        muting_groups_level: None,
        muting_write_level: None,
        add_existing_members_level: None,
        request_to_join_level: Some(2),
        threads_in_home_level: Some(2),
        enable_all_features: None,
    }
}

/// The header that every call carries: a web client, in English.
pub open spec fn is_header(h: proto::RequestHeader) -> bool {
    &&& h.client_type == Some(3i32)
    &&& h.client_version == Some(1i64)
    &&& h.trace_id == Some(0i64)
    &&& text_opt(h.locale) == Some("en"@)
    &&& h.client_feature_capabilities == Some(capabilities())
}

pub open spec fn has_header(h: Option<proto::RequestHeader>) -> bool {
    h matches Some(x) && is_header(x)
}

/// The header that every call carries.
pub fn tests_make_header() -> (r: proto::RequestHeader)
    ensures
        is_header(r),
{
    proto::RequestHeader {
        client_type: Some(3),
        client_version: Some(1),
        trace_id: Some(0),
        locale: Some("en".to_owned()),
        client_feature_capabilities: Some(
            proto::ClientFeatureCapabilities {
                spaces_level_for_testing: None,
                dms_level_for_testing: None,
                post_rooms_level: None,
                spam_room_invites_level: Some(2),
                tombstone_level: Some(2),
                rich_text_viewing_level: None,
                threaded_spaces_level: Some(2),
                flat_named_room_topic_ordering_by_creation_time_level: Some(2),
                target_audience_level: Some(2),
                group_scoped_capabilities_level: Some(2),
                activity_feed_level: None,
                roster_as_member_support_level: Some(2),
                tombstone_in_dms_and_ufrs_level: Some(2),
                quoted_message_support_level: Some(2),
                render_announcement_spaces_level: Some(2),
                dark_launch_space_support: Some(2),
                avoid_http_400_error_support_level: Some(2),
                custom_hyperlink_level: Some(2),
                snippets_for_named_rooms: Some(2),
                can_add_continuous_direct_add_groups: Some(2),
                drive_smart_chip_level: Some(2),
                gsuite_integration_in_native_renderer_level: Some(2),
                mentions_shortcut_level: Some(2),
                starred_shortcut_level: Some(2),
                search_snippet_and_keyword_highlight_level: Some(2),
                app_section_level: None,
                create_thread_on_message_send_level: None,
                can_handle_batch_reaction_update: Some(2),
                longer_group_snippets_level: Some(2),
                muting_groups_level: None,
                muting_write_level: None,
                add_existing_members_level: None,
                request_to_join_level: Some(2),
                threads_in_home_level: Some(2),
                enable_all_features: None,
            },
        ),
    }
}

fn header() -> (r: Option<proto::RequestHeader>)
    ensures
        has_header(r),
{
    Some(tests_make_header())
}

/// The name of a direct message: it has a prefix, or an address in it.
pub open spec fn names_dm(s: Seq<char>) -> bool {
    starts(s, "dm/"@) || holds(s, "@"@)
}

/// A name without the prefix, where it has it.
pub open spec fn bare(s: Seq<char>, prefix: Seq<char>) -> Seq<char> {
    match without_prefix(s, prefix) {
        Some(r) => r,
        None => s,
    }
}

/// The name of a room without its prefix.
pub open spec fn bare_room(s: Seq<char>) -> Seq<char> {
    match without_prefix(s, "space/"@) {
        Some(r) => r,
        None => bare(s, "spaces/"@),
    }
}

/// `g` is the direct message or the room that `s` names.
pub open spec fn is_group(g: proto::GroupId, s: Seq<char>) -> bool {
    if names_dm(s) {
        g.space_id is None && (g.dm_id matches Some(d) && text_opt(d.dm_id) == Some(
            bare(s, "dm/"@),
        ))
    } else {
        g.dm_id is None && (g.space_id matches Some(p) && text_opt(p.space_id) == Some(
            bare_room(s),
        ))
    }
}

pub open spec fn has_group(g: Option<proto::GroupId>, s: Seq<char>) -> bool {
    g matches Some(x) && is_group(x, s)
}

/// The direct message or the room that a name stands for.
pub fn make_group_id(s: &str) -> (r: proto::GroupId)
    ensures
        is_group(r, s@),
{
    if text::starts_with(s, "dm/") || text::contains(s, "@") {
        let id = match text::strip_prefix(s, "dm/") {
            Some(r) => r,
            None => s.to_owned(),
        };
        proto::GroupId { space_id: None, dm_id: Some(proto::DmId { dm_id: Some(id) }) }
    } else {
        let id = match text::strip_prefix(s, "space/") {
            Some(r) => r,
            None => match text::strip_prefix(s, "spaces/") {
                Some(r) => r,
                None => s.to_owned(),
            },
        };
        proto::GroupId { space_id: Some(proto::SpaceId { space_id: Some(id) }), dm_id: None }
    }
}

/// The service's name for a group made from a name is that name without its prefix,
/// so that a name without one comes back as it was.
pub proof fn law_group_keeps_its_name(g: proto::GroupId, s: Seq<char>)
    requires
        is_group(g, s),
    ensures
        group_text(g) == Some(
            if names_dm(s) {
                bare(s, "dm/"@)
            } else {
                bare_room(s)
            },
        ),
        !starts(s, "dm/"@) && !starts(s, "space/"@) && !starts(s, "spaces/"@) ==> group_text(g)
            == Some(s),
{
}

fn group(interner: &IdInterner, id: InternedId) -> (r: Option<proto::GroupId>)
    ensures
        has_group(r, named(interner@, id)),
{
    let s = name_of(interner, id);
    Some(make_group_id(s.as_str()))
}

/// The emoji in the service's form.
pub open spec fn is_emoji(p: proto::Emoji, e: Emoji) -> bool {
    match e {
        Emoji::Unicode(s) => text_opt(p.unicode) == Some(s@) && p.custom_emoji is None,
        Emoji::Custom { id, shortcode } => p.unicode is None && (p.custom_emoji matches Some(c)
            && text_opt(c.uuid) == Some(id@) && text_opt(c.shortcode) == Some(shortcode@)),
    }
}

fn emoji_to_proto(e: &Emoji) -> (r: proto::Emoji)
    ensures
        is_emoji(r, *e),
{
    match e {
        Emoji::Unicode(s) => proto::Emoji { unicode: Some(s.clone()), custom_emoji: None },
        Emoji::Custom { id, shortcode } => proto::Emoji {
            unicode: None,
            custom_emoji: Some(
                proto::CustomEmoji { uuid: Some(id.clone()), shortcode: Some(shortcode.clone()) },
            ),
        },
    }
}

/// The name of a message alone.
pub open spec fn is_message_alone(m: Option<proto::MessageId>, name: Seq<char>) -> bool {
    m matches Some(x) && text_opt(x.message_id) == Some(name) && (x.parent_id matches Some(p)
        && p.topic_id is None)
}

/// The name of a message with the space that it is in, as the first of its topic.
pub open spec fn is_message_in(m: Option<proto::MessageId>, space: Seq<char>, name: Seq<char>) -> bool {
    m matches Some(x) && text_opt(x.message_id) == Some(name) && (x.parent_id matches Some(p)
        && p.topic_id matches Some(t) && has_group(t.group_id, space) && text_opt(t.topic_id) == Some(
        name,
    ))
}

fn message_alone(interner: &IdInterner, id: InternedId) -> (r: Option<proto::MessageId>)
    ensures
        is_message_alone(r, named(interner@, id)),
{
    Some(
        proto::MessageId {
            parent_id: Some(proto::MessageParentId { topic_id: None }),
            message_id: Some(name_of(interner, id)),
        },
    )
}

fn message_in(interner: &IdInterner, space: InternedId, id: InternedId) -> (r: Option<
    proto::MessageId,
>)
    ensures
        is_message_in(r, named(interner@, space), named(interner@, id)),
{
    Some(
        proto::MessageId {
            parent_id: Some(
                proto::MessageParentId {
                    topic_id: Some(
                        proto::TopicId {
                            group_id: group(interner, space),
                            topic_id: Some(name_of(interner, id)),
                        },
                    ),
                },
            ),
            message_id: Some(name_of(interner, id)),
        },
    )
}

/// `v` names the users, in order.
pub open spec fn are_users(v: Seq<proto::UserId>, ids: Seq<UserId>, pool: Pool) -> bool {
    v.len() == ids.len() && forall|i: int|
        0 <= i < ids.len() ==> text_opt((#[trigger] v[i]).id) == Some(named(pool, ids[i].id))
}

pub open spec fn are_members(v: Seq<proto::MemberId>, ids: Seq<UserId>, pool: Pool) -> bool {
    v.len() == ids.len() && forall|i: int|
        0 <= i < ids.len() ==> ((#[trigger] v[i]).user_id matches Some(u) && text_opt(u.id) == Some(
            named(pool, ids[i].id),
        ))
}

pub open spec fn are_invitees(v: Seq<proto::InviteeMemberInfo>, ids: Seq<UserId>, pool: Pool) -> bool {
    v.len() == ids.len() && forall|i: int|
        0 <= i < ids.len() ==> ((#[trigger] v[i]).invitee_info matches Some(f) && f.user_id matches Some(
            u,
        ) && text_opt(u.id) == Some(named(pool, ids[i].id)))
}

fn user_list(ids: &Vec<UserId>, interner: &IdInterner) -> (r: Vec<proto::UserId>)
    ensures
        are_users(r@, ids@, interner@),
{
    let mut out: Vec<proto::UserId> = Vec::new();
    let mut i: usize = 0;
    while i < ids.len()
        invariant
            i <= ids@.len(),
            are_users(out@, ids@.take(i as int), interner@),
        decreases ids@.len() - i,
    {
        out.push(proto::UserId { id: Some(name_of(interner, ids[i].id)) });
        i += 1;
    }
    proof {
        assert(ids@.take(ids@.len() as int) =~= ids@);
    }
    out
}

fn member_list(ids: &Vec<UserId>, interner: &IdInterner) -> (r: Vec<proto::MemberId>)
    ensures
        are_members(r@, ids@, interner@),
{
    let mut out: Vec<proto::MemberId> = Vec::new();
    let mut i: usize = 0;
    while i < ids.len()
        invariant
            i <= ids@.len(),
            are_members(out@, ids@.take(i as int), interner@),
        decreases ids@.len() - i,
    {
        out.push(
            proto::MemberId {
                user_id: Some(proto::UserId { id: Some(name_of(interner, ids[i].id)) }),
            },
        );
        i += 1;
    }
    proof {
        assert(ids@.take(ids@.len() as int) =~= ids@);
    }
    out
}

fn invitee_list(ids: &Vec<UserId>, interner: &IdInterner) -> (r: Vec<proto::InviteeMemberInfo>)
    ensures
        are_invitees(r@, ids@, interner@),
{
    let mut out: Vec<proto::InviteeMemberInfo> = Vec::new();
    let mut i: usize = 0;
    while i < ids.len()
        invariant
            i <= ids@.len(),
            are_invitees(out@, ids@.take(i as int), interner@),
        decreases ids@.len() - i,
    {
        out.push(
            proto::InviteeMemberInfo {
                invitee_info: Some(
                    proto::InviteeInfo {
                        user_id: Some(proto::UserId { id: Some(name_of(interner, ids[i].id)) }),
                    },
                ),
            },
        );
        i += 1;
    }
    proof {
        assert(ids@.take(ids@.len() as int) =~= ids@);
    }
    out
}

// ───────────────────────── the calls ─────────────────────────

/// A message to a space, in a topic where one is named, else at the top.
pub open spec fn is_send(
    q: proto::CreateMessageRequest,
    space: Seq<char>,
    topic: Option<Seq<char>>,
    body: Seq<char>,
    local_id: Seq<char>,
) -> bool {
    &&& has_header(q.request_header)
    &&& q.parent_id matches Some(p) && p.topic_id matches Some(t) && has_group(t.group_id, space)
        && text_opt(t.topic_id) == topic
    &&& text_opt(q.text_body) == Some(body)
    &&& text_opt(q.local_id) == Some(local_id)
    &&& q.message_info matches Some(m) && m.accept_format_annotations == Some(true)
}

/// The reaction of a user put on a message or taken away.
pub open spec fn is_reaction(
    q: proto::UpdateReactionRequest,
    space: Seq<char>,
    name: Seq<char>,
    e: Emoji,
    option: i32,
) -> bool {
    &&& has_header(q.request_header)
    &&& is_message_in(q.message_id, space, name)
    &&& q.emoji matches Some(x) && is_emoji(x, e)
    &&& q.option == Some(option)
}

/// The call that a command asks for, none for the end of the connection. The
/// service tells repeated messages by an identifier made of the number of the
/// process and the time in microseconds.
pub open spec fn asks(
    cmd: OutboundCommand,
    pool: Pool,
    process: u32,
    now: u128,
    r: Option<ApiRequest>,
) -> bool {
    match cmd {
        OutboundCommand::SendMessage { space_id, text, thread_id } => {
            &&& r matches Some(ApiRequest::SendMessage(q))
            &&& is_send(
                q,
                named(pool, space_id.id),
                match thread_id {
                    Some(t) => Some(named(pool, t.0)),
                    None => None,
                },
                text@,
                "tchat-"@ + decimal(process as nat) + "-"@ + decimal(now as nat),
            )
        },
        OutboundCommand::EditMessage { message_id, new_text, .. } => {
            &&& r matches Some(ApiRequest::EditMessage(q))
            &&& has_header(q.request_header)
            &&& is_message_alone(q.message_id, named(pool, message_id.0))
            &&& text_opt(q.text_body) == Some(new_text@)
        },
        OutboundCommand::DeleteMessage { message_id, .. } => {
            &&& r matches Some(ApiRequest::DeleteMessage(q))
            &&& has_header(q.request_header)
            &&& is_message_alone(q.message_id, named(pool, message_id.0))
        },
        OutboundCommand::SetTyping { space_id, typing } => {
            &&& r matches Some(ApiRequest::SetTyping(q))
            &&& has_header(q.request_header)
            &&& q.state == Some(
                if typing {
                    3i32
                } else {
                    1
                },
            )
            &&& q.context matches Some(c) && has_group(c.group_id, named(pool, space_id.id))
        },
        OutboundCommand::MarkRead { space_id, .. } => {
            &&& r matches Some(ApiRequest::MarkRead(q))
            &&& has_header(q.request_header)
            &&& has_group(q.id, named(pool, space_id.id))
            &&& q.last_read_time is None
        },
        OutboundCommand::AddReaction { space_id, message_id, emoji } => {
            &&& r matches Some(ApiRequest::UpdateReaction(q))
            &&& is_reaction(q, named(pool, space_id.id), named(pool, message_id.0), emoji, 1)
        },
        OutboundCommand::RemoveReaction { space_id, message_id, emoji } => {
            &&& r matches Some(ApiRequest::UpdateReaction(q))
            &&& is_reaction(q, named(pool, space_id.id), named(pool, message_id.0), emoji, 2)
        },
        OutboundCommand::FetchHistory { space_id, count, .. } => {
            &&& r matches Some(ApiRequest::ListTopics(q))
            &&& has_header(q.request_header)
            &&& has_group(q.group_id, named(pool, space_id.id))
            &&& q.page_size_for_topics == Some(count as i32)
            &&& q.page_size_for_replies == Some(5i32)
            &&& q.page_size_for_unread_replies == Some(100i32)
            &&& q.page_size_for_read_replies == Some(5i32)
            &&& q.fetch_options@ == seq![3i32, 1, 4]
        },
        OutboundCommand::CreateTopic { space_id, text } => {
            &&& r matches Some(ApiRequest::CreateTopic(q))
            &&& has_header(q.request_header)
            &&& has_group(q.group_id, named(pool, space_id.id))
            &&& text_opt(q.text_body) == Some(text@)
            &&& text_opt(q.local_id) == Some("tchat-topic-"@ + decimal(process as nat))
        },
        OutboundCommand::GetUsers { user_ids } => {
            &&& r matches Some(ApiRequest::GetMembers(q))
            &&& has_header(q.request_header)
            &&& are_members(q.member_ids@, user_ids@, pool)
        },
        OutboundCommand::GetUserPresence { user_ids } => {
            &&& r matches Some(ApiRequest::GetUserPresence(q))
            &&& has_header(q.request_header)
            &&& are_users(q.user_ids@, user_ids@, pool)
            &&& q.include_active_until == Some(true)
            &&& q.include_user_status == Some(true)
        },
        OutboundCommand::RefreshSelf => {
            &&& r matches Some(ApiRequest::GetSelfUserStatus(q))
            &&& has_header(q.request_header)
        },
        OutboundCommand::CreateRoom { name, invite_user_ids } => {
            &&& r matches Some(ApiRequest::CreateGroup(q))
            &&& has_header(q.request_header)
            &&& q.space matches Some(s) && text_opt(s.name) == Some(name@) && s.flat_group
                && s.has_server_generated_name == Some(false) && are_invitees(
                s.invitee_member_infos@,
                invite_user_ids@,
                pool,
            ) && s.attribute_checker_group_type == Some(4i32)
            &&& text_opt(q.local_id) == Some("tchat-room-"@ + decimal(process as nat))
            &&& q.should_find_existing_space == Some(false)
        },
        OutboundCommand::CreateDm { user_ids } => {
            &&& r matches Some(ApiRequest::CreateDm(q))
            &&& has_header(q.request_header)
            &&& are_users(q.members@, user_ids@, pool)
            &&& text_opt(q.local_id) == Some("tchat-dm-"@ + decimal(process as nat))
        },
        OutboundCommand::AddMembers { space_id, user_ids } => {
            &&& r matches Some(ApiRequest::CreateMembership(q))
            &&& has_header(q.request_header)
            &&& are_members(q.member_ids@, user_ids@, pool)
            &&& q.membership_state == Some(2i32)
            &&& has_group(q.group_id, named(pool, space_id.id))
        },
        OutboundCommand::RemoveMembers { space_id, user_ids } => {
            &&& r matches Some(ApiRequest::RemoveMemberships(q))
            &&& has_header(q.request_header)
            &&& are_members(q.member_ids@, user_ids@, pool)
            &&& has_group(q.group_id, named(pool, space_id.id))
            &&& q.membership_state == Some(3i32)
        },
        OutboundCommand::RenameSpace { space_id, new_name } => {
            &&& r matches Some(ApiRequest::UpdateGroup(q))
            &&& has_header(q.request_header)
            &&& q.space_id matches Some(s) && text_opt(s.space_id) == Some(named(pool, space_id.id))
            &&& q.update_masks@ == seq![1i32]
            &&& text_opt(q.name) == Some(new_name@)
        },
        OutboundCommand::HideSpace { space_id, hide } => {
            &&& r matches Some(ApiRequest::HideGroup(q))
            &&& has_header(q.request_header)
            &&& has_group(q.id, named(pool, space_id.id))
            &&& q.hide == Some(hide)
        },
        OutboundCommand::ListSpaceMembers { space_id } => {
            &&& r matches Some(ApiRequest::ListMembers(q))
            &&& has_header(q.request_header)
            &&& has_group(q.group_id, named(pool, space_id.id))
            &&& q.page_size == Some(100i32)
        },
        OutboundCommand::SetDndDuration { duration_usec } => {
            &&& r matches Some(ApiRequest::SetDndDuration(q))
            &&& has_header(q.request_header)
            &&& q.new_dnd_duration_usec == Some(duration_usec as i64)
        },
        OutboundCommand::SetCustomStatus { text, emoji, expiry_usec } => {
            &&& r matches Some(ApiRequest::SetCustomStatus(q))
            &&& has_header(q.request_header)
            &&& q.custom_status matches Some(s) && text_opt(s.status_text) == Some(text@)
                && s.state_expiry_timestamp_usec == expiry_usec && match emoji {
                Some(e) => (s.emoji matches Some(x) && is_emoji(x, e)) && text_opt(s.status_emoji)
                    == match e {
                    Emoji::Unicode(u) => Some(u@),
                    _ => None,
                },
                None => s.emoji is None && s.status_emoji is None,
            }
            &&& q.custom_status_expiry_timestamp_usec == expiry_usec
        },
        OutboundCommand::BlockEntity { user_id, space_id, blocked, reported } => {
            &&& r matches Some(ApiRequest::BlockEntity(q))
            &&& has_header(q.request_header)
            &&& match user_id {
                Some(u) => q.user_id matches Some(x) && text_opt(x.id) == Some(named(pool, u.id)),
                None => q.user_id is None,
            }
            &&& match space_id {
                Some(s) => has_group(q.group_id, named(pool, s.id)),
                None => q.group_id is None,
            }
            &&& q.blocked == Some(blocked)
            &&& q.reported == Some(reported)
        },
        OutboundCommand::SetPresenceShared { shared } => {
            &&& r matches Some(ApiRequest::SetPresenceShared(q))
            &&& has_header(q.request_header)
            &&& q.presence_shared == Some(shared)
        },
        OutboundCommand::CreateCustomEmoji { shortcode } => {
            &&& r matches Some(ApiRequest::CreateCustomEmoji(q))
            &&& has_header(q.request_header)
            &&& text_opt(q.shortcode) == Some(shortcode@)
        },
        OutboundCommand::AutocompleteSlashCommands { query, space_id, max_results } => {
            &&& r matches Some(ApiRequest::AutocompleteSlashCommands(q))
            &&& has_header(q.request_header)
            &&& text_opt(q.query) == Some(query@)
            &&& has_group(q.group_id, named(pool, space_id.id))
            &&& q.max_num_results == Some(max_results as i32)
            &&& q.restrict_to_bots_in_group == Some(false)
            &&& q.include_dialogs == Some(false)
        },
        OutboundCommand::CreateVideoCall { space_id } => {
            &&& r matches Some(ApiRequest::CreateVideoCall(q))
            &&& has_header(q.request_header)
            &&& has_group(q.group_id, named(pool, space_id.id))
        },
        OutboundCommand::Disconnect => r is None,
    }
}

fn numbered_id(prefix: &str, process: u32) -> (r: Option<String>)
    ensures
        text_opt(r) == Some(prefix@ + decimal(process as nat)),
{
    Some(text::join2(prefix, text::show(process as u64).as_str()))
}

/// A message to a space, in a topic where one is named, else at the top.
pub fn send_request(space: &str, topic: Option<String>, body: String, local_id: String) -> (r:
    proto::CreateMessageRequest)
    ensures
        is_send(r, space@, text_opt(topic), body@, local_id@),
{
    proto::CreateMessageRequest {
        request_header: header(),
        parent_id: Some(
            proto::MessageParentId {
                topic_id: Some(
                    proto::TopicId { group_id: Some(make_group_id(space)), topic_id: topic },
                ),
            },
        ),
        text_body: Some(body),
        local_id: Some(local_id),
        message_info: Some(proto::MessageInfo { accept_format_annotations: Some(true) }),
    }
}

/// The call that a command asks for, none for the end of the connection.
pub fn command_to_api_request(
    cmd: OutboundCommand,
    interner: &IdInterner,
    process: u32,
    now: u128,
) -> (r: Option<ApiRequest>)
    ensures
        asks(cmd, interner@, process, now, r),
{
    match cmd {
        OutboundCommand::SendMessage { space_id, text, thread_id } => {
            let space = name_of(interner, space_id.id);
            let topic = match thread_id {
                Some(t) => Some(name_of(interner, t.0)),
                None => None,
            };
            let head = text::join3("tchat-", text::show(process as u64).as_str(), "-");
            let local_id = text::join2(head.as_str(), text::show_wide(now).as_str());
            Some(ApiRequest::SendMessage(send_request(space.as_str(), topic, text, local_id)))
        },
        OutboundCommand::EditMessage { message_id, new_text, .. } => Some(
            ApiRequest::EditMessage(
                proto::EditMessageRequest {
                    request_header: header(),
                    message_id: message_alone(interner, message_id.0),
                    text_body: Some(new_text),
                },
            ),
        ),
        OutboundCommand::DeleteMessage { message_id, .. } => Some(
            ApiRequest::DeleteMessage(
                proto::DeleteMessageRequest {
                    request_header: header(),
                    message_id: message_alone(interner, message_id.0),
                },
            ),
        ),
        OutboundCommand::SetTyping { space_id, typing } => Some(
            ApiRequest::SetTyping(
                proto::SetTypingStateRequest {
                    request_header: header(),
                    state: Some(
                        if typing {
                            3
                        } else {
                            1
                        },
                    ),
                    context: Some(proto::TypingContext { group_id: group(interner, space_id.id) }),
                },
            ),
        ),
        OutboundCommand::MarkRead { space_id, .. } => Some(
            ApiRequest::MarkRead(
                proto::MarkGroupReadstateRequest {
                    request_header: header(),
                    id: group(interner, space_id.id),
                    last_read_time: None,
                },
            ),
        ),
        OutboundCommand::AddReaction { space_id, message_id, emoji } => Some(
            ApiRequest::UpdateReaction(
                proto::UpdateReactionRequest {
                    request_header: header(),
                    message_id: message_in(interner, space_id.id, message_id.0),
                    emoji: Some(emoji_to_proto(&emoji)),
                    option: Some(1),
                },
            ),
        ),
        OutboundCommand::RemoveReaction { space_id, message_id, emoji } => Some(
            ApiRequest::UpdateReaction(
                proto::UpdateReactionRequest {
                    request_header: header(),
                    message_id: message_in(interner, space_id.id, message_id.0),
                    emoji: Some(emoji_to_proto(&emoji)),
                    option: Some(2),
                },
            ),
        ),
        OutboundCommand::FetchHistory { space_id, count, .. } => {
            let fetch_options: Vec<i32> = vec![3, 1, 4];
            proof {
                assert(fetch_options@ =~= seq![3i32, 1, 4]);
            }
            Some(
                ApiRequest::ListTopics(
                    proto::ListTopicsRequest {
                        request_header: header(),
                        group_id: group(interner, space_id.id),
                        page_size_for_topics: Some(count as i32),
                        page_size_for_replies: Some(5),
                        page_size_for_unread_replies: Some(100),
                        page_size_for_read_replies: Some(5),
                        fetch_options,
                    },
                ),
            )
        },
        OutboundCommand::CreateTopic { space_id, text } => Some(
            ApiRequest::CreateTopic(
                proto::CreateTopicRequest {
                    request_header: header(),
                    group_id: group(interner, space_id.id),
                    text_body: Some(text),
                    local_id: numbered_id("tchat-topic-", process),
                },
            ),
        ),
        OutboundCommand::GetUsers { user_ids } => Some(
            ApiRequest::GetMembers(
                proto::GetMembersRequest {
                    request_header: header(),
                    member_ids: member_list(&user_ids, interner),
                },
            ),
        ),
        OutboundCommand::GetUserPresence { user_ids } => Some(
            ApiRequest::GetUserPresence(
                proto::GetUserPresenceRequest {
                    request_header: header(),
                    user_ids: user_list(&user_ids, interner),
                    include_active_until: Some(true),
                    include_user_status: Some(true),
                },
            ),
        ),
        OutboundCommand::RefreshSelf => Some(
            ApiRequest::GetSelfUserStatus(
                proto::GetSelfUserStatusRequest { request_header: header() },
            ),
        ),
        OutboundCommand::CreateRoom { name, invite_user_ids } => Some(
            ApiRequest::CreateGroup(
                proto::CreateGroupRequest {
                    request_header: header(),
                    space: Some(
                        proto::SpaceCreationInfo {
                            name: Some(name),
                            flat_group: true,
                            has_server_generated_name: Some(false),
                            invitee_member_infos: invitee_list(&invite_user_ids, interner),
                            attribute_checker_group_type: Some(4),
                        },
                    ),
                    local_id: numbered_id("tchat-room-", process),
                    should_find_existing_space: Some(false),
                },
            ),
        ),
        OutboundCommand::CreateDm { user_ids } => Some(
            ApiRequest::CreateDm(
                proto::CreateDmRequest {
                    request_header: header(),
                    members: user_list(&user_ids, interner),
                    local_id: numbered_id("tchat-dm-", process),
                },
            ),
        ),
        OutboundCommand::AddMembers { space_id, user_ids } => Some(
            ApiRequest::CreateMembership(
                proto::CreateMembershipRequest {
                    request_header: header(),
                    member_ids: member_list(&user_ids, interner),
                    membership_state: Some(2),
                    group_id: group(interner, space_id.id),
                },
            ),
        ),
        OutboundCommand::RemoveMembers { space_id, user_ids } => Some(
            ApiRequest::RemoveMemberships(
                proto::RemoveMembershipsRequest {
                    request_header: header(),
                    member_ids: member_list(&user_ids, interner),
                    group_id: group(interner, space_id.id),
                    membership_state: Some(3),
                },
            ),
        ),
        OutboundCommand::RenameSpace { space_id, new_name } => {
            let update_masks: Vec<i32> = vec![1];
            proof {
                assert(update_masks@ =~= seq![1i32]);
            }
            Some(
                ApiRequest::UpdateGroup(
                    proto::UpdateGroupRequest {
                        request_header: header(),
                        space_id: Some(
                            proto::SpaceId { space_id: Some(name_of(interner, space_id.id)) },
                        ),
                        update_masks,
                        name: Some(new_name),
                    },
                ),
            )
        },
        OutboundCommand::HideSpace { space_id, hide } => Some(
            ApiRequest::HideGroup(
                proto::HideGroupRequest {
                    request_header: header(),
                    id: group(interner, space_id.id),
                    hide: Some(hide),
                },
            ),
        ),
        OutboundCommand::ListSpaceMembers { space_id } => Some(
            ApiRequest::ListMembers(
                proto::ListMembersRequest {
                    request_header: header(),
                    group_id: group(interner, space_id.id),
                    page_size: Some(100),
                },
            ),
        ),
        OutboundCommand::SetDndDuration { duration_usec } => Some(
            ApiRequest::SetDndDuration(
                proto::SetDndDurationRequest {
                    request_header: header(),
                    new_dnd_duration_usec: Some(duration_usec as i64),
                },
            ),
        ),
        OutboundCommand::SetCustomStatus { text, emoji, expiry_usec } => {
            let shown = match &emoji {
                Some(Emoji::Unicode(s)) => Some(s.clone()),
                _ => None,
            };
            let sent = match &emoji {
                Some(e) => Some(emoji_to_proto(e)),
                None => None,
            };
            Some(
                ApiRequest::SetCustomStatus(
                    proto::SetCustomStatusRequest {
                        request_header: header(),
                        custom_status: Some(
                            proto::CustomStatus {
                                status_text: Some(text),
                                status_emoji: shown,
                                state_expiry_timestamp_usec: expiry_usec,
                                emoji: sent,
                            },
                        ),
                        custom_status_expiry_timestamp_usec: expiry_usec,
                    },
                ),
            )
        },
        OutboundCommand::BlockEntity { user_id, space_id, blocked, reported } => Some(
            ApiRequest::BlockEntity(
                proto::BlockEntityRequest {
                    request_header: header(),
                    user_id: match user_id {
                        Some(u) => Some(proto::UserId { id: Some(name_of(interner, u.id)) }),
                        None => None,
                    },
                    group_id: match space_id {
                        Some(s) => group(interner, s.id),
                        None => None,
                    },
                    blocked: Some(blocked),
                    reported: Some(reported),
                },
            ),
        ),
        OutboundCommand::SetPresenceShared { shared } => Some(
            ApiRequest::SetPresenceShared(
                proto::SetPresenceSharedRequest {
                    request_header: header(),
                    presence_shared: Some(shared),
                },
            ),
        ),
        OutboundCommand::CreateCustomEmoji { shortcode } => Some(
            ApiRequest::CreateCustomEmoji(
                proto::CreateCustomEmojiRequest {
                    request_header: header(),
                    shortcode: Some(shortcode),
                },
            ),
        ),
        OutboundCommand::AutocompleteSlashCommands { query, space_id, max_results } => Some(
            ApiRequest::AutocompleteSlashCommands(
                proto::AutocompleteSlashCommandsRequest {
                    request_header: header(),
                    query: Some(query),
                    group_id: group(interner, space_id.id),
                    max_num_results: Some(max_results as i32),
                    restrict_to_bots_in_group: Some(false),
                    include_dialogs: Some(false),
                },
            ),
        ),
        OutboundCommand::CreateVideoCall { space_id } => Some(
            ApiRequest::CreateVideoCall(
                proto::CreateVideoCallRequest {
                    group_id: group(interner, space_id.id),
                    request_header: header(),
                },
            ),
        ),
        OutboundCommand::Disconnect => None,
    }
}

// ───────────────────────── laws ─────────────────────────

/// Every command but the end of the connection asks for a call.
pub proof fn law_commands_are_sent(
    cmd: OutboundCommand,
    pool: Pool,
    process: u32,
    now: u128,
    r: Option<ApiRequest>,
)
    requires
        asks(cmd, pool, process, now, r),
    ensures
        r is None <==> cmd is Disconnect,
{
}

} // verus!
