//! The calls that the chat service answers.
use vstd::prelude::*;

use crate::googlechat::proto;

verus! {

/// A call to the chat service.
#[derive(Debug)]
pub enum ApiRequest {
    PaginatedWorld(proto::PaginatedWorldRequest),
    SendMessage(proto::CreateMessageRequest),
    EditMessage(proto::EditMessageRequest),
    DeleteMessage(proto::DeleteMessageRequest),
    ListMessages(proto::ListMessagesRequest),
    ListTopics(proto::ListTopicsRequest),
    CatchUpGroup(proto::CatchUpGroupRequest),
    SetTyping(proto::SetTypingStateRequest),
    MarkRead(proto::MarkGroupReadstateRequest),
    UpdateReaction(proto::UpdateReactionRequest),
    GetGroup(proto::GetGroupRequest),
    GetMembers(proto::GetMembersRequest),
    GetUserPresence(proto::GetUserPresenceRequest),
    GetSelfUserStatus(proto::GetSelfUserStatusRequest),
    CreateGroup(proto::CreateGroupRequest),
    CreateDm(proto::CreateDmRequest),
    CreateMembership(proto::CreateMembershipRequest),
    RemoveMemberships(proto::RemoveMembershipsRequest),
    UpdateGroup(proto::UpdateGroupRequest),
    HideGroup(proto::HideGroupRequest),
    ListMembers(proto::ListMembersRequest),
    CreateTopic(proto::CreateTopicRequest),
    SetDndDuration(proto::SetDndDurationRequest),
    SetCustomStatus(proto::SetCustomStatusRequest),
    BlockEntity(proto::BlockEntityRequest),
    SetPresenceShared(proto::SetPresenceSharedRequest),
    CreateCustomEmoji(proto::CreateCustomEmojiRequest),
    AutocompleteSlashCommands(proto::AutocompleteSlashCommandsRequest),
    CreateVideoCall(proto::CreateVideoCallRequest),
}

/// The name of the call in the service's address.
pub open spec fn endpoint_text(r: ApiRequest) -> Seq<char> {
    match r {
        ApiRequest::PaginatedWorld(_) => "paginated_world"@,
        ApiRequest::SendMessage(_) => "create_message"@,
        ApiRequest::EditMessage(_) => "edit_message"@,
        ApiRequest::DeleteMessage(_) => "delete_message"@,
        ApiRequest::ListMessages(_) => "list_messages"@,
        ApiRequest::ListTopics(_) => "list_topics"@,
        ApiRequest::CatchUpGroup(_) => "catch_up_group"@,
        ApiRequest::SetTyping(_) => "set_typing_state"@,
        ApiRequest::MarkRead(_) => "mark_group_readstate"@,
        ApiRequest::UpdateReaction(_) => "update_reaction"@,
        ApiRequest::GetGroup(_) => "get_group"@,
        ApiRequest::GetMembers(_) => "get_members"@,
        ApiRequest::GetUserPresence(_) => "get_user_presence"@,
        ApiRequest::GetSelfUserStatus(_) => "get_self_user_status"@,
        ApiRequest::CreateGroup(_) => "create_group"@,
        ApiRequest::CreateDm(_) => "create_dm"@,
        ApiRequest::CreateMembership(_) => "create_membership"@,
        ApiRequest::RemoveMemberships(_) => "remove_memberships"@,
        ApiRequest::UpdateGroup(_) => "update_group"@,
        ApiRequest::HideGroup(_) => "hide_group"@,
        ApiRequest::ListMembers(_) => "list_members"@,
        ApiRequest::CreateTopic(_) => "create_topic"@,
        ApiRequest::SetDndDuration(_) => "set_dnd_duration"@,
        ApiRequest::SetCustomStatus(_) => "set_custom_status"@,
        ApiRequest::BlockEntity(_) => "block_entity"@,
        ApiRequest::SetPresenceShared(_) => "set_presence_shared"@,
        ApiRequest::CreateCustomEmoji(_) => "create_custom_emoji"@,
        ApiRequest::AutocompleteSlashCommands(_) => "autocomplete_slash_commands"@,
        ApiRequest::CreateVideoCall(_) => "create_video_call"@,
    }
}

impl ApiRequest {
    /// The name of the call in the service's address.
    pub fn endpoint(&self) -> (r: &'static str)
        ensures
            r@ == endpoint_text(*self),
    {
        match self {
            ApiRequest::PaginatedWorld(_) => "paginated_world",
            ApiRequest::SendMessage(_) => "create_message",
            ApiRequest::EditMessage(_) => "edit_message",
            ApiRequest::DeleteMessage(_) => "delete_message",
            ApiRequest::ListMessages(_) => "list_messages",
            ApiRequest::ListTopics(_) => "list_topics",
            ApiRequest::CatchUpGroup(_) => "catch_up_group",
            ApiRequest::SetTyping(_) => "set_typing_state",
            ApiRequest::MarkRead(_) => "mark_group_readstate",
            ApiRequest::UpdateReaction(_) => "update_reaction",
            ApiRequest::GetGroup(_) => "get_group",
            ApiRequest::GetMembers(_) => "get_members",
            ApiRequest::GetUserPresence(_) => "get_user_presence",
            ApiRequest::GetSelfUserStatus(_) => "get_self_user_status",
            ApiRequest::CreateGroup(_) => "create_group",
            ApiRequest::CreateDm(_) => "create_dm",
            ApiRequest::CreateMembership(_) => "create_membership",
            ApiRequest::RemoveMemberships(_) => "remove_memberships",
            ApiRequest::UpdateGroup(_) => "update_group",
            ApiRequest::HideGroup(_) => "hide_group",
            ApiRequest::ListMembers(_) => "list_members",
            ApiRequest::CreateTopic(_) => "create_topic",
            ApiRequest::SetDndDuration(_) => "set_dnd_duration",
            ApiRequest::SetCustomStatus(_) => "set_custom_status",
            ApiRequest::BlockEntity(_) => "block_entity",
            ApiRequest::SetPresenceShared(_) => "set_presence_shared",
            ApiRequest::CreateCustomEmoji(_) => "create_custom_emoji",
            ApiRequest::AutocompleteSlashCommands(_) => "autocomplete_slash_commands",
            ApiRequest::CreateVideoCall(_) => "create_video_call",
        }
    }
}

} // verus!
