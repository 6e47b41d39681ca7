//! The messages of the chat service's interface, as far as they are read or
//! written here. A field that is never set or read is not listed.
use vstd::prelude::*;

verus! {

// ───────────────────────── names ─────────────────────────

#[derive(Debug, Default)]
pub struct SpaceId {
    pub space_id: Option<String>,
}

#[derive(Debug, Default)]
pub struct DmId {
    pub dm_id: Option<String>,
}

/// The name of a space: of a room, or of a direct message.
#[derive(Debug, Default)]
pub struct GroupId {
    pub space_id: Option<SpaceId>,
    pub dm_id: Option<DmId>,
}

#[derive(Debug, Default)]
pub struct TopicId {
    pub group_id: Option<GroupId>,
    pub topic_id: Option<String>,
}

#[derive(Debug, Default)]
pub struct MessageParentId {
    pub topic_id: Option<TopicId>,
}

#[derive(Debug, Default)]
pub struct MessageId {
    pub parent_id: Option<MessageParentId>,
    pub message_id: Option<String>,
}

#[derive(Debug, Default)]
pub struct UserId {
    pub id: Option<String>,
}

#[derive(Debug, Default)]
pub struct MemberId {
    pub user_id: Option<UserId>,
}

#[derive(Debug, Default)]
pub struct MembershipId {
    pub member_id: Option<MemberId>,
    pub group_id: Option<GroupId>,
    pub space_id: Option<SpaceId>,
}

// ───────────────────────── content ─────────────────────────

#[derive(Debug, Default)]
pub struct CustomEmoji {
    pub uuid: Option<String>,
    pub shortcode: Option<String>,
}

#[derive(Debug, Default)]
pub struct Emoji {
    pub unicode: Option<String>,
    pub custom_emoji: Option<CustomEmoji>,
}

#[derive(Debug, Default)]
pub struct Reaction {
    pub emoji: Option<Emoji>,
    pub count: Option<i32>,
    pub current_user_participated: Option<bool>,
}

#[derive(Debug, Default)]
pub struct User {
    pub user_id: Option<UserId>,
    pub name: Option<String>,
    pub email: Option<String>,
    pub avatar_url: Option<String>,
    /// Set for users that are programs.
    pub is_bot: bool,
}

#[derive(Debug, Default)]
pub struct Message {
    pub id: Option<MessageId>,
    pub creator: Option<User>,
    pub create_time: Option<i64>,
    pub last_edit_time: Option<i64>,
    pub text_body: Option<String>,
    pub message_type: Option<i32>,
    pub reactions: Vec<Reaction>,
}

#[derive(Debug, Default)]
pub struct Topic {
    pub id: Option<TopicId>,
    pub replies: Vec<Message>,
}

#[derive(Debug, Default)]
pub struct Group {
    pub group_id: Option<GroupId>,
    pub name: Option<String>,
    pub group_type: Option<i32>,
    pub is_flat: Option<bool>,
    pub sort_time: Option<i64>,
}

#[derive(Debug, Default)]
pub struct Membership {
    pub id: Option<MembershipId>,
    pub membership_state: Option<i32>,
    pub membership_role: Option<i32>,
}

#[derive(Debug, Default)]
pub struct DndSettings {
    pub dnd_state: Option<i32>,
}

#[derive(Debug, Default)]
pub struct UserStatus {
    pub user_id: Option<UserId>,
    pub dnd_settings: Option<DndSettings>,
}

// ───────────────────────── events ─────────────────────────

#[derive(Debug, Default)]
pub struct MessageEvent {
    pub message: Option<Message>,
}

#[derive(Debug, Default)]
pub struct MessageDeletedEvent {
    pub message_id: Option<MessageId>,
}

#[derive(Debug, Default)]
pub struct MessageReactionEvent {
    pub message_id: Option<MessageId>,
    pub emoji: Option<Emoji>,
    pub option: Option<i32>,
}

#[derive(Debug, Default)]
pub struct ReactionSummary {
    pub emoji: Option<Emoji>,
    pub count: Option<i32>,
    pub current_user_reacted: Option<bool>,
}

#[derive(Debug, Default)]
pub struct MessageReactionsSummaryEvent {
    pub message_id: Option<MessageId>,
    pub reaction_summary: Vec<ReactionSummary>,
}

#[derive(Debug, Default)]
pub struct TypingContext {
    pub group_id: Option<GroupId>,
}

#[derive(Debug, Default)]
pub struct TypingStateChangedEvent {
    pub state: Option<i32>,
    pub user_id: Option<UserId>,
    pub context: Option<TypingContext>,
    pub start_timestamp_usec: Option<i64>,
}

#[derive(Debug, Default)]
pub struct GroupReadStateUpdatedEvent {
    pub group_id: Option<GroupId>,
    pub most_recent_read_time: Option<i64>,
}

#[derive(Debug, Default)]
pub struct TopicCreatedEvent {
    pub topic: Option<Topic>,
}

#[derive(Debug, Default)]
pub struct MembershipChangedEvent {
    pub new_membership: Option<Membership>,
}

#[derive(Debug, Default)]
pub struct GroupUpdatedEvent {
    pub group: Option<Group>,
}

#[derive(Debug, Default)]
pub struct UserStatusUpdatedEvent {
    pub user_status: Option<UserStatus>,
}

/// What happened, one field for each sort of thing that can. Of some sorts only
/// it is known that they are there.
#[derive(Debug, Default)]
pub struct EventBody {
    pub event_type: Option<i32>,
    pub message_posted: Option<MessageEvent>,
    pub message_deleted: Option<MessageDeletedEvent>,
    pub message_reaction: Option<MessageReactionEvent>,
    pub message_reactions_summary: Option<MessageReactionsSummaryEvent>,
    pub typing_state_changed_event: Option<TypingStateChangedEvent>,
    pub group_read_state_updated_event: Option<GroupReadStateUpdatedEvent>,
    pub topic_created: Option<TopicCreatedEvent>,
    pub membership_changed: Option<MembershipChangedEvent>,
    pub group_updated: Option<GroupUpdatedEvent>,
    pub user_status_updated_event: Option<UserStatusUpdatedEvent>,
    pub group_viewed: bool,
    pub read_receipt_changed: bool,
    pub web_push_notification: bool,
}

#[derive(Debug, Default)]
pub struct Event {
    pub group_id: Option<GroupId>,
    pub body: Option<EventBody>,
    pub bodies: Vec<EventBody>,
}

// ───────────────────────── replies ─────────────────────────

#[derive(Debug, Default)]
pub struct WorldItemLite {
    pub group_id: Option<GroupId>,
    pub room_name: Option<String>,
    pub sort_timestamp: Option<i64>,
}

#[derive(Debug, Default)]
pub struct WorldSectionResponse {
    pub world_items: Vec<WorldItemLite>,
}

#[derive(Debug, Default)]
pub struct PaginatedWorldResponse {
    pub world_section_responses: Vec<WorldSectionResponse>,
    pub world_items: Vec<WorldItemLite>,
}

#[derive(Debug, Default)]
pub struct CatchUpResponse {
    pub status: Option<i32>,
    pub events: Vec<Event>,
}

#[derive(Debug, Default)]
pub struct ListTopicsResponse {
    pub topics: Vec<Topic>,
    pub contains_first_topic: Option<bool>,
}

#[derive(Debug, Default)]
pub struct Member {
    pub user: Option<User>,
}

#[derive(Debug, Default)]
pub struct GetMembersResponse {
    pub members: Vec<Member>,
}

#[derive(Debug, Default)]
pub struct UserPresence {
    pub user_id: Option<UserId>,
    pub presence: Option<i32>,
}

#[derive(Debug, Default)]
pub struct GetUserPresenceResponse {
    pub user_presences: Vec<UserPresence>,
}

#[derive(Debug, Default)]
pub struct GetSelfUserStatusResponse {
    pub user_status: Option<UserStatus>,
}

#[derive(Debug, Default)]
pub struct GetGroupResponse {
    pub group: Option<Group>,
}

#[derive(Debug, Default)]
pub struct CreateMessageResponse {
    pub message: Option<Message>,
}

// ───────────────────────── requests ─────────────────────────

/// What the client can handle, each at a level.
#[derive(Debug, Copy, Clone, PartialEq, Eq, Structural)]
pub struct ClientFeatureCapabilities {
    pub spaces_level_for_testing: Option<i32>,
    pub dms_level_for_testing: Option<i32>,
    pub post_rooms_level: Option<i32>,
    pub spam_room_invites_level: Option<i32>,
    pub tombstone_level: Option<i32>,
    pub rich_text_viewing_level: Option<i32>,
    pub threaded_spaces_level: Option<i32>,
    pub flat_named_room_topic_ordering_by_creation_time_level: Option<i32>,
    pub target_audience_level: Option<i32>,
    pub group_scoped_capabilities_level: Option<i32>,
    pub activity_feed_level: Option<i32>,
    pub roster_as_member_support_level: Option<i32>,
    pub tombstone_in_dms_and_ufrs_level: Option<i32>,
    pub quoted_message_support_level: Option<i32>,
    pub render_announcement_spaces_level: Option<i32>,
    pub dark_launch_space_support: Option<i32>,
    pub avoid_http_400_error_support_level: Option<i32>,
    pub custom_hyperlink_level: Option<i32>,
    pub snippets_for_named_rooms: Option<i32>,
    pub can_add_continuous_direct_add_groups: Option<i32>,
    pub drive_smart_chip_level: Option<i32>,
    pub gsuite_integration_in_native_renderer_level: Option<i32>,
    pub mentions_shortcut_level: Option<i32>,
    pub starred_shortcut_level: Option<i32>,
    pub search_snippet_and_keyword_highlight_level: Option<i32>,
    pub app_section_level: Option<i32>,
    pub create_thread_on_message_send_level: Option<i32>,
    pub can_handle_batch_reaction_update: Option<i32>,
    pub longer_group_snippets_level: Option<i32>,
    pub muting_groups_level: Option<i32>,
    pub muting_write_level: Option<i32>,
    pub add_existing_members_level: Option<i32>,
    pub request_to_join_level: Option<i32>,
    pub threads_in_home_level: Option<i32>,
    pub enable_all_features: Option<i32>,
}

#[derive(Debug)]
pub struct RequestHeader {
    pub client_type: Option<i32>,
    pub client_version: Option<i64>,
    pub trace_id: Option<i64>,
    pub locale: Option<String>,
    pub client_feature_capabilities: Option<ClientFeatureCapabilities>,
}

#[derive(Debug)]
pub struct MessageInfo {
    pub accept_format_annotations: Option<bool>,
}

#[derive(Debug)]
pub struct CreateMessageRequest {
    pub request_header: Option<RequestHeader>,
    pub parent_id: Option<MessageParentId>,
    pub text_body: Option<String>,
    pub local_id: Option<String>,
    pub message_info: Option<MessageInfo>,
}

#[derive(Debug)]
pub struct SetTypingStateRequest {
    pub request_header: Option<RequestHeader>,
    pub state: Option<i32>,
    pub context: Option<TypingContext>,
}

#[derive(Debug)]
pub struct EditMessageRequest {
    pub request_header: Option<RequestHeader>,
    pub message_id: Option<MessageId>,
    pub text_body: Option<String>,
}

#[derive(Debug)]
pub struct DeleteMessageRequest {
    pub request_header: Option<RequestHeader>,
    pub message_id: Option<MessageId>,
}

#[derive(Debug)]
pub struct ListMessagesRequest {
    pub request_header: Option<RequestHeader>,
}

#[derive(Debug)]
pub struct ListTopicsRequest {
    pub request_header: Option<RequestHeader>,
    pub group_id: Option<GroupId>,
    pub page_size_for_topics: Option<i32>,
    pub page_size_for_replies: Option<i32>,
    pub page_size_for_unread_replies: Option<i32>,
    pub page_size_for_read_replies: Option<i32>,
    pub fetch_options: Vec<i32>,
}

#[derive(Debug)]
pub struct MarkGroupReadstateRequest {
    pub request_header: Option<RequestHeader>,
    pub id: Option<GroupId>,
    pub last_read_time: Option<i64>,
}

#[derive(Debug)]
pub struct UpdateReactionRequest {
    pub request_header: Option<RequestHeader>,
    pub message_id: Option<MessageId>,
    pub emoji: Option<Emoji>,
    pub option: Option<i32>,
}

#[derive(Debug)]
pub struct CreateTopicRequest {
    pub request_header: Option<RequestHeader>,
    pub group_id: Option<GroupId>,
    pub text_body: Option<String>,
    pub local_id: Option<String>,
}

#[derive(Debug)]
pub struct GetMembersRequest {
    pub request_header: Option<RequestHeader>,
    pub member_ids: Vec<MemberId>,
}

#[derive(Debug)]
pub struct GetUserPresenceRequest {
    pub request_header: Option<RequestHeader>,
    pub user_ids: Vec<UserId>,
    pub include_active_until: Option<bool>,
    pub include_user_status: Option<bool>,
}

#[derive(Debug)]
pub struct GetSelfUserStatusRequest {
    pub request_header: Option<RequestHeader>,
}

#[derive(Debug)]
pub struct InviteeInfo {
    pub user_id: Option<UserId>,
}

#[derive(Debug)]
pub struct InviteeMemberInfo {
    pub invitee_info: Option<InviteeInfo>,
}

#[derive(Debug)]
pub struct SpaceCreationInfo {
    pub name: Option<String>,
    /// Asks for a room without topics.
    pub flat_group: bool,
    pub has_server_generated_name: Option<bool>,
    pub invitee_member_infos: Vec<InviteeMemberInfo>,
    pub attribute_checker_group_type: Option<i32>,
}

#[derive(Debug)]
pub struct CreateGroupRequest {
    pub request_header: Option<RequestHeader>,
    pub space: Option<SpaceCreationInfo>,
    pub local_id: Option<String>,
    pub should_find_existing_space: Option<bool>,
}

#[derive(Debug)]
pub struct CreateDmRequest {
    pub request_header: Option<RequestHeader>,
    pub members: Vec<UserId>,
    pub local_id: Option<String>,
}

#[derive(Debug)]
pub struct CreateMembershipRequest {
    pub request_header: Option<RequestHeader>,
    pub member_ids: Vec<MemberId>,
    pub membership_state: Option<i32>,
    pub group_id: Option<GroupId>,
}

#[derive(Debug)]
pub struct RemoveMembershipsRequest {
    pub request_header: Option<RequestHeader>,
    pub member_ids: Vec<MemberId>,
    pub group_id: Option<GroupId>,
    pub membership_state: Option<i32>,
}

#[derive(Debug)]
pub struct UpdateGroupRequest {
    pub request_header: Option<RequestHeader>,
    pub space_id: Option<SpaceId>,
    pub update_masks: Vec<i32>,
    pub name: Option<String>,
}

#[derive(Debug)]
pub struct HideGroupRequest {
    pub request_header: Option<RequestHeader>,
    pub id: Option<GroupId>,
    pub hide: Option<bool>,
}

#[derive(Debug)]
pub struct ListMembersRequest {
    pub request_header: Option<RequestHeader>,
    pub group_id: Option<GroupId>,
    pub page_size: Option<i32>,
}

#[derive(Debug)]
pub struct SetDndDurationRequest {
    pub request_header: Option<RequestHeader>,
    pub new_dnd_duration_usec: Option<i64>,
}

#[derive(Debug)]
pub struct CustomStatus {
    pub status_text: Option<String>,
    pub status_emoji: Option<String>,
    pub state_expiry_timestamp_usec: Option<i64>,
    pub emoji: Option<Emoji>,
}

#[derive(Debug)]
pub struct SetCustomStatusRequest {
    pub request_header: Option<RequestHeader>,
    pub custom_status: Option<CustomStatus>,
    pub custom_status_expiry_timestamp_usec: Option<i64>,
}

#[derive(Debug)]
pub struct BlockEntityRequest {
    pub request_header: Option<RequestHeader>,
    pub user_id: Option<UserId>,
    pub group_id: Option<GroupId>,
    pub blocked: Option<bool>,
    pub reported: Option<bool>,
}

#[derive(Debug)]
pub struct SetPresenceSharedRequest {
    pub request_header: Option<RequestHeader>,
    pub presence_shared: Option<bool>,
}

#[derive(Debug)]
pub struct CreateCustomEmojiRequest {
    pub request_header: Option<RequestHeader>,
    pub shortcode: Option<String>,
}

#[derive(Debug)]
pub struct AutocompleteSlashCommandsRequest {
    pub request_header: Option<RequestHeader>,
    pub query: Option<String>,
    pub group_id: Option<GroupId>,
    pub max_num_results: Option<i32>,
    pub restrict_to_bots_in_group: Option<bool>,
    pub include_dialogs: Option<bool>,
}

#[derive(Debug)]
pub struct CreateVideoCallRequest {
    pub group_id: Option<GroupId>,
    pub request_header: Option<RequestHeader>,
}

#[derive(Debug)]
pub struct WorldSectionRequest {
    pub page_size: Option<i32>,
    pub world_section_type: Option<i32>,
}

#[derive(Debug)]
pub struct PaginatedWorldRequest {
    pub request_header: Option<RequestHeader>,
    pub world_section_requests: Vec<WorldSectionRequest>,
    pub fetch_from_user_spaces: Option<bool>,
    pub fetch_snippets_for_unnamed_rooms: Option<bool>,
}

#[derive(Debug)]
pub struct CatchUpRange {
    pub from_revision_timestamp: Option<i64>,
    pub to_revision_timestamp: Option<i64>,
}

#[derive(Debug)]
pub struct CatchUpUserRequest {
    pub request_header: Option<RequestHeader>,
    pub range: Option<CatchUpRange>,
    pub page_size: Option<i32>,
    pub cutoff_size: Option<i32>,
}

#[derive(Debug)]
pub struct CatchUpGroupRequest {
    pub request_header: Option<RequestHeader>,
    pub group_id: Option<GroupId>,
    pub range: Option<CatchUpRange>,
    pub page_size: Option<i32>,
    pub cutoff_size: Option<i32>,
}

#[derive(Debug)]
pub struct GetGroupRequest {
    pub request_header: Option<RequestHeader>,
    pub group_id: Option<GroupId>,
    pub fetch_options: Vec<i32>,
}

} // verus!
