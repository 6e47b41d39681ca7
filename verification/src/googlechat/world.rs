//! Loading the spaces at the start of a session.
//!
//! A session in a browser asks for the signed-in user, for that user's name, and for
//! the spaces; where it is told of none it reads them off the page. A session of plain
//! HTTP calls asks for the signed-in user, gathers the spaces of the last thirty days'
//! events, and asks for the name of each. [`Loader`] says which call comes next and
//! takes in the replies.
use vstd::prelude::*;

use crate::error::AuthError;
use crate::event::inbound::{EventV, InboundEvent};
use crate::googlechat::commands::{has_header, tests_make_header};
use crate::googlechat::convert::{
    items_of, new_space, plain_self, plain_space, self_user, world_items,
};
use crate::googlechat::dispatch::{kept_name, kept_name_of};
use crate::googlechat::proto;
use crate::googlechat::raw::{intern_space, space_named, user_text};
use crate::googlechat::reply::{text_member, told};
use crate::json::{
    self, jsons, lemma_array_view, lemma_regular_member, parsed, printed, Json, JsonV,
};
use crate::text::{
    self, copy_opt, ends, join2, or_empty, starts, text_opt, text_or_empty, trimmed, without_prefix,
    without_suffix,
};
use crate::types::ids::{with, IdInterner, PlatformId, Pool, SpaceId};
use crate::types::space::{spaces, Space, SpaceKind, SpaceV, User, UserV};
use crate::types::timestamp::Timestamp;

verus! {

broadcast use {vstd::string::group_string_axioms, lemma_array_view};

// ───────────────────────── spaces ─────────────────────────

pub open spec fn kind_of(dm: bool) -> SpaceKind {
    if dm {
        SpaceKind::DirectMessage
    } else {
        SpaceKind::Room
    }
}

/// A space with this name, of which no time is known.
pub open spec fn undated(pool: Pool, name: Seq<char>, shown: Seq<char>, dm: bool) -> SpaceV {
    plain_space(space_named(pool, name), shown, kind_of(dm), Timestamp(0))
}

fn undated_space(interner: &mut IdInterner, name: &str, shown: String, dm: bool) -> (r: Space)
    ensures
        r@ == undated(old(interner)@, name@, shown@, dm),
        final(interner)@ == with(old(interner)@, name@),
{
    let id = intern_space(interner, name);
    let kind = if dm {
        SpaceKind::DirectMessage
    } else {
        SpaceKind::Room
    };
    new_space(id, shown, kind, Timestamp::zero())
}

/// The name under which an item of the world is kept, unless it has none or an empty
/// one.
pub open spec fn item_name(g: Option<proto::GroupId>) -> Option<(Seq<char>, bool)> {
    match g {
        Some(x) => match kept_name(x) {
            Some((name, dm)) => if name.len() > 0 {
                Some((name, dm))
            } else {
                None
            },
            None => None,
        },
        None => None,
    }
}

fn name_of_item(g: &Option<proto::GroupId>) -> (r: Option<(String, bool)>)
    ensures
        match r {
            Some((s, dm)) => item_name(*g) == Some((s@, dm)),
            None => item_name(*g) is None,
        },
{
    match g {
        Some(x) => match kept_name_of(x) {
            Some((name, dm)) => if name.as_str().is_empty() {
                None
            } else {
                Some((name, dm))
            },
            None => None,
        },
        None => None,
    }
}

/// What is shown for a space: its name where it has one, else the name under which it
/// is kept.
pub open spec fn shown_name(name: Option<Seq<char>>, id: Seq<char>) -> Seq<char> {
    match name {
        Some(n) => n,
        None => id,
    }
}

/// The spaces of the items of the world that have a name, and the pool behind them.
pub open spec fn item_spaces(items: Seq<proto::WorldItemLite>, pool: Pool) -> (Pool, Seq<SpaceV>)
    decreases items.len(),
{
    if items.len() == 0 {
        (pool, Seq::empty())
    } else {
        let (p, o) = item_spaces(items.drop_last(), pool);
        match item_name(items.last().group_id) {
            Some((name, dm)) => (
                with(p, name),
                o.push(undated(p, name, shown_name(text_opt(items.last().room_name), name), dm)),
            ),
            None => (p, o),
        }
    }
}

/// The spaces of a reply that lists the world.
pub fn spaces_of_world(resp: &proto::PaginatedWorldResponse, interner: &mut IdInterner) -> (r: Vec<
    Space,
>)
    ensures
        (final(interner)@, spaces(r@)) == item_spaces(world_items(*resp), old(interner)@),
{
    let items = items_of(resp);
    let ghost iv = world_items(*resp);
    let ghost p0 = interner@;
    let mut out: Vec<Space> = Vec::new();
    let mut i: usize = 0;
    proof {
        assert(spaces(out@) =~= Seq::empty());
    }
    while i < items.len()
        invariant
            i <= items@.len(),
            iv == items@.map_values(|i: &proto::WorldItemLite| *i),
            (interner@, spaces(out@)) == item_spaces(iv.take(i as int), p0),
        decreases items@.len() - i,
    {
        let item = items[i];
        proof {
            assert(iv.take(i + 1).drop_last() =~= iv.take(i as int));
            assert(iv.take(i + 1).last() == *item);
        }
        if let Some((name, dm)) = name_of_item(&item.group_id) {
            let ghost done = spaces(out@);
            let shown = match &item.room_name {
                Some(n) => n.clone(),
                None => name.clone(),
            };
            let s = undated_space(interner, name.as_str(), shown, dm);
            out.push(s);
            proof {
                assert(spaces(out@) =~= done.push(s@));
            }
        }
        i += 1;
    }
    proof {
        assert(iv.take(iv.len() as int) =~= iv);
    }
    out
}

// ───────────────────────── spaces on the page ─────────────────────────

/// The name without the first of the marks of a space's state that it begins with.
pub open spec fn without_state(s: Seq<char>) -> Seq<char> {
    if starts(s, "Unread "@) {
        without_prefix(s, "Unread "@)->0
    } else if starts(s, "Muted "@) {
        without_prefix(s, "Muted "@)->0
    } else if starts(s, "Active "@) {
        without_prefix(s, "Active "@)->0
    } else {
        s
    }
}

/// The name without the first of the names of a section that it ends with.
pub open spec fn without_section(s: Seq<char>) -> Seq<char> {
    if ends(s, " Pinned conversations"@) {
        without_suffix(s, " Pinned conversations"@)->0
    } else if ends(s, " Conversations"@) {
        without_suffix(s, " Conversations"@)->0
    } else if ends(s, " conversations"@) {
        without_suffix(s, " conversations"@)->0
    } else if ends(s, " Pinned"@) {
        without_suffix(s, " Pinned"@)->0
    } else {
        s
    }
}

/// The name of a space, as the page's side bar shows it, without what the side bar adds.
pub open spec fn clean_name(raw: Seq<char>) -> Seq<char> {
    trimmed(without_section(without_state(trimmed(raw))))
}

fn strip_first_prefix(s: String) -> (r: String)
    ensures
        r@ == without_state(s@),
{
    match text::strip_prefix(s.as_str(), "Unread ") {
        Some(t) => return t,
        None => {},
    }
    match text::strip_prefix(s.as_str(), "Muted ") {
        Some(t) => return t,
        None => {},
    }
    match text::strip_prefix(s.as_str(), "Active ") {
        Some(t) => t,
        None => s,
    }
}

fn strip_first_suffix(s: String) -> (r: String)
    ensures
        r@ == without_section(s@),
{
    match text::strip_suffix(s.as_str(), " Pinned conversations") {
        Some(t) => return t,
        None => {},
    }
    match text::strip_suffix(s.as_str(), " Conversations") {
        Some(t) => return t,
        None => {},
    }
    match text::strip_suffix(s.as_str(), " conversations") {
        Some(t) => return t,
        None => {},
    }
    match text::strip_suffix(s.as_str(), " Pinned") {
        Some(t) => t,
        None => s,
    }
}

/// The name of a space, as the page's side bar shows it, without what the side bar adds.
pub fn clean_space_name(raw: &str) -> (r: String)
    ensures
        r@ == clean_name(raw@),
{
    let s = strip_first_suffix(strip_first_prefix(text::trim(raw)));
    text::trim(s.as_str())
}

/// The name under which a space of the page is kept: a direct message keeps its prefix,
/// a room loses it, and what has no name of its own is kept under the name that is
/// shown.
pub open spec fn page_name(id: Seq<char>, shown: Seq<char>) -> Seq<char> {
    if starts(id, "dm/"@) {
        id
    } else if starts(id, "space/"@) {
        without_prefix(id, "space/"@)->0
    } else if starts(id, "spaces/"@) {
        without_prefix(id, "spaces/"@)->0
    } else if id.len() > 0 {
        id
    } else {
        shown
    }
}

/// The spaces of the entries of the page's side bar, and the pool behind them. An entry
/// without a name is none.
pub open spec fn entry_spaces(entries: Seq<JsonV>, pool: Pool) -> (Pool, Seq<SpaceV>)
    decreases entries.len(),
{
    if entries.len() == 0 {
        (pool, Seq::empty())
    } else {
        let (p, o) = entry_spaces(entries.drop_last(), pool);
        let raw = or_empty(text_member(entries.last(), "name"@));
        let id = or_empty(text_member(entries.last(), "id"@));
        if raw.len() == 0 {
            (p, o)
        } else {
            let name = page_name(id, clean_name(raw));
            (with(p, name), o.push(undated(p, name, clean_name(raw), starts(id, "dm/"@))))
        }
    }
}

/// The entries of the page's side bar.
pub open spec fn page_entries(j: JsonV) -> Seq<JsonV> {
    match j.member("spaces"@) {
        Some(JsonV::Array(a)) => a,
        _ => Seq::empty(),
    }
}

fn member_or_empty(j: &Json, key: &str) -> (r: String)
    ensures
        r@ == or_empty(text_member(j@, key@)),
{
    match j.member(key) {
        Some(v) => match v.as_str() {
            Some(s) => s.to_owned(),
            None => String::new(),
        },
        None => String::new(),
    }
}

fn kept_page_name(id: String, shown: &String) -> (r: String)
    ensures
        r@ == page_name(id@, shown@),
{
    if text::starts_with(id.as_str(), "dm/") {
        return id;
    }
    match text::strip_prefix(id.as_str(), "space/") {
        Some(t) => return t,
        None => {},
    }
    match text::strip_prefix(id.as_str(), "spaces/") {
        Some(t) => return t,
        None => {},
    }
    if id.as_str().is_empty() {
        shown.clone()
    } else {
        id
    }
}

fn spaces_of_entries(entries: &Vec<Json>, interner: &mut IdInterner) -> (r: Vec<Space>)
    ensures
        (final(interner)@, spaces(r@)) == entry_spaces(jsons(entries@), old(interner)@),
{
    let ghost all = jsons(entries@);
    let ghost p0 = interner@;
    let mut out: Vec<Space> = Vec::new();
    let mut i: usize = 0;
    proof {
        assert(spaces(out@) =~= Seq::empty());
    }
    while i < entries.len()
        invariant
            i <= entries@.len(),
            all == jsons(entries@),
            (interner@, spaces(out@)) == entry_spaces(all.take(i as int), p0),
        decreases entries@.len() - i,
    {
        proof {
            assert(all.take(i + 1).drop_last() =~= all.take(i as int));
            assert(all.take(i + 1).last() == entries@[i as int]@);
        }
        let raw = member_or_empty(&entries[i], "name");
        let id = member_or_empty(&entries[i], "id");
        if !raw.as_str().is_empty() {
            let ghost done = spaces(out@);
            let shown = clean_space_name(raw.as_str());
            let dm = text::starts_with(id.as_str(), "dm/");
            let name = kept_page_name(id, &shown);
            let s = undated_space(interner, name.as_str(), shown, dm);
            out.push(s);
            proof {
                assert(spaces(out@) =~= done.push(s@));
            }
        }
        i += 1;
    }
    proof {
        assert(all.take(all.len() as int) =~= all);
    }
    out
}

/// The spaces of the page's side bar, given as the JSON text that the page's script
/// gives back, as the start of a session. A text that is no JSON counts as the error
/// `parse failed`.
pub fn extract_spaces_from_page(page: &str, interner: &mut IdInterner) -> (r: Result<
    InboundEvent,
    AuthError,
>)
    ensures
        match parsed(page@) {
            Ok(j) => match j.member("error"@) {
                Some(e) => told(r, "JS error: "@, e, Seq::empty()) && final(interner)@ == old(interner)@,
                None => {
                    let (p, s) = entry_spaces(page_entries(j), old(interner)@);
                    final(interner)@ == with(p, "self"@) && (r matches Ok(x) && x@
                        == (EventV::WorldSync {
                        platform: PlatformId::GoogleChat,
                        spaces: s,
                        self_user: plain_self(p, "self"@),
                    }))
                },
            },
            Err(_) => told(r, "JS error: "@, JsonV::Text("parse failed"@), Seq::empty()) && final(interner)@ == old(interner)@,
        },
{
    let j = match json::parse(page) {
        Ok(j) => j,
        Err(_) => {
            let e = Json::Text("parse failed".to_owned());
            let m = join2("JS error: ", json::print(&e).as_str());
            proof {
                assert("JS error: "@ + printed(e@) + Seq::<char>::empty() =~= m@);
            }
            return Err(AuthError::SessionFetch(m));
        },
    };
    match j.member("error") {
        Some(error) => {
            proof {
                lemma_regular_member(j@, "error"@);
            }
            let e = json::print(error);
            let m = join2("JS error: ", e.as_str());
            proof {
                assert("JS error: "@ + e@ + Seq::<char>::empty() =~= m@);
            }
            return Err(AuthError::SessionFetch(m));
        },
        None => {},
    }
    let found = match j.member("spaces") {
        Some(Json::Array(a)) => spaces_of_entries(a, interner),
        _ => {
            let none: Vec<Space> = Vec::new();
            proof {
                assert(spaces(none@) =~= Seq::empty());
            }
            none
        },
    };
    let me = self_user(interner, "self");
    Ok(
        InboundEvent::WorldSync {
            platform: PlatformId::GoogleChat,
            spaces: found,
            self_user: me,
        },
    )
}

// ───────────────────────── spaces of recent events ─────────────────────────

/// A space that an event belongs to.
#[derive(Debug)]
pub struct FoundGroup {
    pub group_id: proto::GroupId,
    /// The name under which it is kept.
    pub id: String,
    pub is_dm: bool,
}

/// The mathematical form of a [`FoundGroup`].
pub ghost struct FoundV {
    pub group_id: proto::GroupId,
    pub id: Seq<char>,
    pub is_dm: bool,
}

impl View for FoundGroup {
    type V = FoundV;

    open spec fn view(&self) -> FoundV {
        FoundV { group_id: self.group_id, id: self.id@, is_dm: self.is_dm }
    }
}

pub open spec fn found(v: Seq<FoundGroup>) -> Seq<FoundV> {
    v.map_values(|g: FoundGroup| g@)
}

/// One of the spaces has this name.
pub open spec fn known(v: Seq<FoundV>, name: Seq<char>) -> bool {
    exists|i: int| 0 <= i < v.len() && (#[trigger] v[i]).id == name
}

/// The spaces that the events belong to, each once, in the order of their first events.
pub open spec fn event_groups(events: Seq<proto::Event>) -> Seq<FoundV>
    decreases events.len(),
{
    if events.len() == 0 {
        Seq::empty()
    } else {
        let before = event_groups(events.drop_last());
        match item_name(events.last().group_id) {
            Some((name, dm)) => if known(before, name) {
                before
            } else {
                before.push(
                    FoundV { group_id: events.last().group_id->0, id: name, is_dm: dm },
                )
            },
            None => before,
        }
    }
}

fn copy_group(g: &proto::GroupId) -> (r: proto::GroupId)
    ensures
        r == *g,
{
    proto::GroupId {
        space_id: match &g.space_id {
            Some(s) => Some(proto::SpaceId { space_id: copy_opt(&s.space_id) }),
            None => None,
        },
        dm_id: match &g.dm_id {
            Some(d) => Some(proto::DmId { dm_id: copy_opt(&d.dm_id) }),
            None => None,
        },
    }
}

fn is_known(v: &Vec<FoundGroup>, name: &str) -> (r: bool)
    ensures
        r == known(found(v@), name@),
{
    let mut i: usize = 0;
    while i < v.len()
        invariant
            i <= v@.len(),
            forall|k: int| 0 <= k < i ==> (#[trigger] found(v@)[k]).id != name@,
        decreases v@.len() - i,
    {
        proof {
            assert(found(v@)[i as int] == v@[i as int]@);
        }
        if text::same(v[i].id.as_str(), name) {
            return true;
        }
        i += 1;
    }
    false
}

/// The spaces that the events of a reply belong to, each once.
pub fn groups_of_events(resp: &proto::CatchUpResponse) -> (r: Vec<FoundGroup>)
    ensures
        found(r@) == event_groups(resp.events@),
{
    let mut out: Vec<FoundGroup> = Vec::new();
    let mut i: usize = 0;
    proof {
        assert(found(out@) =~= Seq::empty());
    }
    while i < resp.events.len()
        invariant
            i <= resp.events@.len(),
            found(out@) == event_groups(resp.events@.take(i as int)),
        decreases resp.events@.len() - i,
    {
        proof {
            assert(resp.events@.take(i + 1).drop_last() =~= resp.events@.take(i as int));
        }
        if let Some((name, dm)) = name_of_item(&resp.events[i].group_id) {
            if !is_known(&out, name.as_str()) {
                if let Some(g) = &resp.events[i].group_id {
                    let ghost done = found(out@);
                    let x = FoundGroup { group_id: copy_group(g), id: name, is_dm: dm };
                    let ghost xv = x@;
                    out.push(x);
                    proof {
                        assert(found(out@) =~= done.push(xv));
                    }
                }
            }
        }
        i += 1;
    }
    proof {
        assert(resp.events@.take(resp.events@.len() as int) =~= resp.events@);
    }
    out
}

/// No space is gathered twice.
pub proof fn law_groups_are_distinct(events: Seq<proto::Event>)
    ensures
        forall|i: int, j: int|
            0 <= i < j < event_groups(events).len() ==> (#[trigger] event_groups(events)[i]).id != (
            #[trigger] event_groups(events)[j]).id,
    decreases events.len(),
{
    if events.len() > 0 {
        law_groups_are_distinct(events.drop_last());
    }
}

// ───────────────────────── calls ─────────────────────────

/// A call that the loading of the spaces makes.
#[derive(Debug)]
pub enum LoadCall {
    SelfStatus(proto::GetSelfUserStatusRequest),
    Members(proto::GetMembersRequest),
    World(proto::PaginatedWorldRequest),
    CatchUp(proto::CatchUpUserRequest),
    Group(proto::GetGroupRequest),
    /// Read the side bar of the page in the browser.
    Page,
}

/// The reply to a call of the loading, none where the call failed or the reply could
/// not be read.
#[derive(Debug)]
pub enum LoadReply {
    SelfStatus(Option<proto::GetSelfUserStatusResponse>),
    Members(Option<proto::GetMembersResponse>),
    World(Option<proto::PaginatedWorldResponse>),
    CatchUp(Option<proto::CatchUpResponse>),
    Group(Option<proto::GetGroupResponse>),
    Page(Option<String>),
}

/// Where the loading stands: at the call that comes next.
#[derive(Copy, Clone, Debug, PartialEq, Eq, Structural)]
pub enum Stage {
    SelfStatus,
    Members,
    World,
    Page,
    CatchUp,
    Group,
    Done,
}

impl LoadCall {
    pub open spec fn address(self) -> Option<Seq<char>> {
        match self {
            LoadCall::SelfStatus(_) => Some("get_self_user_status"@),
            LoadCall::Members(_) => Some("get_members"@),
            LoadCall::World(_) => Some("paginated_world"@),
            LoadCall::CatchUp(_) => Some("catch_up_user"@),
            LoadCall::Group(_) => Some("get_group"@),
            LoadCall::Page => None,
        }
    }

    /// The name of the call in the service's address. None for reading the page.
    pub fn endpoint(&self) -> (r: Option<&'static str>)
        ensures
            match self.address() {
                Some(a) => r matches Some(s) && s@ == a,
                None => r is None,
            },
    {
        match self {
            LoadCall::SelfStatus(_) => Some("get_self_user_status"),
            LoadCall::Members(_) => Some("get_members"),
            LoadCall::World(_) => Some("paginated_world"),
            LoadCall::CatchUp(_) => Some("catch_up_user"),
            LoadCall::Group(_) => Some("get_group"),
            LoadCall::Page => None,
        }
    }
}

/// The loading of the spaces.
#[derive(Debug)]
pub struct Loader {
    /// Plain HTTP calls, without a browser.
    pub direct: bool,
    pub stage: Stage,
    /// The name of the signed-in user, empty where it is not known.
    pub self_id: String,
    /// The signed-in user, once all that is asked of that user is known.
    pub me: Option<User>,
    /// The spaces whose names are asked for, one after the other.
    pub groups: Vec<FoundGroup>,
    /// The spaces loaded.
    pub spaces: Vec<Space>,
}

/// The mathematical form of a [`Loader`].
pub ghost struct LoadV {
    pub direct: bool,
    pub stage: Stage,
    pub self_id: Seq<char>,
    pub me: Option<UserV>,
    pub groups: Seq<FoundV>,
    pub spaces: Seq<SpaceV>,
}

impl View for Loader {
    type V = LoadV;

    open spec fn view(&self) -> LoadV {
        LoadV {
            direct: self.direct,
            stage: self.stage,
            self_id: self.self_id@,
            me: match self.me {
                Some(u) => Some(u@),
                None => None,
            },
            groups: found(self.groups@),
            spaces: spaces(self.spaces@),
        }
    }
}

impl LoadV {
    /// While names are asked for, there is a space whose name is to be asked for next.
    pub open spec fn sound(self) -> bool {
        self.stage == Stage::Group ==> self.spaces.len() < self.groups.len()
    }
}

/// Thirty days before a time in microseconds.
pub open spec fn month_before(now: i64) -> i64 {
    if now - 2_592_000_000_000 < i64::MIN {
        i64::MIN
    } else {
        (now - 2_592_000_000_000) as i64
    }
}

/// A part of the world, up to so many spaces.
pub open spec fn is_section(s: proto::WorldSectionRequest, page: i32, kind: i32) -> bool {
    s.page_size == Some(page) && s.world_section_type == Some(kind)
}

/// The request for the world: all direct messages and all rooms, up to so many of each.
pub open spec fn is_world_request(q: proto::PaginatedWorldRequest, page: i32) -> bool {
    &&& has_header(q.request_header)
    &&& q.world_section_requests@.len() == 2
    &&& is_section(q.world_section_requests@[0], page, 14)
    &&& is_section(q.world_section_requests@[1], page, 8)
    &&& q.fetch_from_user_spaces == Some(true)
    &&& q.fetch_snippets_for_unnamed_rooms == Some(true)
}

/// The request for the world, up to so many direct messages and rooms.
pub fn world_request(page: i32) -> (r: proto::PaginatedWorldRequest)
    ensures
        is_world_request(r, page),
{
    let mut sections: Vec<proto::WorldSectionRequest> = Vec::new();
    sections.push(
        proto::WorldSectionRequest { page_size: Some(page), world_section_type: Some(14) },
    );
    sections.push(
        proto::WorldSectionRequest { page_size: Some(page), world_section_type: Some(8) },
    );
    proto::PaginatedWorldRequest {
        request_header: header(),
        world_section_requests: sections,
        fetch_from_user_spaces: Some(true),
        fetch_snippets_for_unnamed_rooms: Some(true),
    }
}

/// The call that a loading asks for at the time `now`, in microseconds.
pub open spec fn calls_for(s: LoadV, now: i64, c: Option<LoadCall>) -> bool {
    match s.stage {
        Stage::SelfStatus => c matches Some(LoadCall::SelfStatus(q)) && has_header(
            q.request_header,
        ),
        Stage::Members => c matches Some(LoadCall::Members(q)) && has_header(q.request_header)
            && q.member_ids@.len() == 1 && (q.member_ids@[0].user_id matches Some(u) && text_opt(
            u.id,
        ) == Some(s.self_id)),
        Stage::World => c matches Some(LoadCall::World(q)) && is_world_request(q, 50),
        Stage::Page => c == Some(LoadCall::Page),
        Stage::CatchUp => c matches Some(LoadCall::CatchUp(q)) && has_header(q.request_header)
            && q.range == Some(
            proto::CatchUpRange {
                from_revision_timestamp: Some(month_before(now)),
                to_revision_timestamp: Some(now),
            },
        ) && q.page_size == Some(200i32) && q.cutoff_size == Some(1000i32),
        Stage::Group => c matches Some(LoadCall::Group(q)) && has_header(q.request_header)
            && q.group_id == Some(s.groups[s.spaces.len() as int].group_id) && q.fetch_options@
            == seq![1i32, 4i32],
        Stage::Done => c is None,
    }
}

/// The name of the signed-in user in a reply, empty where it has none.
pub open spec fn own_id(r: Option<proto::GetSelfUserStatusResponse>) -> Seq<char> {
    match r {
        Some(x) => match x.user_status {
            Some(s) => or_empty(user_text(s.user_id)),
            None => Seq::empty(),
        },
        None => Seq::empty(),
    }
}

/// The name under which the signed-in user is kept: `self` where it is not known.
pub open spec fn own_name(id: Seq<char>) -> Seq<char> {
    if id.len() == 0 {
        "self"@
    } else {
        id
    }
}

/// The first user in a reply.
pub open spec fn first_user(r: Option<proto::GetMembersResponse>) -> Option<proto::User> {
    match r {
        Some(x) => if x.members@.len() > 0 {
            x.members@[0].user
        } else {
            None
        },
        None => None,
    }
}

/// The signed-in user, with the name and the address that the first user of a reply has.
pub open spec fn own_user(pool: Pool, id: Seq<char>, u: Option<proto::User>) -> UserV {
    UserV {
        display_name: match u {
            Some(x) => match x.name {
                Some(n) => n@,
                None => "Me"@,
            },
            None => "Me"@,
        },
        email: match u {
            Some(x) => text_opt(x.email),
            None => None,
        },
        ..plain_self(pool, own_name(id))
    }
}

/// The spaces of a reply that lists the world, none where there is no reply.
pub open spec fn replied_spaces(r: Option<proto::PaginatedWorldResponse>, pool: Pool) -> (
    Pool,
    Seq<SpaceV>,
) {
    match r {
        Some(x) => item_spaces(world_items(x), pool),
        None => (pool, Seq::empty()),
    }
}

/// The spaces that the page shows, none where it cannot be read.
pub open spec fn page_spaces(r: Option<String>, pool: Pool) -> (Pool, Seq<SpaceV>) {
    match r {
        Some(text) => match parsed(text@) {
            Ok(j) => if j.member("error"@) is Some {
                (pool, Seq::empty())
            } else {
                let (p, s) = entry_spaces(page_entries(j), pool);
                (with(p, "self"@), s)
            },
            Err(_) => (pool, Seq::empty()),
        },
        None => (pool, Seq::empty()),
    }
}

/// The spaces that the events of a reply belong to.
pub open spec fn replied_groups(r: Option<proto::CatchUpResponse>) -> Seq<FoundV> {
    match r {
        Some(x) => event_groups(x.events@),
        None => Seq::empty(),
    }
}

/// The name of the space in a reply.
pub open spec fn replied_name(r: Option<proto::GetGroupResponse>) -> Option<Seq<char>> {
    match r {
        Some(x) => match x.group {
            Some(g) => text_opt(g.name),
            None => None,
        },
        None => None,
    }
}

/// Where the loading stands after a reply, and the pool behind it. A reply that was not
/// asked for changes nothing.
pub open spec fn after_reply(s: LoadV, r: LoadReply, pool: Pool) -> (LoadV, Pool) {
    match r {
        LoadReply::SelfStatus(x) => if s.stage == Stage::SelfStatus {
            let id = own_id(x);
            if s.direct || id.len() == 0 {
                (
                    LoadV {
                        self_id: id,
                        me: Some(own_user(pool, id, None)),
                        stage: if s.direct {
                            Stage::CatchUp
                        } else {
                            Stage::World
                        },
                        ..s
                    },
                    with(pool, own_name(id)),
                )
            } else {
                (LoadV { self_id: id, stage: Stage::Members, ..s }, pool)
            }
        } else {
            (s, pool)
        },
        LoadReply::Members(x) => if s.stage == Stage::Members {
            (
                LoadV {
                    me: Some(own_user(pool, s.self_id, first_user(x))),
                    stage: Stage::World,
                    ..s
                },
                with(pool, own_name(s.self_id)),
            )
        } else {
            (s, pool)
        },
        LoadReply::World(x) => if s.stage == Stage::World {
            let (p, sp) = replied_spaces(x, pool);
            (
                LoadV {
                    spaces: sp,
                    stage: if sp.len() == 0 {
                        Stage::Page
                    } else {
                        Stage::Done
                    },
                    ..s
                },
                p,
            )
        } else {
            (s, pool)
        },
        LoadReply::Page(x) => if s.stage == Stage::Page {
            let (p, sp) = page_spaces(x, pool);
            (LoadV { spaces: sp, stage: Stage::Done, ..s }, p)
        } else {
            (s, pool)
        },
        LoadReply::CatchUp(x) => if s.stage == Stage::CatchUp {
            let g = replied_groups(x);
            (
                LoadV {
                    groups: g,
                    spaces: Seq::empty(),
                    stage: if g.len() == 0 {
                        Stage::Done
                    } else {
                        Stage::Group
                    },
                    ..s
                },
                pool,
            )
        } else {
            (s, pool)
        },
        LoadReply::Group(x) => if s.stage == Stage::Group {
            let g = s.groups[s.spaces.len() as int];
            (
                LoadV {
                    spaces: s.spaces.push(
                        undated(pool, g.id, shown_name(replied_name(x), g.id), g.is_dm),
                    ),
                    stage: if s.spaces.len() + 1 == s.groups.len() {
                        Stage::Done
                    } else {
                        Stage::Group
                    },
                    ..s
                },
                with(pool, g.id),
            )
        } else {
            (s, pool)
        },
    }
}

fn header() -> (r: Option<proto::RequestHeader>)
    ensures
        has_header(r),
{
    Some(tests_make_header())
}

fn own_user_of(interner: &mut IdInterner, id: &String, u: Option<&proto::User>) -> (r: User)
    ensures
        r@ == own_user(
            old(interner)@,
            id@,
            match u {
                Some(x) => Some(*x),
                None => None,
            },
        ),
        final(interner)@ == with(old(interner)@, own_name(id@)),
{
    let mut me = if id.as_str().is_empty() {
        self_user(interner, "self")
    } else {
        self_user(interner, id.as_str())
    };
    match u {
        Some(x) => {
            match &x.name {
                Some(n) => {
                    me.display_name = n.clone();
                },
                None => {},
            }
            me.email = copy_opt(&x.email);
        },
        None => {},
    }
    me
}

impl Loader {
    /// A loading at its start.
    pub fn new(direct: bool) -> (r: Loader)
        ensures
            r@ == (LoadV {
                direct,
                stage: Stage::SelfStatus,
                self_id: Seq::empty(),
                me: None,
                groups: Seq::empty(),
                spaces: Seq::empty(),
            }),
            r@.sound(),
    {
        let r = Loader {
            direct,
            stage: Stage::SelfStatus,
            self_id: String::new(),
            me: None,
            groups: Vec::new(),
            spaces: Vec::new(),
        };
        proof {
            assert(r@.groups =~= Seq::empty());
            assert(r@.spaces =~= Seq::empty());
            assert(r@.self_id =~= Seq::empty());
        }
        r
    }

    /// The next call, made at the time `now` in microseconds. None once all is loaded.
    pub fn next_call(&self, now: i64) -> (r: Option<LoadCall>)
        requires
            self@.sound(),
        ensures
            calls_for(self@, now, r),
    {
        match self.stage {
            Stage::SelfStatus => Some(
                LoadCall::SelfStatus(proto::GetSelfUserStatusRequest { request_header: header() }),
            ),
            Stage::Members => {
                let mut ids: Vec<proto::MemberId> = Vec::new();
                ids.push(
                    proto::MemberId {
                        user_id: Some(proto::UserId { id: Some(self.self_id.clone()) }),
                    },
                );
                Some(
                    LoadCall::Members(
                        proto::GetMembersRequest { request_header: header(), member_ids: ids },
                    ),
                )
            },
            Stage::World => Some(LoadCall::World(world_request(50))),
            Stage::Page => Some(LoadCall::Page),
            Stage::CatchUp => {
                let month: i64 = 2_592_000_000_000;
                let from: i64 = if now < i64::MIN + month {
                    i64::MIN
                } else {
                    now - month
                };
                Some(
                    LoadCall::CatchUp(
                        proto::CatchUpUserRequest {
                            request_header: header(),
                            range: Some(
                                proto::CatchUpRange {
                                    from_revision_timestamp: Some(from),
                                    to_revision_timestamp: Some(now),
                                },
                            ),
                            page_size: Some(200),
                            cutoff_size: Some(1000),
                        },
                    ),
                )
            },
            Stage::Group => {
                proof {
                    assert(found(self.groups@)[self.spaces@.len() as int]
                        == self.groups@[self.spaces@.len() as int]@);
                }
                let g = &self.groups[self.spaces.len()];
                let mut wanted: Vec<i32> = Vec::new();
                wanted.push(1);
                wanted.push(4);
                proof {
                    assert(wanted@ =~= seq![1i32, 4i32]);
                }
                Some(
                    LoadCall::Group(
                        proto::GetGroupRequest {
                            request_header: header(),
                            group_id: Some(copy_group(&g.group_id)),
                            fetch_options: wanted,
                        },
                    ),
                )
            },
            Stage::Done => None,
        }
    }

    /// Takes in the reply to a call.
    pub fn take(&mut self, reply: LoadReply, interner: &mut IdInterner)
        requires
            old(self)@.sound(),
        ensures
            (final(self)@, final(interner)@) == after_reply(old(self)@, reply, old(interner)@),
            final(self)@.sound(),
    {
        match reply {
            LoadReply::SelfStatus(x) => self.take_status(x, interner),
            LoadReply::Members(x) => self.take_members(x, interner),
            LoadReply::World(x) => self.take_world(x, interner),
            LoadReply::Page(x) => self.take_page(x, interner),
            LoadReply::CatchUp(x) => self.take_events(x),
            LoadReply::Group(x) => self.take_group(x, interner),
        }
    }

    fn take_status(
        &mut self,
        x: Option<proto::GetSelfUserStatusResponse>,
        interner: &mut IdInterner,
    )
        requires
            old(self)@.sound(),
        ensures
            (final(self)@, final(interner)@) == after_reply(
                old(self)@,
                LoadReply::SelfStatus(x),
                old(interner)@,
            ),
            final(self)@.sound(),
    {
        if self.stage != Stage::SelfStatus {
            return ;
        }
        let id = match &x {
            Some(r) => match &r.user_status {
                Some(s) => match &s.user_id {
                    Some(u) => text_or_empty(&u.id),
                    None => String::new(),
                },
                None => String::new(),
            },
            None => String::new(),
        };
        if self.direct || id.as_str().is_empty() {
            self.me = Some(own_user_of(interner, &id, None));
            self.stage = if self.direct {
                Stage::CatchUp
            } else {
                Stage::World
            };
        } else {
            self.stage = Stage::Members;
        }
        self.self_id = id;
    }

    fn take_members(&mut self, x: Option<proto::GetMembersResponse>, interner: &mut IdInterner)
        requires
            old(self)@.sound(),
        ensures
            (final(self)@, final(interner)@) == after_reply(
                old(self)@,
                LoadReply::Members(x),
                old(interner)@,
            ),
            final(self)@.sound(),
    {
        if self.stage != Stage::Members {
            return ;
        }
        let u = match &x {
            Some(r) => if r.members.len() > 0 {
                match &r.members[0].user {
                    Some(u) => Some(u),
                    None => None,
                }
            } else {
                None
            },
            None => None,
        };
        let me = own_user_of(interner, &self.self_id, u);
        self.me = Some(me);
        self.stage = Stage::World;
    }

    fn take_world(&mut self, x: Option<proto::PaginatedWorldResponse>, interner: &mut IdInterner)
        requires
            old(self)@.sound(),
        ensures
            (final(self)@, final(interner)@) == after_reply(
                old(self)@,
                LoadReply::World(x),
                old(interner)@,
            ),
            final(self)@.sound(),
    {
        if self.stage != Stage::World {
            return ;
        }
        let all = match &x {
            Some(r) => spaces_of_world(r, interner),
            None => {
                let none: Vec<Space> = Vec::new();
                proof {
                    assert(spaces(none@) =~= Seq::empty());
                }
                none
            },
        };
        self.stage = if all.len() == 0 {
            Stage::Page
        } else {
            Stage::Done
        };
        self.spaces = all;
    }

    fn take_page(&mut self, x: Option<String>, interner: &mut IdInterner)
        requires
            old(self)@.sound(),
        ensures
            (final(self)@, final(interner)@) == after_reply(
                old(self)@,
                LoadReply::Page(x),
                old(interner)@,
            ),
            final(self)@.sound(),
    {
        if self.stage != Stage::Page {
            return ;
        }
        let none: Vec<Space> = Vec::new();
        proof {
            assert(spaces(none@) =~= Seq::empty());
        }
        let all = match &x {
            Some(text) => match extract_spaces_from_page(text.as_str(), interner) {
                Ok(InboundEvent::WorldSync { spaces: s, .. }) => s,
                _ => none,
            },
            None => none,
        };
        self.spaces = all;
        self.stage = Stage::Done;
    }

    fn take_events(&mut self, x: Option<proto::CatchUpResponse>)
        requires
            old(self)@.sound(),
        ensures
            forall|pool: Pool|
                (final(self)@, pool) == #[trigger] after_reply(
                    old(self)@,
                    LoadReply::CatchUp(x),
                    pool,
                ),
            final(self)@.sound(),
    {
        if self.stage != Stage::CatchUp {
            return ;
        }
        let all = match &x {
            Some(r) => groups_of_events(r),
            None => {
                let none: Vec<FoundGroup> = Vec::new();
                proof {
                    assert(found(none@) =~= Seq::empty());
                }
                none
            },
        };
        self.stage = if all.len() == 0 {
            Stage::Done
        } else {
            Stage::Group
        };
        self.groups = all;
        self.spaces = Vec::new();
        proof {
            assert(spaces(self.spaces@) =~= Seq::empty());
        }
    }

    fn take_group(&mut self, x: Option<proto::GetGroupResponse>, interner: &mut IdInterner)
        requires
            old(self)@.sound(),
        ensures
            (final(self)@, final(interner)@) == after_reply(
                old(self)@,
                LoadReply::Group(x),
                old(interner)@,
            ),
            final(self)@.sound(),
    {
        if self.stage != Stage::Group {
            return ;
        }
        let ghost done = spaces(self.spaces@);
        let n: usize = self.spaces.len();
        proof {
            assert(found(self.groups@)[n as int] == self.groups@[n as int]@);
        }
        let name = self.groups[n].id.clone();
        let dm = self.groups[n].is_dm;
        let given = match &x {
            Some(r) => match &r.group {
                Some(g) => copy_opt(&g.name),
                None => None,
            },
            None => None,
        };
        let shown = match given {
            Some(s) => s,
            None => name.clone(),
        };
        let s = undated_space(interner, name.as_str(), shown, dm);
        let ghost sv = s@;
        self.spaces.push(s);
        proof {
            assert(spaces(self.spaces@) =~= done.push(sv));
        }
        if self.spaces.len() == self.groups.len() {
            self.stage = Stage::Done;
        }
    }
}

/// How far a loading has come.
pub open spec fn rank(s: Stage) -> int {
    match s {
        Stage::SelfStatus => 0,
        Stage::Members => 1,
        Stage::CatchUp => 2,
        Stage::World => 2,
        Stage::Group => 3,
        Stage::Page => 3,
        Stage::Done => 4,
    }
}

/// The reply is one to the call that the loading asks for.
pub open spec fn fits(s: Stage, r: LoadReply) -> bool {
    match r {
        LoadReply::SelfStatus(_) => s == Stage::SelfStatus,
        LoadReply::Members(_) => s == Stage::Members,
        LoadReply::World(_) => s == Stage::World,
        LoadReply::CatchUp(_) => s == Stage::CatchUp,
        LoadReply::Group(_) => s == Stage::Group,
        LoadReply::Page(_) => s == Stage::Page,
    }
}

/// Loading ends whatever comes back: each reply to a call, a failed one too, moves it on
/// to a later stage, or to the name of the next space.
pub proof fn law_loading_advances(s: LoadV, r: LoadReply, pool: Pool)
    requires
        s.sound(),
        fits(s.stage, r),
    ensures
        ({
            let t = after_reply(s, r, pool).0;
            &&& t.sound()
            &&& rank(t.stage) > rank(s.stage) || (t.stage == Stage::Group && s.stage
                == Stage::Group && t.groups == s.groups && t.spaces.len() == s.spaces.len() + 1)
        }),
{
}

/// A loading that has ended knows the signed-in user, if it knew that user from the
/// stages behind the questions on.
pub proof fn law_signed_in_user_is_kept(s: LoadV, r: LoadReply, pool: Pool)
    requires
        s.sound(),
        rank(s.stage) >= 2 ==> s.me is Some,
    ensures
        rank(after_reply(s, r, pool).0.stage) >= 2 ==> after_reply(s, r, pool).0.me is Some,
{
}

} // verus!
