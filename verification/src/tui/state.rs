//! What the window shows, and where the user is in it.
use vstd::prelude::*;

use crate::text;
use crate::text::{text_opt, utf8_size, within};
use crate::tui::layout::LayoutMode;
use crate::types::ids::{PlatformId, SpaceId, TopicId};

verus! {

broadcast use vstd::string::group_string_axioms;

/// The version that the window shows.
pub const VERSION: &'static str = "0.1.0";

/// Whether keys are commands or text.
#[derive(Copy, Clone, Debug, PartialEq, Eq, Structural)]
pub enum InputMode {
    Normal,
    Insert,
}

/// The state of a connection.
#[derive(Copy, Clone, Debug, PartialEq, Eq, Structural)]
pub enum ConnectionStatus {
    Connected,
    Connecting,
    Reconnecting(u32),
    Disconnected,
}

/// Where the user is.
pub struct TuiState {
    pub layout_mode: LayoutMode,
    pub input_mode: InputMode,
    pub active_space: Option<SpaceId>,
    pub active_thread: Option<TopicId>,
    pub space_cursor: usize,
    pub message_scroll: u16,
    pub input: InputState,
    pub size: (u16, u16),
    pub connections: [ConnectionStatus; 2],
    /// The last error, for the line at the bottom.
    pub last_error: Option<String>,
    /// The spaces whose history has been asked for.
    pub fetched_spaces: Vec<SpaceId>,
    /// Whether the details of the session are shown.
    pub show_status_panel: bool,
    pub session_info: SessionInfo,
}

/// The details of the session.
pub struct SessionInfo {
    pub self_user_name: String,
    pub self_user_id: String,
    pub self_user_email: String,
    pub auth_mode: String,
    pub total_spaces: usize,
    pub total_dms: usize,
    pub total_rooms: usize,
    pub xsrf_present: bool,
    pub browser_channel: String,
    pub platform_version: String,
}

/// The line that is being written. The cursor is a number of bytes.
pub struct InputState {
    pub text: String,
    pub cursor: usize,
}

// ───────────────────────── models ─────────────────────────

/// The mathematical form of an [`InputState`]: what stands before the cursor, and what
/// stands behind it.
#[verifier::ext_equal]
pub ghost struct InputV {
    pub before: Seq<char>,
    pub behind: Seq<char>,
}

/// The mathematical form of a [`SessionInfo`].
#[verifier::ext_equal]
pub ghost struct SessionV {
    pub self_user_name: Seq<char>,
    pub self_user_id: Seq<char>,
    pub self_user_email: Seq<char>,
    pub auth_mode: Seq<char>,
    pub total_spaces: nat,
    pub total_dms: nat,
    pub total_rooms: nat,
    pub xsrf_present: bool,
    pub browser_channel: Seq<char>,
    pub platform_version: Seq<char>,
}

/// The mathematical form of a [`TuiState`].
#[verifier::ext_equal]
pub ghost struct TuiV {
    pub layout_mode: LayoutMode,
    pub input_mode: InputMode,
    pub active_space: Option<SpaceId>,
    pub active_thread: Option<TopicId>,
    pub space_cursor: usize,
    pub message_scroll: u16,
    pub input: InputV,
    pub size: (u16, u16),
    pub connections: Seq<ConnectionStatus>,
    pub last_error: Option<Seq<char>>,
    pub fetched_spaces: Set<SpaceId>,
    pub show_status_panel: bool,
    pub session_info: SessionV,
}

impl View for InputState {
    type V = InputV;

    open spec fn view(&self) -> InputV {
        let before = within(self.text@, self.cursor as nat);
        InputV { before, behind: self.text@.skip(before.len() as int) }
    }
}

impl View for SessionInfo {
    type V = SessionV;

    open spec fn view(&self) -> SessionV {
        SessionV {
            self_user_name: self.self_user_name@,
            self_user_id: self.self_user_id@,
            self_user_email: self.self_user_email@,
            auth_mode: self.auth_mode@,
            total_spaces: self.total_spaces as nat,
            total_dms: self.total_dms as nat,
            total_rooms: self.total_rooms as nat,
            xsrf_present: self.xsrf_present,
            browser_channel: self.browser_channel@,
            platform_version: self.platform_version@,
        }
    }
}

impl View for TuiState {
    type V = TuiV;

    open spec fn view(&self) -> TuiV {
        TuiV {
            layout_mode: self.layout_mode,
            input_mode: self.input_mode,
            active_space: self.active_space,
            active_thread: self.active_thread,
            space_cursor: self.space_cursor,
            message_scroll: self.message_scroll,
            input: self.input@,
            size: self.size,
            connections: self.connections@,
            last_error: text_opt(self.last_error),
            fetched_spaces: self.fetched_spaces@.to_set(),
            show_status_panel: self.show_status_panel,
            session_info: self.session_info@,
        }
    }
}

// ───────────────────────── the line ─────────────────────────

impl InputV {
    /// The whole line.
    pub open spec fn text(self) -> Seq<char> {
        self.before + self.behind
    }

    pub open spec fn empty() -> InputV {
        InputV { before: Seq::empty(), behind: Seq::empty() }
    }

    /// A character is written at the cursor.
    pub open spec fn typed(self, c: char) -> InputV {
        InputV { before: self.before.push(c), ..self }
    }

    /// The character before the cursor is taken away.
    pub open spec fn erased(self) -> InputV {
        if self.before.len() == 0 {
            self
        } else {
            InputV { before: self.before.drop_last(), ..self }
        }
    }

    /// The cursor moves over the character before it.
    pub open spec fn moved_left(self) -> InputV {
        if self.before.len() == 0 {
            self
        } else {
            InputV {
                before: self.before.drop_last(),
                behind: seq![self.before.last()] + self.behind,
            }
        }
    }

    /// The cursor moves over the character behind it.
    pub open spec fn moved_right(self) -> InputV {
        if self.behind.len() == 0 {
            self
        } else {
            InputV {
                before: self.before.push(self.behind.first()),
                behind: self.behind.drop_first(),
            }
        }
    }
}

proof fn lemma_placed(i: InputState, before: Seq<char>, behind: Seq<char>)
    requires
        i.text@ == before + behind,
        i.cursor == utf8_size(before),
    ensures
        i.wf(),
        i@ == (InputV { before, behind }),
{
    let n = before.len() as int;
    assert(i.text@.take(n) =~= before);
    text::lemma_within_beginning(i.text@, n);
    assert(i.text@.skip(n) =~= behind);
}

impl InputState {
    /// The cursor stands between two characters of the text, or at an end of it.
    pub open spec fn wf(self) -> bool {
        utf8_size(within(self.text@, self.cursor as nat)) == self.cursor
    }

    proof fn lemma_parts(self)
        requires
            self.wf(),
        ensures
            self.text@ == self@.before + self@.behind,
            self.cursor == utf8_size(self@.before),
            self@.before.len() <= self.text@.len(),
            self@.before == self.text@.take(self@.before.len() as int),
    {
        text::lemma_within_is_beginning(self.text@, self.cursor as nat);
        assert(self.text@ =~= self@.before + self@.behind);
    }

    /// An empty line.
    pub fn new() -> (r: InputState)
        ensures
            r.wf(),
            r@ == InputV::empty(),
            r.text@ == Seq::<char>::empty(),
            r.cursor == 0,
    {
        let r = InputState { text: String::new(), cursor: 0 };
        proof {
            assert(Seq::<char>::empty() + Seq::<char>::empty() =~= Seq::<char>::empty());
            lemma_placed(r, Seq::empty(), Seq::empty());
        }
        r
    }

    /// What stands before the cursor, and what stands behind it.
    pub fn parts(&self) -> (r: (String, String))
        requires
            self.wf(),
        ensures
            r.0@ == self@.before,
            r.1@ == self@.behind,
    {
        proof {
            self.lemma_parts();
        }
        let before = text::cut_bytes(self.text.as_str(), self.cursor);
        let v = text::chars_of(self.text.as_str());
        let n: usize = text::chars_of(before.as_str()).len();
        let behind = text::string_of(&v, n, v.len());
        proof {
            assert(behind@ =~= self@.behind);
        }
        (before, behind)
    }

    /// Write a character at the cursor.
    pub fn insert(&mut self, c: char)
        requires
            old(self).wf(),
        ensures
            final(self).wf(),
            final(self)@ == old(self)@.typed(c),
            final(self).cursor == old(self).cursor + text::utf8_width(c),
    {
        let (before, behind) = self.parts();
        proof {
            self.lemma_parts();
        }
        let mut t = before;
        t.push(c);
        let ghost start = t@;
        let w: usize = text::width_of(c);
        let size: usize = text::size_of(t.as_str());
        proof {
            assert(start.drop_last() =~= self@.before);
            assert(size == self.cursor + w);
        }
        self.text = text::join2(t.as_str(), behind.as_str());
        self.cursor = size;
        proof {
            lemma_placed(*self, start, behind@);
        }
    }

    /// The number of bytes before the last character before the cursor.
    fn previous(&self) -> (r: (String, usize))
        requires
            self.wf(),
            self.cursor > 0,
        ensures
            self@.before.len() > 0,
            r.0@ == self@.before.drop_last(),
            r.1 == utf8_size(r.0@),
    {
        proof {
            self.lemma_parts();
        }
        let (before, _behind) = self.parts();
        let v = text::chars_of(before.as_str());
        let shorter = text::string_of(&v, 0, v.len() - 1);
        proof {
            assert(shorter@ =~= self@.before.drop_last());
        }
        let size: usize = text::size_of(shorter.as_str());
        (shorter, size)
    }

    /// Take away the character before the cursor.
    pub fn backspace(&mut self)
        requires
            old(self).wf(),
        ensures
            final(self).wf(),
            final(self)@ == old(self)@.erased(),
    {
        proof {
            self.lemma_parts();
        }
        if self.cursor > 0 {
            let (before, size) = self.previous();
            let (_all, behind) = self.parts();
            self.text = text::join2(before.as_str(), behind.as_str());
            self.cursor = size;
            proof {
                lemma_placed(*self, before@, behind@);
            }
        } else {
            proof {
                lemma_empty(self@.before);
            }
        }
    }

    /// Move the cursor over the character before it.
    pub fn left(&mut self)
        requires
            old(self).wf(),
        ensures
            final(self).wf(),
            final(self)@ == old(self)@.moved_left(),
            final(self).text@ == old(self).text@,
    {
        proof {
            self.lemma_parts();
        }
        if self.cursor > 0 {
            let (before, size) = self.previous();
            let ghost v = self@;
            self.cursor = size;
            proof {
                let behind = seq![v.before.last()] + v.behind;
                assert(self.text@ =~= before@ + behind);
                lemma_placed(*self, before@, behind);
            }
        } else {
            proof {
                lemma_empty(self@.before);
            }
        }
    }

    /// Move the cursor over the character behind it.
    pub fn right(&mut self)
        requires
            old(self).wf(),
        ensures
            final(self).wf(),
            final(self)@ == old(self)@.moved_right(),
            final(self).text@ == old(self).text@,
    {
        proof {
            self.lemma_parts();
        }
        let (before, behind) = self.parts();
        let v = text::chars_of(behind.as_str());
        if v.len() > 0 {
            let ghost was = self@;
            let mut t = before;
            t.push(v[0]);
            self.cursor = text::size_of(t.as_str());
            proof {
                assert(self.text@ =~= t@ + was.behind.drop_first());
                lemma_placed(*self, t@, was.behind.drop_first());
            }
        }
    }

    /// Give the line out and begin a new one.
    pub fn take(&mut self) -> (r: String)
        requires
            old(self).wf(),
        ensures
            r@ == old(self).text@,
            r@ == old(self)@.text(),
            final(self).wf(),
            final(self)@ == InputV::empty(),
    {
        proof {
            self.lemma_parts();
        }
        let r = self.text.clone();
        let e = InputState::new();
        self.text = e.text;
        self.cursor = e.cursor;
        proof {
            assert(Seq::<char>::empty() + Seq::<char>::empty() =~= Seq::<char>::empty());
            lemma_placed(*self, Seq::empty(), Seq::empty());
        }
        r
    }
}

proof fn lemma_empty(s: Seq<char>)
    ensures
        utf8_size(s) == 0 ==> s.len() == 0,
{
}

// ───────────────────────── the whole ─────────────────────────

impl SessionV {
    /// Nothing is known of the session.
    pub open spec fn unknown() -> SessionV {
        SessionV {
            self_user_name: Seq::empty(),
            self_user_id: Seq::empty(),
            self_user_email: Seq::empty(),
            auth_mode: "unknown"@,
            total_spaces: 0,
            total_dms: 0,
            total_rooms: 0,
            xsrf_present: false,
            browser_channel: "disabled"@,
            platform_version: VERSION@,
        }
    }
}

impl Default for SessionInfo {
    fn default() -> (r: SessionInfo)
        ensures
            r@ == SessionV::unknown(),
    {
        SessionInfo {
            self_user_name: String::new(),
            self_user_id: String::new(),
            self_user_email: String::new(),
            auth_mode: "unknown".to_owned(),
            total_spaces: 0,
            total_dms: 0,
            total_rooms: 0,
            xsrf_present: false,
            browser_channel: "disabled".to_owned(),
            platform_version: VERSION.to_owned(),
        }
    }
}

impl TuiV {
    /// A window that was just opened.
    pub open spec fn fresh() -> TuiV {
        TuiV {
            layout_mode: LayoutMode::Standard,
            input_mode: InputMode::Normal,
            active_space: None,
            active_thread: None,
            space_cursor: 0,
            message_scroll: 0,
            input: InputV::empty(),
            size: (80, 24),
            connections: seq![ConnectionStatus::Disconnected, ConnectionStatus::Disconnected],
            last_error: None,
            fetched_spaces: Set::empty(),
            show_status_panel: false,
            session_info: SessionV::unknown(),
        }
    }
}

impl TuiState {
    /// The cursor stands between characters, and no space is noted twice.
    pub open spec fn wf(self) -> bool {
        self.input.wf() && self.fetched_spaces@.no_duplicates()
    }

    /// A window that was just opened.
    pub fn new() -> (r: TuiState)
        ensures
            r.wf(),
            r@ == TuiV::fresh(),
    {
        let r = TuiState {
            layout_mode: LayoutMode::Standard,
            input_mode: InputMode::Normal,
            active_space: None,
            active_thread: None,
            space_cursor: 0,
            message_scroll: 0,
            input: InputState::new(),
            size: (80, 24),
            connections: [ConnectionStatus::Disconnected, ConnectionStatus::Disconnected],
            last_error: None,
            fetched_spaces: Vec::new(),
            show_status_panel: false,
            session_info: SessionInfo::default(),
        };
        proof {
            assert(r.fetched_spaces@.to_set() =~= Set::<SpaceId>::empty());
            assert(r.connections@ =~= TuiV::fresh().connections);
        }
        r
    }

    /// The service of the space that is open.
    pub fn active_platform(&self) -> (r: PlatformId)
        ensures
            r == match self.active_space {
                Some(s) => s.platform,
                None => PlatformId::GoogleChat,
            },
    {
        match self.active_space {
            Some(s) => s.platform,
            None => PlatformId::GoogleChat,
        }
    }

    /// Time has passed. Nothing in the window goes by it yet.
    pub fn tick(&mut self)
        ensures
            *final(self) == *old(self),
    {
    }

    /// Whether the history of a space has been asked for.
    pub fn has_fetched(&self, space: SpaceId) -> (r: bool)
        ensures
            r == self@.fetched_spaces.contains(space),
    {
        let mut i: usize = 0;
        while i < self.fetched_spaces.len()
            invariant
                i <= self.fetched_spaces@.len(),
                forall|k: int| 0 <= k < i ==> self.fetched_spaces@[k] != space,
            decreases self.fetched_spaces@.len() - i,
        {
            if self.fetched_spaces[i] == space {
                proof {
                    assert(self.fetched_spaces@.contains(space));
                }
                return true;
            }
            i += 1;
        }
        false
    }
}

impl Default for TuiState {
    fn default() -> (r: TuiState)
        ensures
            r.wf(),
            r@ == TuiV::fresh(),
    {
        TuiState::new()
    }
}

} // verus!
