//! The configuration: its parts, what stands where nothing is said, and the names of the
//! files that credentials are kept in.
use vstd::prelude::*;

use crate::text;
use crate::types::ids::PlatformId;

verus! {

broadcast use vstd::string::group_string_axioms;

#[derive(Debug)]
pub struct Config {
    pub general: GeneralConfig,
    pub platforms: Vec<PlatformConfig>,
    pub theme: ThemeConfig,
}

#[derive(Debug)]
pub struct GeneralConfig {
    pub tick_rate_ms: u64,
    pub default_layout: String,
    pub log_level: String,
}

/// A service to connect to.
#[derive(Debug)]
pub struct PlatformConfig {
    pub kind: PlatformKind,
    pub account: Option<String>,
    pub client_id: Option<String>,
    pub client_secret: Option<String>,
}

#[derive(Copy, Clone, Debug, PartialEq, Eq, Structural)]
pub enum PlatformKind {
    GoogleChat,
    Slack,
}

/// Colours, by name.
#[derive(Debug)]
pub struct ThemeConfig {
    pub space_list_bg: Option<String>,
    pub active_space_fg: Option<String>,
    pub message_name_fg: Option<String>,
    pub timestamp_fg: Option<String>,
}

impl PlatformKind {
    /// The service that is meant.
    pub fn id(self) -> (r: PlatformId)
        ensures
            r == match self {
                PlatformKind::GoogleChat => PlatformId::GoogleChat,
                PlatformKind::Slack => PlatformId::Slack,
            },
    {
        match self {
            PlatformKind::GoogleChat => PlatformId::GoogleChat,
            PlatformKind::Slack => PlatformId::Slack,
        }
    }
}

impl GeneralConfig {
    /// What stands where nothing is said.
    pub open spec fn is_default(self) -> bool {
        &&& self.tick_rate_ms == 100
        &&& self.default_layout@ == "standard"@
        &&& self.log_level@ == "info"@
    }
}

impl Default for GeneralConfig {
    fn default() -> (r: GeneralConfig)
        ensures
            r.is_default(),
    {
        GeneralConfig {
            tick_rate_ms: 100,
            default_layout: "standard".to_owned(),
            log_level: "info".to_owned(),
        }
    }
}

impl Default for ThemeConfig {
    fn default() -> (r: ThemeConfig)
        ensures
            r == (ThemeConfig {
                space_list_bg: None,
                active_space_fg: None,
                message_name_fg: None,
                timestamp_fg: None,
            }),
    {
        ThemeConfig {
            space_list_bg: None,
            active_space_fg: None,
            message_name_fg: None,
            timestamp_fg: None,
        }
    }
}

impl Config {
    /// The configuration where there is no file.
    pub fn default_config() -> (r: Config)
        ensures
            r.general.is_default(),
            r.platforms@.len() == 0,
            r.theme == (ThemeConfig {
                space_list_bg: None,
                active_space_fg: None,
                message_name_fg: None,
                timestamp_fg: None,
            }),
    {
        Config {
            general: GeneralConfig::default(),
            platforms: Vec::new(),
            theme: ThemeConfig::default(),
        }
    }
}

// ───────────────────────── credentials ─────────────────────────

/// A letter or a digit, of any script.
pub uninterp spec fn alphanumeric(c: char) -> bool;

/// `char::is_alphanumeric`. A hyphen, an underscore, a colon, a slash, a full stop, an at sign
/// and a space are none.
#[verifier::external_body]
fn is_alphanumeric(c: char) -> (r: bool)
    ensures
        r == alphanumeric(c) && (c == '-' || c == '_' || c == ':' || c == '/' || c == '.' || c == '@'
            || c == ' ' ==> !r),
{
    c.is_alphanumeric()
}

/// A character that may stand in the name of a file.
pub open spec fn safe_char(c: char) -> bool {
    alphanumeric(c) || c == '_' || c == '-'
}

/// The name of a file for a key: what may not stand in it is an underscore.
pub open spec fn safe_name(key: Seq<char>) -> Seq<char> {
    key.map_values(
        |c: char|
            if safe_char(c) {
                c
            } else {
                '_'
            },
    )
}

/// The name of the file that the credential with this key is kept in. No sign that
/// separates the parts of a path stands in it.
pub fn credential_name(key: &str) -> (r: String)
    ensures
        r@ == safe_name(key@),
        forall|i: int|
            0 <= i < r@.len() ==> #[trigger] r@[i] != '/' && r@[i] != ':' && r@[i] != '.' && r@[i]
                != '@' && r@[i] != ' ',
{
    let v = text::chars_of(key);
    let mut out = String::new();
    let mut i: usize = 0;
    while i < v.len()
        invariant
            i <= v@.len(),
            v@ == key@,
            out@ == safe_name(key@).take(i as int),
            forall|k: int|
                0 <= k < i ==> #[trigger] out@[k] != '/' && out@[k] != ':' && out@[k] != '.' && out@[k]
                    != '@' && out@[k] != ' ',
        decreases v@.len() - i,
    {
        let c: char = v[i];
        let ghost before = out@;
        if is_alphanumeric(c) || c == '_' || c == '-' {
            out.push(c);
        } else {
            out.push('_');
        }
        proof {
            assert(safe_name(key@).take(i + 1) =~= before.push(safe_name(key@)[i as int]));
        }
        i += 1;
    }
    proof {
        assert(safe_name(key@).take(v@.len() as int) =~= safe_name(key@));
    }
    out
}

/// The names keep their length, and what was safe stays as it was.
pub proof fn law_safe_name_keeps_safe_characters(key: Seq<char>, i: int)
    requires
        0 <= i < key.len(),
    ensures
        safe_name(key).len() == key.len(),
        safe_char(key[i]) ==> safe_name(key)[i] == key[i],
        !safe_char(key[i]) ==> safe_name(key)[i] == '_',
{
}

} // verus!
