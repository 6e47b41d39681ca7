//! Signing in: the tokens in the replies, and the wait for the sign-in page.
use vstd::prelude::*;

use crate::error::{field_missing, AuthError};
use crate::googlechat::cookies::BrowserCookie;
use crate::googlechat::reply::text_member;
use crate::json::{Json, JsonV};
use crate::text::{self, holds, natural, texts};

verus! {

broadcast use vstd::string::group_string_axioms;

/// The token in a reply.
pub fn parse_access_token(body: &Json) -> (r: Result<String, AuthError>)
    ensures
        match text_member(body@, "access_token"@) {
            Some(t) => r matches Ok(s) && s@ == t,
            None => field_missing(r, "access_token"@),
        },
{
    let found = match body.member("access_token") {
        Some(v) => v.as_str(),
        None => None,
    };
    match found {
        Some(s) => Ok(s.to_owned()),
        None => Err(AuthError::MissingField("access_token")),
    }
}

/// The seconds that a token is good for: a number, or a text that is one. An hour where
/// there is neither.
pub open spec fn lifetime(j: JsonV) -> u64 {
    match j.member("expiresIn"@) {
        Some(v) => match v.text() {
            Some(t) => match natural(t, u64::MAX as nat) {
                Some(n) => n as u64,
                None => 3600,
            },
            None => match v.unsigned() {
                Some(n) => n,
                None => 3600,
            },
        },
        None => 3600,
    }
}

/// The token in a reply, and the seconds that it is good for.
pub fn parse_dynamite_response(body: &Json) -> (r: Result<(String, u64), AuthError>)
    ensures
        match text_member(body@, "token"@) {
            Some(t) => r matches Ok((s, n)) && s@ == t && n == lifetime(body@),
            None => field_missing(r, "token"@),
        },
{
    let found = match body.member("token") {
        Some(v) => v.as_str(),
        None => None,
    };
    let token = match found {
        Some(s) => s.to_owned(),
        None => return Err(AuthError::MissingField("token")),
    };
    let seconds: u64 = match body.member("expiresIn") {
        Some(v) => match v.as_str() {
            Some(t) => match text::parse_natural(t, u64::MAX) {
                Some(n) => n,
                None => 3600,
            },
            None => match v.as_u64() {
                Some(n) => n,
                None => 3600,
            },
        },
        None => 3600,
    };
    Ok((token, seconds))
}

/// The exchange of tokens is not used with a browser: it always fails.
pub fn exchange_dynamite_token(_access_token: &str) -> (r: Result<(String, u64), AuthError>)
    ensures
        r matches Err(AuthError::DynamiteExchange(m)) && m@ == "not used in browser mode"@,
{
    Err(AuthError::DynamiteExchange("not used in browser mode".to_owned()))
}

// ───────────────────────── the sign-in page ─────────────────────────

/// The address is one of the chat service.
pub open spec fn on_chat(url: Seq<char>) -> bool {
    holds(url, "chat.google.com"@)
}

/// True where the address is one of the chat service.
pub fn is_on_chat(url: &str) -> (r: bool)
    ensures
        r == on_chat(url@),
{
    text::contains(url, "chat.google.com")
}

/// The first address that is one of the chat service, else the first address.
pub open spec fn chat_place(urls: Seq<String>, i: int) -> Option<int>
    decreases urls.len() - i,
{
    if i < 0 || i >= urls.len() {
        if urls.len() > 0 {
            Some(0)
        } else {
            None
        }
    } else if on_chat(urls[i]@) {
        Some(i)
    } else {
        chat_place(urls, i + 1)
    }
}

/// The tab that makes the calls, of tabs with these addresses: the first that shows the
/// chat service, else the first.
pub fn chat_tab(urls: &Vec<String>) -> (r: Option<usize>)
    ensures
        match r {
            Some(i) => chat_place(urls@, 0) == Some(i as int) && i < urls@.len(),
            None => chat_place(urls@, 0) is None && urls@.len() == 0,
        },
{
    let mut i: usize = 0;
    while i < urls.len()
        invariant
            i <= urls@.len(),
            chat_place(urls@, 0) == chat_place(urls@, i as int),
        decreases urls@.len() - i,
    {
        if is_on_chat(urls[i].as_str()) {
            return Some(i);
        }
        i += 1;
    }
    if urls.len() > 0 {
        Some(0)
    } else {
        None
    }
}

/// The wait for the user to sign in.
#[derive(Copy, Clone, Debug, PartialEq, Eq, Structural)]
pub struct LoginWait {
    /// The browser has a saved session, and is not shown.
    pub saved_session: bool,
    /// The page has been on the chat service at some time.
    pub seen_chat: bool,
    /// The window was opened because the saved session had ended.
    pub reopened: bool,
}

/// What comes next while the user signs in.
#[derive(Copy, Clone, Debug, PartialEq, Eq, Structural)]
pub enum LoginStep {
    /// Look again.
    Again,
    /// The user is signed in.
    Done,
    /// Show the window: the saved session has ended.
    Reopen,
    /// The user took too long.
    TimedOut,
}

/// One of the cookies is that of a user who is signed in on the service's domain.
pub open spec fn has_login(cookies: Seq<BrowserCookie>) -> bool {
    exists|i: int|
        0 <= i < cookies.len() && (#[trigger] cookies[i]).name@ == "SID"@ && holds(
            cookies[i].domain@,
            "google.com"@,
        )
}

impl LoginWait {
    /// A wait at its start.
    pub fn new(saved_session: bool) -> (r: LoginWait)
        ensures
            r == (LoginWait { saved_session, seen_chat: false, reopened: false }),
    {
        LoginWait { saved_session, seen_chat: false, reopened: false }
    }

    /// A wait in the window that was opened because the saved session had ended.
    pub fn reopened() -> (r: LoginWait)
        ensures
            r == (LoginWait { saved_session: false, seen_chat: false, reopened: true }),
    {
        LoginWait { saved_session: false, seen_chat: false, reopened: true }
    }

    /// The seconds that the user has: twenty where a saved session should do, else five
    /// minutes.
    pub fn patience(&self) -> (r: u64)
        ensures
            r == if self.saved_session {
                20u64
            } else {
                300u64
            },
    {
        if self.saved_session {
            20
        } else {
            300
        }
    }

    /// What comes next once the time is up.
    pub fn timed_out(&self) -> (r: LoginStep)
        ensures
            r == if self.saved_session && !self.seen_chat {
                LoginStep::Reopen
            } else {
                LoginStep::TimedOut
            },
    {
        if self.saved_session && !self.seen_chat {
            LoginStep::Reopen
        } else {
            LoginStep::TimedOut
        }
    }

    /// What comes next after a look at the page's address and the cookies, none where those
    /// could not be read. The user is signed in once the page is on the
    /// chat service and the cookie of a signed-in user is there. In the window that was
    /// opened anew the page has to be there now; otherwise it is enough that it has been.
    pub fn look(&mut self, url: &str, cookies: Option<&Vec<BrowserCookie>>) -> (r: LoginStep)
        ensures
            *final(self) == (LoginWait {
                seen_chat: on_chat(url@) || (old(self).seen_chat && !old(self).reopened),
                ..*old(self)
            }),
            r == if final(self).seen_chat && cookies is Some && has_login(cookies->0@) {
                LoginStep::Done
            } else {
                LoginStep::Again
            },
    {
        if is_on_chat(url) {
            self.seen_chat = true;
        } else if self.reopened {
            self.seen_chat = false;
        }
        match cookies {
            Some(all) => if self.seen_chat && signed_in(all) {
                LoginStep::Done
            } else {
                LoginStep::Again
            },
            None => LoginStep::Again,
        }
    }
}

fn signed_in(cookies: &Vec<BrowserCookie>) -> (r: bool)
    ensures
        r == has_login(cookies@),
{
    let mut i: usize = 0;
    while i < cookies.len()
        invariant
            i <= cookies@.len(),
            forall|k: int|
                0 <= k < i ==> !((#[trigger] cookies@[k]).name@ == "SID"@ && holds(
                    cookies@[k].domain@,
                    "google.com"@,
                )),
        decreases cookies@.len() - i,
    {
        if text::same(cookies[i].name.as_str(), "SID") && text::contains(
            cookies[i].domain.as_str(),
            "google.com",
        ) {
            return true;
        }
        i += 1;
    }
    false
}

// ───────────────────────── the browser ─────────────────────────

/// The places that the browser is looked for at, in this order.
pub open spec fn chrome_places() -> Seq<Seq<char>> {
    seq![
        "/Applications/Google Chrome.app/Contents/MacOS/Google Chrome"@,
        "/Applications/Chromium.app/Contents/MacOS/Chromium"@,
        "/usr/bin/google-chrome"@,
        "/usr/bin/google-chrome-stable"@,
        "/usr/bin/chromium"@,
        "/usr/bin/chromium-browser"@,
    ]
}

/// The places that the browser is looked for at, in this order.
pub fn chrome_paths() -> (r: Vec<String>)
    ensures
        texts(r@) == chrome_places(),
{
    let mut v: Vec<String> = Vec::new();
    v.push("/Applications/Google Chrome.app/Contents/MacOS/Google Chrome".to_owned());
    v.push("/Applications/Chromium.app/Contents/MacOS/Chromium".to_owned());
    v.push("/usr/bin/google-chrome".to_owned());
    v.push("/usr/bin/google-chrome-stable".to_owned());
    v.push("/usr/bin/chromium".to_owned());
    v.push("/usr/bin/chromium-browser".to_owned());
    proof {
        assert(texts(v@) =~= chrome_places());
    }
    v
}

/// The first of the marks from `i` on that is set.
pub open spec fn first_set(marks: Seq<bool>, i: int) -> Option<int>
    decreases marks.len() - i,
{
    if i < 0 || i >= marks.len() {
        None
    } else if marks[i] {
        Some(i)
    } else {
        first_set(marks, i + 1)
    }
}

/// The first of the marks that is set.
pub fn first_present(present: &Vec<bool>) -> (r: Option<usize>)
    ensures
        match r {
            Some(i) => first_set(present@, 0) == Some(i as int) && i < present@.len(),
            None => first_set(present@, 0) is None,
        },
{
    let mut i: usize = 0;
    while i < present.len()
        invariant
            i <= present@.len(),
            first_set(present@, 0) == first_set(present@, i as int),
        decreases present@.len() - i,
    {
        if present[i] {
            return Some(i);
        }
        i += 1;
    }
    None
}

/// The place of the browser, given at which of the places there is something: the first of
/// them.
pub fn find_chrome(present: &Vec<bool>) -> (r: Result<String, AuthError>)
    ensures
        match first_set(present@, 0) {
            Some(i) => if i < chrome_places().len() {
                r matches Ok(p) && p@ == chrome_places()[i]
            } else {
                r matches Err(AuthError::OAuthFailed(m)) && m@ == "Chrome not found"@
            },
            None => r matches Err(AuthError::OAuthFailed(m)) && m@ == "Chrome not found"@,
        },
{
    let paths = chrome_paths();
    proof {
        assert(texts(paths@).len() == paths@.len());
        assert forall|k: int| 0 <= k < paths@.len() implies (#[trigger] paths@[k])@
            == chrome_places()[k] by {
            assert(texts(paths@)[k] == paths@[k]@);
        }
    }
    match first_present(present) {
        Some(i) => if i < paths.len() {
            Ok(paths[i].clone())
        } else {
            Err(AuthError::OAuthFailed("Chrome not found".to_owned()))
        },
        None => Err(AuthError::OAuthFailed("Chrome not found".to_owned())),
    }
}

} // verus!
