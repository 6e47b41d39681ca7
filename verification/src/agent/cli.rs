//! The command line: what its words ask for.
use vstd::prelude::*;
use vstd::hash_map::StringHashMap;
use vstd::slice::slice_subrange;
use vstd::utf8::encode_utf8;

use crate::agent::server::{map_texts, top_of, value_in, wanted};
use crate::error::{AppError, AuthError};
use crate::percent::{escaped, url_encode};
use crate::text::{
    self, decimal, join2, join3, joined, natural, sides, starts, text_opt, texts, without_prefix,
    within,
};

verus! {

broadcast use vstd::string::group_string_axioms;

/// Where the daemon listens if nothing else is said.
pub const DEFAULT_BIND: &'static str = "127.0.0.1:7800";

// ───────────────────────── flags ─────────────────────────

/// The words of a command line: the flags with their values, and the other words.
pub struct ParsedArgs {
    pub flags: StringHashMap<String>,
    pub positional: Vec<String>,
}

/// The flags and the other words of a command line.
pub ghost struct ArgsV {
    pub flags: Map<Seq<char>, Seq<char>>,
    pub positional: Seq<Seq<char>>,
}

impl View for ParsedArgs {
    type V = ArgsV;

    open spec fn view(&self) -> ArgsV {
        ArgsV { flags: map_texts(self.flags@), positional: texts(self.positional@) }
    }
}

/// The words of a command line from `i` on, behind those already read. A word with two
/// hyphens is a flag: its value stands behind an equals sign in it, or is the next word if
/// that is no flag, or is empty.
pub open spec fn args_from(args: Seq<Seq<char>>, i: int, had: ArgsV) -> ArgsV
    decreases args.len() - i,
{
    if i < 0 || i >= args.len() {
        had
    } else {
        match without_prefix(args[i], "--"@) {
            Some(rest) => match sides(rest, '=') {
                Some((k, v)) => args_from(
                    args,
                    i + 1,
                    ArgsV { flags: had.flags.insert(k, v), ..had },
                ),
                None => if i + 1 < args.len() && !starts(args[i + 1], "--"@) {
                    args_from(
                        args,
                        i + 2,
                        ArgsV { flags: had.flags.insert(rest, args[i + 1]), ..had },
                    )
                } else {
                    args_from(
                        args,
                        i + 1,
                        ArgsV { flags: had.flags.insert(rest, Seq::empty()), ..had },
                    )
                },
            },
            None => args_from(
                args,
                i + 1,
                ArgsV { positional: had.positional.push(args[i]), ..had },
            ),
        }
    }
}

/// The flags and the other words of a command line.
pub open spec fn args_of(args: Seq<Seq<char>>) -> ArgsV {
    args_from(args, 0, ArgsV { flags: Map::empty(), positional: Seq::empty() })
}

/// The flags and the other words of a command line.
pub fn parse_flags(args: &[String]) -> (r: ParsedArgs)
    ensures
        r@ == args_of(texts(args@)),
{
    let ghost all = texts(args@);
    let n: usize = args.len();
    let mut out = ParsedArgs { flags: StringHashMap::new(), positional: Vec::new() };
    let mut i: usize = 0;
    proof {
        assert(out@.flags =~= Map::empty());
        assert(out@.positional =~= Seq::empty());
    }
    while i < n
        invariant
            n == args@.len(),
            i <= n,
            all == texts(args@),
            args_of(all) == args_from(all, i as int, out@),
        decreases n - i,
    {
        let ghost had = out@;
        proof {
            assert(all[i as int] == args@[i as int]@);
            if i + 1 < n {
                assert(all[i + 1] == args@[i + 1]@);
            }
        }
        match text::strip_prefix(args[i].as_str(), "--") {
            Some(rest) => match text::split_once(rest.as_str(), '=') {
                Some((k, v)) => {
                    let ghost kv = k@;
                    let ghost vv = v@;
                    out.flags.insert(k, v);
                    proof {
                        assert(out@.flags =~= had.flags.insert(kv, vv));
                    }
                    i += 1;
                },
                None => {
                    let ghost kv = rest@;
                    if i + 1 < n && !text::starts_with(args[i + 1].as_str(), "--") {
                        let v = args[i + 1].clone();
                        let ghost vv = v@;
                        out.flags.insert(rest, v);
                        proof {
                            assert(out@.flags =~= had.flags.insert(kv, vv));
                        }
                        i += 2;
                    } else {
                        out.flags.insert(rest, String::new());
                        proof {
                            assert(out@.flags =~= had.flags.insert(kv, Seq::empty()));
                        }
                        i += 1;
                    }
                },
            },
            None => {
                let w = args[i].clone();
                let ghost wv = w@;
                let ghost before = out.positional@;
                out.positional.push(w);
                proof {
                    assert(texts(out.positional@) =~= texts(before).push(wv));
                    assert(out@.flags =~= had.flags);
                }
                i += 1;
            },
        }
    }
    out
}

/// The error of a command line.
pub open spec fn refused<T>(r: Result<T, AppError>, message: Seq<char>) -> bool {
    r matches Err(AppError::Auth(AuthError::Http(m))) && m@ == message
}

/// The error of a command line, with this message.
pub fn cli_err(message: &str) -> (r: AppError)
    ensures
        r matches AppError::Auth(AuthError::Http(m)) && m@ == message@,
{
    AppError::Auth(AuthError::Http(message.to_owned()))
}

/// The value of a flag that must be there and not empty.
pub open spec fn needed(a: ArgsV, name: Seq<char>) -> Option<Seq<char>> {
    match value_in(a.flags, name) {
        Some(v) => if v.len() > 0 {
            Some(v)
        } else {
            None
        },
        None => None,
    }
}

/// The value of a flag, if it is there.
fn flag(parsed: &ParsedArgs, name: &str) -> (r: Option<String>)
    ensures
        text_opt(r) == value_in(parsed@.flags, name@),
{
    match parsed.flags.get(name) {
        Some(v) => Some(v.clone()),
        None => None,
    }
}

/// The value of a flag that must be there and not empty.
pub fn require_flag(parsed: &ParsedArgs, name: &str) -> (r: Result<String, AppError>)
    ensures
        match needed(parsed@, name@) {
            Some(v) => r matches Ok(s) && s@ == v,
            None => refused(r, "missing required flag --"@ + name@),
        },
{
    match flag(parsed, name) {
        Some(v) => if v.as_str().is_empty() {
            Err(cli_err(join2("missing required flag --", name).as_str()))
        } else {
            Ok(v)
        },
        None => Err(cli_err(join2("missing required flag --", name).as_str())),
    }
}

// ───────────────────────── commands ─────────────────────────

/// What a command line asks for.
#[derive(Debug)]
pub enum Command {
    /// The window: no command is named.
    Tui,
    Help,
    Serve { addr: String },
    Ask { space: String, text: String, key: Option<String>, json: bool },
    Search { space: String, query: String, top: usize },
    Reply { space: String, topic: String, text: String, key: Option<String>, json: bool },
    Spaces,
    Health,
}

/// The mathematical form of a [`Command`].
pub ghost enum CommandV {
    Tui,
    Help,
    Serve { addr: Seq<char> },
    Ask { space: Seq<char>, text: Seq<char>, key: Option<Seq<char>>, json: bool },
    Search { space: Seq<char>, query: Seq<char>, top: usize },
    Reply {
        space: Seq<char>,
        topic: Seq<char>,
        text: Seq<char>,
        key: Option<Seq<char>>,
        json: bool,
    },
    Spaces,
    Health,
}

impl View for Command {
    type V = CommandV;

    open spec fn view(&self) -> CommandV {
        match *self {
            Command::Tui => CommandV::Tui,
            Command::Help => CommandV::Help,
            Command::Serve { addr } => CommandV::Serve { addr: addr@ },
            Command::Ask { space, text, key, json } => CommandV::Ask {
                space: space@,
                text: text@,
                key: text_opt(key),
                json,
            },
            Command::Search { space, query, top } => CommandV::Search {
                space: space@,
                query: query@,
                top,
            },
            Command::Reply { space, topic, text, key, json } => CommandV::Reply {
                space: space@,
                topic: topic@,
                text: text@,
                key: text_opt(key),
                json,
            },
            Command::Spaces => CommandV::Spaces,
            Command::Health => CommandV::Health,
        }
    }
}

/// Where the daemon is told to listen.
pub open spec fn serve_address(a: ArgsV) -> Seq<char> {
    (match value_in(a.flags, "bind"@) {
        Some(b) => b,
        None => "127.0.0.1"@,
    }) + ":"@ + decimal(
        match value_in(a.flags, "port"@) {
            Some(p) => match natural(p, u16::MAX as nat) {
                Some(n) => n,
                None => 7800,
            },
            None => 7800,
        },
    )
}

/// The other words of a command line, with spaces between.
pub open spec fn words_of(a: ArgsV) -> Seq<char> {
    joined(a.positional, " "@)
}

/// What a command comes to: the command, or the message of the error.
pub open spec fn command_of(name: Seq<char>, a: ArgsV) -> Result<CommandV, Seq<char>> {
    if name == "serve"@ {
        Ok(CommandV::Serve { addr: serve_address(a) })
    } else if name == "ask"@ {
        match needed(a, "space"@) {
            None => Err("missing required flag --"@ + "space"@),
            Some(space) => if words_of(a).len() == 0 {
                Err("missing question text (positional argument)"@)
            } else {
                Ok(
                    CommandV::Ask {
                        space,
                        text: words_of(a),
                        key: value_in(a.flags, "idempotency-key"@),
                        json: a.flags.dom().contains("json"@),
                    },
                )
            },
        }
    } else if name == "search"@ {
        match needed(a, "space"@) {
            None => Err("missing required flag --"@ + "space"@),
            Some(space) => if words_of(a).len() == 0 {
                Err("missing query text (positional argument)"@)
            } else {
                Ok(
                    CommandV::Search {
                        space,
                        query: words_of(a),
                        top: wanted(value_in(a.flags, "top"@)),
                    },
                )
            },
        }
    } else if name == "reply"@ {
        match needed(a, "space"@) {
            None => Err("missing required flag --"@ + "space"@),
            Some(space) => match needed(a, "topic"@) {
                None => Err("missing required flag --"@ + "topic"@),
                Some(topic) => if words_of(a).len() == 0 {
                    Err("missing reply text (positional argument)"@)
                } else {
                    Ok(
                        CommandV::Reply {
                            space,
                            topic,
                            text: words_of(a),
                            key: value_in(a.flags, "idempotency-key"@),
                            json: a.flags.dom().contains("json"@),
                        },
                    )
                },
            },
        }
    } else if name == "spaces"@ {
        Ok(CommandV::Spaces)
    } else if name == "health"@ {
        Ok(CommandV::Health)
    } else if name == "--help"@ || name == "-h"@ || name == "help"@ {
        Ok(CommandV::Help)
    } else {
        Ok(CommandV::Tui)
    }
}

fn join_words(parsed: &ParsedArgs) -> (r: String)
    ensures
        r@ == words_of(parsed@),
{
    proof {
        assert(texts(parsed.positional@).take(parsed.positional@.len() as int) =~= texts(
            parsed.positional@,
        ));
    }
    text::join(&parsed.positional, parsed.positional.len(), " ")
}

fn serve(parsed: &ParsedArgs) -> (r: String)
    ensures
        r@ == serve_address(parsed@),
{
    let port: u64 = match flag(parsed, "port") {
        Some(p) => match text::parse_natural(p.as_str(), 65535) {
            Some(n) => n,
            None => 7800,
        },
        None => 7800,
    };
    let bind = match flag(parsed, "bind") {
        Some(b) => b,
        None => "127.0.0.1".to_owned(),
    };
    join3(bind.as_str(), ":", text::show(port).as_str())
}

fn ask(parsed: &ParsedArgs) -> (r: Result<Command, AppError>)
    ensures
        outcome(r, command_of("ask"@, parsed@)),
{
    proof {
        reveal_strlit("serve");
        reveal_strlit("ask");
        assert("serve"@.len() != "ask"@.len());
    }
    let space = match require_flag(parsed, "space") {
        Ok(s) => s,
        Err(e) => return Err(e),
    };
    let text = join_words(parsed);
    if text.as_str().is_empty() {
        return Err(cli_err("missing question text (positional argument)"));
    }
    Ok(
        Command::Ask {
            space,
            text,
            key: flag(parsed, "idempotency-key"),
            json: parsed.flags.contains_key("json"),
        },
    )
}

fn search(parsed: &ParsedArgs) -> (r: Result<Command, AppError>)
    ensures
        outcome(r, command_of("search"@, parsed@)),
{
    proof {
        reveal_strlit("serve");
        reveal_strlit("ask");
        reveal_strlit("search");
        assert("serve"@.len() != "search"@.len());
        assert("ask"@.len() != "search"@.len());
    }
    let space = match require_flag(parsed, "space") {
        Ok(s) => s,
        Err(e) => return Err(e),
    };
    let query = join_words(parsed);
    if query.as_str().is_empty() {
        return Err(cli_err("missing query text (positional argument)"));
    }
    Ok(Command::Search { space, query, top: top_of(flag(parsed, "top")) })
}

fn reply(parsed: &ParsedArgs) -> (r: Result<Command, AppError>)
    ensures
        outcome(r, command_of("reply"@, parsed@)),
{
    proof {
        reveal_strlit("serve");
        reveal_strlit("ask");
        reveal_strlit("search");
        reveal_strlit("reply");
        assert("serve"@[0] != "reply"@[0]);
        assert("ask"@.len() != "reply"@.len());
        assert("search"@.len() != "reply"@.len());
    }
    let space = match require_flag(parsed, "space") {
        Ok(s) => s,
        Err(e) => return Err(e),
    };
    let topic = match require_flag(parsed, "topic") {
        Ok(s) => s,
        Err(e) => return Err(e),
    };
    let text = join_words(parsed);
    if text.as_str().is_empty() {
        return Err(cli_err("missing reply text (positional argument)"));
    }
    Ok(
        Command::Reply {
            space,
            topic,
            text,
            key: flag(parsed, "idempotency-key"),
            json: parsed.flags.contains_key("json"),
        },
    )
}

/// The result is what the command comes to.
pub open spec fn outcome(r: Result<Command, AppError>, want: Result<CommandV, Seq<char>>) -> bool {
    match want {
        Ok(c) => r matches Ok(x) && x@ == c,
        Err(m) => refused(r, m),
    }
}

/// What a command line asks for, or what is wrong with it. A line that begins with no
/// command asks for the window.
pub fn dispatch(args: &[String]) -> (r: Result<Command, AppError>)
    ensures
        outcome(
            r,
            if args@.len() == 0 {
                Ok(CommandV::Tui)
            } else {
                command_of(args@[0]@, args_of(texts(args@.subrange(1, args@.len() as int))))
            },
        ),
{
    let n: usize = args.len();
    if n == 0 {
        return Ok(Command::Tui);
    }
    let rest = slice_subrange(args, 1, n);
    let name = args[0].as_str();
    let parsed = parse_flags(rest);
    if text::same(name, "serve") {
        Ok(Command::Serve { addr: serve(&parsed) })
    } else if text::same(name, "ask") {
        ask(&parsed)
    } else if text::same(name, "search") {
        search(&parsed)
    } else if text::same(name, "reply") {
        reply(&parsed)
    } else if text::same(name, "spaces") {
        Ok(Command::Spaces)
    } else if text::same(name, "health") {
        Ok(Command::Health)
    } else if text::same(name, "--help") || text::same(name, "-h") || text::same(name, "help") {
        Ok(Command::Help)
    } else {
        Ok(Command::Tui)
    }
}

// ───────────────────────── calls to the daemon ─────────────────────────

/// The address of the daemon, from the path of a request.
pub fn daemon_url(endpoint: &str) -> (r: String)
    ensures
        r@ == "http://"@ + DEFAULT_BIND@ + endpoint@,
{
    join3("http://", DEFAULT_BIND, endpoint)
}

/// The path of a request that posts a question.
pub open spec fn question_path(space: Seq<char>) -> Seq<char> {
    "/v1/spaces/"@ + space + "/questions"@
}

/// The query of a search.
pub open spec fn search_query(query: Seq<char>, top: usize) -> Seq<char> {
    "q="@ + escaped(encode_utf8(query)) + "&top="@ + decimal(top as nat)
}

/// The path of a search.
pub open spec fn search_path(space: Seq<char>, query: Seq<char>, top: usize) -> Seq<char> {
    "/v1/spaces/"@ + space + "/threads/search?"@ + search_query(query, top)
}

/// The path of a request that posts an answer.
pub open spec fn answer_path(topic: Seq<char>) -> Seq<char> {
    "/v1/threads/"@ + topic + "/reply"@
}

/// The path of a request that posts a question.
pub fn ask_endpoint(space: &str) -> (r: String)
    ensures
        r@ == question_path(space@),
{
    join3("/v1/spaces/", space, "/questions")
}

/// The query of a search.
pub fn query_of(query: &str, top: usize) -> (r: String)
    ensures
        r@ == search_query(query@, top),
{
    let mut out = join3("q=", url_encode(query).as_str(), "&top=");
    out.append(text::show(top as u64).as_str());
    out
}

/// The path of a search.
pub fn search_endpoint(space: &str, query: &str, top: usize) -> (r: String)
    ensures
        r@ == search_path(space@, query@, top),
{
    let mut out = join3("/v1/spaces/", space, "/threads/search?");
    out.append(query_of(query, top).as_str());
    out
}

/// The path of a request that posts an answer.
pub fn reply_endpoint(topic: &str) -> (r: String)
    ensures
        r@ == answer_path(topic@),
{
    join3("/v1/threads/", topic, "/reply")
}

/// The error of a call to the daemon that failed.
pub fn call_error(method: &str, endpoint: &str, message: &str) -> (r: AppError)
    ensures
        r matches AppError::Auth(AuthError::Http(m)) && m@ == "HTTP "@ + method@ + " "@ + endpoint@
            + ": "@ + message@,
{
    let mut m = join3("HTTP ", method, " ");
    m.append(endpoint);
    m.append(": ");
    m.append(message);
    cli_err(m.as_str())
}

/// The error of a reply of the daemon that is no JSON, with its first two hundred bytes.
pub fn reply_error(reply: &str, message: &str) -> (r: AppError)
    ensures
        r matches AppError::Auth(AuthError::Http(m)) && m@ == "parse JSON ("@ + within(reply@, 200)
            + "\u{2026}): "@ + message@,
{
    let shown = text::cut_bytes(reply, 200);
    let head = join3("parse JSON (", shown.as_str(), "\u{2026}): ");
    let m = join2(head.as_str(), message);
    cli_err(m.as_str())
}

} // verus!
