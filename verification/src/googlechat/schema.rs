//! The fields of protobuf messages, read from the text of a `.proto` file.
//!
//! The reader knows the part of the proto2 language that the chat service's
//! file uses, one declaration to a line. It goes over the lines twice: first
//! for the names of messages and enums, then for the fields, whose types are
//! resolved against those names. A field's type is found by its number, and its
//! number by its name.
use vstd::prelude::*;
use vstd::hash_set::StringHashSet;

use crate::text::{self, find, holds, joined, lines, natural, starts, trimmed, words};

verus! {

broadcast use vstd::string::group_string_axioms;

/// What a field holds, as far as the conversion from pblite needs to know.
#[derive(Debug, PartialEq, Eq)]
pub enum FieldType {
    /// An integer.
    Varint,
    /// A string.
    String,
    /// Raw bytes.
    Bytes,
    /// A boolean.
    Bool,
    /// An enum, written as an integer.
    Enum,
    /// A message of the type named.
    Message(String),
    /// Any number of messages of the type named.
    RepeatedMessage(String),
    /// Any number of integers.
    RepeatedVarint,
    /// Any number of strings.
    RepeatedString,
    /// A floating point number.
    Double,
}

/// The mathematical form of a [`FieldType`].
pub ghost enum FieldKind {
    Varint,
    String,
    Bytes,
    Bool,
    Enum,
    Message(Seq<char>),
    RepeatedMessage(Seq<char>),
    RepeatedVarint,
    RepeatedString,
    Double,
}

impl View for FieldType {
    type V = FieldKind;

    open spec fn view(&self) -> FieldKind {
        match *self {
            FieldType::Varint => FieldKind::Varint,
            FieldType::String => FieldKind::String,
            FieldType::Bytes => FieldKind::Bytes,
            FieldType::Bool => FieldKind::Bool,
            FieldType::Enum => FieldKind::Enum,
            FieldType::Message(m) => FieldKind::Message(m@),
            FieldType::RepeatedMessage(m) => FieldKind::RepeatedMessage(m@),
            FieldType::RepeatedVarint => FieldKind::RepeatedVarint,
            FieldType::RepeatedString => FieldKind::RepeatedString,
            FieldType::Double => FieldKind::Double,
        }
    }
}

impl Clone for FieldType {
    fn clone(&self) -> (r: FieldType)
        ensures
            r@ == self@,
    {
        match self {
            FieldType::Varint => FieldType::Varint,
            FieldType::String => FieldType::String,
            FieldType::Bytes => FieldType::Bytes,
            FieldType::Bool => FieldType::Bool,
            FieldType::Enum => FieldType::Enum,
            FieldType::Message(m) => FieldType::Message(m.clone()),
            FieldType::RepeatedMessage(m) => FieldType::RepeatedMessage(m.clone()),
            FieldType::RepeatedVarint => FieldType::RepeatedVarint,
            FieldType::RepeatedString => FieldType::RepeatedString,
            FieldType::Double => FieldType::Double,
        }
    }
}

pub type Table = Map<(Seq<char>, u32), FieldKind>;

pub type NumberTable = Map<(Seq<char>, Seq<char>), u32>;

/// The field types of messages, by the name of the message and the number of
/// the field, and the numbers of the fields, by the names of both.
pub struct ProtoSchema {
    entries: Vec<(String, u32, FieldType)>,
    numbers: Vec<(String, String, u32)>,
}

/// The table that a list of entries makes, the later ones over the earlier.
pub open spec fn table(es: Seq<(String, u32, FieldType)>) -> Table
    decreases es.len(),
{
    if es.len() == 0 {
        Map::empty()
    } else {
        table(es.drop_last()).insert((es.last().0@, es.last().1), es.last().2@)
    }
}

/// The numbers that a list of fields has, the later ones over the earlier.
pub open spec fn number_table(es: Seq<(String, String, u32)>) -> NumberTable
    decreases es.len(),
{
    if es.len() == 0 {
        Map::empty()
    } else {
        number_table(es.drop_last()).insert((es.last().0@, es.last().1@), es.last().2)
    }
}

impl View for ProtoSchema {
    type V = Table;

    closed spec fn view(&self) -> Table {
        table(self.entries@)
    }
}

impl ProtoSchema {
    /// The numbers of the fields, by the full name of the message and the name of
    /// the field.
    pub closed spec fn numbers(&self) -> NumberTable {
        number_table(self.numbers@)
    }
}

// ───────────────────────── lines ─────────────────────────

/// A line without its comment and the white characters round it.
pub open spec fn cleaned(line: Seq<char>) -> Seq<char> {
    let t = trimmed(line);
    match find(t, "//"@) {
        Some(i) => trimmed(t.take(i)),
        None => t,
    }
}

pub open spec fn count(s: Seq<char>, c: char) -> nat
    decreases s.len(),
{
    if s.len() == 0 {
        0
    } else {
        count(s.drop_last(), c) + if s.last() == c {
            1nat
        } else {
            0
        }
    }
}

/// The first word after the keyword `k`, empty where there is none.
pub open spec fn name_after(line: Seq<char>, k: Seq<char>) -> Seq<char> {
    let w = words(text::after(line, k.len() as int));
    if w.len() > 0 {
        w[0]
    } else {
        Seq::empty()
    }
}

pub open spec fn is_enum(line: Seq<char>) -> bool {
    starts(line, "enum "@)
}

pub open spec fn is_message(line: Seq<char>) -> bool {
    starts(line, "message "@)
}

// ───────────────────────── scopes ─────────────────────────

/// Where in the file a line stands: the messages that are open, each with the
/// number of other braces open in it, and the braces open in an enum.
pub ghost struct Scope {
    pub stack: Seq<(Seq<char>, nat)>,
    pub in_enum: nat,
}

pub open spec fn capped(n: int) -> nat {
    if n > usize::MAX {
        usize::MAX as nat
    } else if n < 0 {
        0
    } else {
        n as nat
    }
}

/// `k` closing braces: each closes a brace of the innermost message, or the
/// message itself.
pub open spec fn closed(stack: Seq<(Seq<char>, nat)>, k: nat) -> Seq<(Seq<char>, nat)>
    decreases k,
{
    if k == 0 || stack.len() == 0 {
        stack
    } else if stack.last().1 == 0 {
        closed(stack.drop_last(), (k - 1) as nat)
    } else {
        closed(
            stack.update(stack.len() - 1, (stack.last().0, (stack.last().1 - 1) as nat)),
            (k - 1) as nat,
        )
    }
}

/// Where the line behind `line` stands.
pub open spec fn scope_after(sc: Scope, line: Seq<char>) -> Scope {
    if line.len() == 0 {
        sc
    } else if sc.in_enum > 0 {
        Scope {
            in_enum: capped(
                capped((sc.in_enum + count(line, '{')) as int) - count(line, '}'),
            ),
            ..sc
        }
    } else if is_enum(line) {
        if holds(line, "{"@) && !holds(line, "}"@) {
            Scope { in_enum: 1, ..sc }
        } else {
            sc
        }
    } else if is_message(line) {
        let name = name_after(line, "message "@);
        if name.len() > 0 {
            Scope { stack: sc.stack.push((name, 0)), ..sc }
        } else {
            sc
        }
    } else if sc.stack.len() > 0 {
        let opened = sc.stack.update(
            sc.stack.len() - 1,
            (sc.stack.last().0, capped((sc.stack.last().1 + count(line, '{')) as int)),
        );
        Scope { stack: closed(opened, count(line, '}')), ..sc }
    } else {
        sc
    }
}

/// The full name of the message that `n` open messages lead to.
pub open spec fn path(stack: Seq<(Seq<char>, nat)>, n: int) -> Seq<char> {
    joined(stack.take(n).map_values(|e: (Seq<char>, nat)| e.0), "."@)
}

/// `name` as seen from inside the first `n` open messages.
pub open spec fn qualified(stack: Seq<(Seq<char>, nat)>, n: int, name: Seq<char>) -> Seq<char> {
    let prefix = path(stack, n);
    if prefix.len() == 0 {
        name
    } else {
        prefix + "."@ + name
    }
}

pub open spec fn start() -> Scope {
    Scope { stack: Seq::empty(), in_enum: 0 }
}

// ───────────────────────── names ─────────────────────────

/// The names that a file declares.
pub ghost struct Names {
    pub messages: Set<Seq<char>>,
    pub enums: Set<Seq<char>>,
}

/// The names known behind a line that stands at `sc`.
pub open spec fn names_after(sc: Scope, line: Seq<char>, known: Names) -> Names {
    if line.len() == 0 || sc.in_enum > 0 {
        known
    } else if is_enum(line) {
        let name = name_after(line, "enum "@);
        if name.len() == 0 {
            known
        } else if sc.stack.len() == 0 {
            Names { enums: known.enums.insert(name), ..known }
        } else {
            Names {
                enums: known.enums.insert(name).insert(
                    path(sc.stack, sc.stack.len() as int) + "."@ + name,
                ),
                ..known
            }
        }
    } else if is_message(line) {
        let name = name_after(line, "message "@);
        if name.len() == 0 {
            known
        } else {
            let stack = sc.stack.push((name, 0));
            Names {
                messages: known.messages.insert(path(stack, stack.len() as int)).insert(name),
                ..known
            }
        }
    } else {
        known
    }
}

/// Where the first `n` lines lead.
pub open spec fn scope_at(ls: Seq<Seq<char>>, n: int) -> Scope
    decreases n,
{
    if n <= 0 {
        start()
    } else {
        scope_after(scope_at(ls, n - 1), cleaned(ls[n - 1]))
    }
}

/// The names that the first `n` lines declare.
pub open spec fn names_in(ls: Seq<Seq<char>>, n: int) -> Names
    decreases n,
{
    if n <= 0 {
        Names { messages: Set::empty(), enums: Set::empty() }
    } else {
        names_after(scope_at(ls, n - 1), cleaned(ls[n - 1]), names_in(ls, n - 1))
    }
}

// ───────────────────────── fields ─────────────────────────

/// What a type name stands for.
pub ghost enum Resolved {
    Enum,
    Message(Seq<char>),
    Unknown,
}

/// What `name` stands for inside the first `n` open messages: the nearest enum
/// or message of that name, from the innermost message outwards.
pub open spec fn resolved(
    stack: Seq<(Seq<char>, nat)>,
    n: int,
    name: Seq<char>,
    known: Names,
) -> Resolved
    decreases n,
{
    let full = qualified(stack, n, name);
    if known.enums.contains(full) {
        Resolved::Enum
    } else if known.messages.contains(full) {
        Resolved::Message(full)
    } else if n <= 0 {
        Resolved::Unknown
    } else {
        resolved(stack, n - 1, name, known)
    }
}

pub open spec fn integer_type(name: Seq<char>) -> bool {
    ||| name == "int32"@
    ||| name == "int64"@
    ||| name == "uint32"@
    ||| name == "uint64"@
    ||| name == "sint32"@
    ||| name == "sint64"@
    ||| name == "fixed32"@
    ||| name == "fixed64"@
    ||| name == "sfixed32"@
    ||| name == "sfixed64"@
}

/// What a field of type `name` holds.
pub open spec fn kind_of(
    stack: Seq<(Seq<char>, nat)>,
    name: Seq<char>,
    repeated: bool,
    known: Names,
) -> FieldKind {
    if integer_type(name) {
        if repeated {
            FieldKind::RepeatedVarint
        } else {
            FieldKind::Varint
        }
    } else if name == "bool"@ {
        if repeated {
            FieldKind::RepeatedVarint
        } else {
            FieldKind::Bool
        }
    } else if name == "string"@ {
        if repeated {
            FieldKind::RepeatedString
        } else {
            FieldKind::String
        }
    } else if name == "bytes"@ {
        FieldKind::Bytes
    } else if name == "double"@ || name == "float"@ {
        FieldKind::Double
    } else {
        match resolved(stack, stack.len() as int, name, known) {
            Resolved::Enum => if repeated {
                FieldKind::RepeatedVarint
            } else {
                FieldKind::Enum
            },
            Resolved::Message(full) => if repeated {
                FieldKind::RepeatedMessage(full)
            } else {
                FieldKind::Message(full)
            },
            Resolved::Unknown => if repeated {
                FieldKind::RepeatedMessage(name)
            } else {
                FieldKind::Message(name)
            },
        }
    }
}

/// The number at the end of a field declaration.
pub open spec fn field_number(word: Seq<char>) -> Option<nat> {
    natural(text::without_trailing(text::without_trailing(word, ';'), ','), u32::MAX as nat)
}

/// The number of the field that a line declares: a label, a type, a name, an
/// equals sign and the number.
pub open spec fn declared_number(line: Seq<char>) -> Option<nat> {
    let w = words(line);
    if w.len() < 5 || w[3] != "="@ {
        None
    } else if w[0] != "optional"@ && w[0] != "required"@ && w[0] != "repeated"@ {
        None
    } else {
        field_number(w[4])
    }
}

/// The table behind a line that leads to `stack`: the field that the line
/// declares is known by the full name of its message, and by its short name
/// unless that has the field already.
pub open spec fn fields_after(
    stack: Seq<(Seq<char>, nat)>,
    line: Seq<char>,
    known: Names,
    t: Table,
) -> Table {
    let w = words(line);
    match declared_number(line) {
        Some(num) => if stack.len() == 0 {
            t
        } else {
            let kind = kind_of(stack, w[1], w[0] == "repeated"@, known);
            let full = path(stack, stack.len() as int);
            let leaf = stack.last().0;
            let t1 = t.insert((full, num as u32), kind);
            if leaf != full && !t1.dom().contains((leaf, num as u32)) {
                t1.insert((leaf, num as u32), kind)
            } else {
                t1
            }
        },
        None => t,
    }
}

/// The numbers known behind a line that leads to `stack`: the field that the line
/// declares has its number under the full name of its message.
pub open spec fn numbers_after(
    stack: Seq<(Seq<char>, nat)>,
    line: Seq<char>,
    t: NumberTable,
) -> NumberTable {
    match declared_number(line) {
        Some(num) => if stack.len() == 0 {
            t
        } else {
            t.insert((path(stack, stack.len() as int), words(line)[2]), num as u32)
        },
        None => t,
    }
}

/// A line that declares no enum and no message, and stands in no enum.
pub open spec fn may_declare_field(sc: Scope, line: Seq<char>) -> bool {
    line.len() > 0 && sc.in_enum == 0 && !is_enum(line) && !is_message(line)
}

/// The fields that the first `n` lines declare.
pub open spec fn fields_in(ls: Seq<Seq<char>>, n: int, known: Names) -> Table
    decreases n,
{
    if n <= 0 {
        Map::empty()
    } else {
        let line = cleaned(ls[n - 1]);
        let t = fields_in(ls, n - 1, known);
        if may_declare_field(scope_at(ls, n - 1), line) {
            fields_after(scope_at(ls, n).stack, line, known, t)
        } else {
            t
        }
    }
}

/// The field types that the text of a `.proto` file declares.
pub open spec fn declared(content: Seq<char>) -> Table {
    let ls = lines(content);
    fields_in(ls, ls.len() as int, names_in(ls, ls.len() as int))
}

/// The numbers of the fields that the first `n` lines declare.
pub open spec fn numbers_in(ls: Seq<Seq<char>>, n: int) -> NumberTable
    decreases n,
{
    if n <= 0 {
        Map::empty()
    } else {
        let line = cleaned(ls[n - 1]);
        let t = numbers_in(ls, n - 1);
        if may_declare_field(scope_at(ls, n - 1), line) {
            numbers_after(scope_at(ls, n).stack, line, t)
        } else {
            t
        }
    }
}

/// The numbers of the fields that the text of a `.proto` file declares.
pub open spec fn numbered(content: Seq<char>) -> NumberTable {
    let ls = lines(content);
    numbers_in(ls, ls.len() as int)
}

proof fn lemma_numbered_typed(
    ls: Seq<Seq<char>>,
    n: int,
    known: Names,
    message: Seq<char>,
    field: Seq<char>,
)
    ensures
        numbers_in(ls, n).dom().contains((message, field)) ==> fields_in(
            ls,
            n,
            known,
        ).dom().contains((message, numbers_in(ls, n)[(message, field)])),
    decreases n,
{
    if n > 0 {
        lemma_numbered_typed(ls, n - 1, known, message, field);
    }
}

/// A field whose number is known by its name has a type under that number: what is
/// written by name can be read by number.
pub proof fn law_a_numbered_field_has_a_type(
    content: Seq<char>,
    message: Seq<char>,
    field: Seq<char>,
)
    requires
        numbered(content).dom().contains((message, field)),
    ensures
        declared(content).dom().contains((message, numbered(content)[(message, field)])),
{
    let ls = lines(content);
    lemma_numbered_typed(ls, ls.len() as int, names_in(ls, ls.len() as int), message, field);
}

// ───────────────────────── reading ─────────────────────────

pub open spec fn stack_view(s: Seq<(String, usize)>) -> Seq<(Seq<char>, nat)> {
    s.map_values(|e: (String, usize)| (e.0@, e.1 as nat))
}

struct Reader {
    stack: Vec<(String, usize)>,
    in_enum: usize,
}

impl Reader {
    spec fn scope(self) -> Scope {
        Scope { stack: stack_view(self.stack@), in_enum: self.in_enum as nat }
    }
}

fn clean(line: &str) -> (r: String)
    ensures
        r@ == cleaned(line@),
{
    let t = text::trim(line);
    match text::find_str(t.as_str(), "//") {
        Some(i) => {
            let head = text::cut(t.as_str(), 0, i);
            proof {
                assert(head@ =~= t@.take(i as int));
            }
            text::trim(head.as_str())
        },
        None => t,
    }
}

fn count_char(s: &str, c: char) -> (r: usize)
    ensures
        r == count(s@, c),
{
    let v = text::chars_of(s);
    let mut n: usize = 0;
    let mut i: usize = 0;
    while i < v.len()
        invariant
            i <= v@.len(),
            n <= i,
            n == count(v@.take(i as int), c),
        decreases v@.len() - i,
    {
        proof {
            assert(v@.take(i + 1).drop_last() =~= v@.take(i as int));
        }
        if v[i] == c {
            n += 1;
        }
        i += 1;
    }
    proof {
        assert(v@.take(v@.len() as int) =~= v@);
    }
    n
}

fn first_word_after(line: &str, k: &str) -> (r: String)
    requires
        starts(line@, k@),
    ensures
        r@ == name_after(line@, k@),
{
    match text::strip_prefix(line, k) {
        Some(rest) => {
            let w = text::split_whitespace(rest.as_str());
            proof {
                assert(rest@ == text::after(line@, k@.len() as int));
                if w@.len() > 0 {
                    assert(text::texts(w@)[0] == w@[0]@);
                }
                assert(text::texts(w@).len() == w@.len());
            }
            if w.len() > 0 {
                w[0].clone()
            } else {
                String::new()
            }
        },
        None => String::new(),
    }
}

impl Reader {
    fn step(&mut self, line: &str)
        ensures
            final(self).scope() == scope_after(old(self).scope(), line@),
    {
        let ghost before = self.scope();
        if line.is_empty() {
        } else if self.in_enum > 0 {
            let opens: usize = count_char(line, '{');
            let closes: usize = count_char(line, '}');
            self.in_enum = self.in_enum.saturating_add(opens).saturating_sub(closes);
        } else if text::starts_with(line, "enum ") {
            if text::contains(line, "{") && !text::contains(line, "}") {
                self.in_enum = 1;
            }
        } else if text::starts_with(line, "message ") {
            let name = first_word_after(line, "message ");
            if !name.as_str().is_empty() {
                let ghost n = name@;
                self.stack.push((name, 0));
                proof {
                    assert(self.scope().stack =~= before.stack.push((n, 0)));
                }
            }
        } else if self.stack.len() > 0 {
            let opens: usize = count_char(line, '{');
            let closes: usize = count_char(line, '}');
            let last: usize = self.stack.len() - 1;
            let depth: usize = self.stack[last].1.saturating_add(opens);
            let name = self.stack[last].0.clone();
            self.stack.set(last, (name, depth));
            let ghost opened = before.stack.update(
                before.stack.len() - 1,
                (before.stack.last().0, capped((before.stack.last().1 + count(line@, '{')) as int)),
            );
            proof {
                assert(stack_view(self.stack@) =~= opened);
            }
            let mut left: usize = closes;
            while left > 0 && self.stack.len() > 0
                invariant
                    left <= closes,
                    closed(opened, closes as nat) == closed(stack_view(self.stack@), left as nat),
                    self.in_enum == old(self).in_enum,
                decreases left,
            {
                let ghost sv = stack_view(self.stack@);
                let last: usize = self.stack.len() - 1;
                proof {
                    assert(sv.last() == (self.stack@[last as int].0@, self.stack@[last as int].1 as nat));
                }
                if self.stack[last].1 == 0 {
                    let _ = self.stack.pop();
                    proof {
                        assert(stack_view(self.stack@) =~= sv.drop_last());
                    }
                } else {
                    let depth: usize = self.stack[last].1 - 1;
                    let name = self.stack[last].0.clone();
                    self.stack.set(last, (name, depth));
                    proof {
                        assert(stack_view(self.stack@) =~= sv.update(
                            sv.len() - 1,
                            (sv.last().0, (sv.last().1 - 1) as nat),
                        ));
                    }
                }
                left -= 1;
            }
        }
    }
}

fn path_of(stack: &Vec<(String, usize)>, n: usize) -> (r: String)
    requires
        n <= stack@.len(),
    ensures
        r@ == path(stack_view(stack@), n as int),
{
    let mut names: Vec<String> = Vec::new();
    let ghost want = stack_view(stack@).take(n as int).map_values(|e: (Seq<char>, nat)| e.0);
    let mut i: usize = 0;
    while i < n
        invariant
            i <= n <= stack@.len(),
            want == stack_view(stack@).take(n as int).map_values(|e: (Seq<char>, nat)| e.0),
            text::texts(names@) == want.take(i as int),
        decreases n - i,
    {
        let ghost done = text::texts(names@);
        let name = stack[i].0.clone();
        names.push(name);
        proof {
            assert(text::texts(names@) =~= done.push(name@));
            assert(want.take(i + 1) =~= want.take(i as int).push(want[i as int]));
        }
        i += 1;
    }
    proof {
        assert(want.take(n as int) =~= want);
        assert(text::texts(names@).take(n as int) =~= want);
    }
    text::join(&names, n, ".")
}

fn qualified_name(stack: &Vec<(String, usize)>, n: usize, name: &str) -> (r: String)
    requires
        n <= stack@.len(),
    ensures
        r@ == qualified(stack_view(stack@), n as int, name@),
{
    let prefix = path_of(stack, n);
    if prefix.as_str().is_empty() {
        name.to_owned()
    } else {
        text::join3(prefix.as_str(), ".", name)
    }
}

fn collect_names(ls: &Vec<String>) -> (r: (StringHashSet, StringHashSet))
    ensures
        ({
            let known = names_in(text::texts(ls@), ls@.len() as int);
            r.0@ == known.messages && r.1@ == known.enums
        }),
{
    let mut messages = StringHashSet::new();
    let mut enums = StringHashSet::new();
    let mut at = Reader { stack: Vec::new(), in_enum: 0 };
    let ghost lv = text::texts(ls@);
    let mut i: usize = 0;
    proof {
        assert(at.scope().stack =~= Seq::empty());
    }
    while i < ls.len()
        invariant
            i <= ls@.len(),
            lv == text::texts(ls@),
            at.scope() == scope_at(lv, i as int),
            messages@ == names_in(lv, i as int).messages,
            enums@ == names_in(lv, i as int).enums,
        decreases ls@.len() - i,
    {
        let line = clean(ls[i].as_str());
        proof {
            assert(lv[i as int] == ls@[i as int]@);
        }
        if !line.as_str().is_empty() && at.in_enum == 0 {
            if text::starts_with(line.as_str(), "enum ") {
                let name = first_word_after(line.as_str(), "enum ");
                if !name.as_str().is_empty() {
                    let n: usize = at.stack.len();
                    if n > 0 {
                        let p = path_of(&at.stack, n);
                        let full = text::join3(p.as_str(), ".", name.as_str());
                        enums.insert(name);
                        enums.insert(full);
                    } else {
                        enums.insert(name);
                    }
                }
            } else if text::starts_with(line.as_str(), "message ") {
                let name = first_word_after(line.as_str(), "message ");
                if !name.as_str().is_empty() {
                    let ghost nv = name@;
                    let ghost sv = stack_view(at.stack@);
                    let n: usize = at.stack.len();
                    let full = if n == 0 {
                        name.clone()
                    } else {
                        let p = path_of(&at.stack, n);
                        text::join3(p.as_str(), ".", name.as_str())
                    };
                    proof {
                        lemma_path_push(sv, nv);
                    }
                    messages.insert(full);
                    messages.insert(name);
                }
            }
        }
        at.step(line.as_str());
        i += 1;
    }
    (messages, enums)
}

proof fn lemma_path_push(s: Seq<(Seq<char>, nat)>, name: Seq<char>)
    ensures
        path(s.push((name, 0)), (s.len() + 1) as int) == if s.len() == 0 {
            name
        } else {
            path(s, s.len() as int) + "."@ + name
        },
{
    let t = s.push((name, 0));
    let a = t.take((s.len() + 1) as int).map_values(|e: (Seq<char>, nat)| e.0);
    let b = s.take(s.len() as int).map_values(|e: (Seq<char>, nat)| e.0);
    assert(a.drop_last() =~= b);
    assert(a.last() == name);
    assert(a.len() == s.len() + 1);
}

enum ResolvedType {
    Enum,
    Message(String),
    Unknown,
}

fn resolve_type(
    name: &str,
    stack: &Vec<(String, usize)>,
    messages: &StringHashSet,
    enums: &StringHashSet,
) -> (r: ResolvedType)
    ensures
        ({
            let known = Names { messages: messages@, enums: enums@ };
            resolved(stack_view(stack@), stack@.len() as int, name@, known) == match r {
                ResolvedType::Enum => Resolved::Enum,
                ResolvedType::Message(m) => Resolved::Message(m@),
                ResolvedType::Unknown => Resolved::Unknown,
            }
        }),
{
    let ghost known = Names { messages: messages@, enums: enums@ };
    let ghost sv = stack_view(stack@);
    let mut n: usize = stack.len();
    loop
        invariant
            n <= stack@.len(),
            sv == stack_view(stack@),
            known == (Names { messages: messages@, enums: enums@ }),
            resolved(sv, stack@.len() as int, name@, known) == resolved(
                sv,
                n as int,
                name@,
                known,
            ),
        decreases n,
    {
        let full = qualified_name(stack, n, name);
        if enums.contains(full.as_str()) {
            return ResolvedType::Enum;
        }
        if messages.contains(full.as_str()) {
            return ResolvedType::Message(full);
        }
        if n == 0 {
            return ResolvedType::Unknown;
        }
        n -= 1;
    }
}

fn is_integer_type(name: &str) -> (r: bool)
    ensures
        r == integer_type(name@),
{
    text::same(name, "int32") || text::same(name, "int64") || text::same(name, "uint32")
        || text::same(name, "uint64") || text::same(name, "sint32") || text::same(name, "sint64")
        || text::same(name, "fixed32") || text::same(name, "fixed64") || text::same(name, "sfixed32")
        || text::same(name, "sfixed64")
}

fn field_type_of(
    name: &str,
    repeated: bool,
    stack: &Vec<(String, usize)>,
    messages: &StringHashSet,
    enums: &StringHashSet,
) -> (r: FieldType)
    ensures
        r@ == kind_of(
            stack_view(stack@),
            name@,
            repeated,
            (Names { messages: messages@, enums: enums@ }),
        ),
{
    if is_integer_type(name) {
        if repeated {
            FieldType::RepeatedVarint
        } else {
            FieldType::Varint
        }
    } else if text::same(name, "bool") {
        if repeated {
            FieldType::RepeatedVarint
        } else {
            FieldType::Bool
        }
    } else if text::same(name, "string") {
        if repeated {
            FieldType::RepeatedString
        } else {
            FieldType::String
        }
    } else if text::same(name, "bytes") {
        FieldType::Bytes
    } else if text::same(name, "double") || text::same(name, "float") {
        FieldType::Double
    } else {
        match resolve_type(name, stack, messages, enums) {
            ResolvedType::Enum => if repeated {
                FieldType::RepeatedVarint
            } else {
                FieldType::Enum
            },
            ResolvedType::Message(full) => if repeated {
                FieldType::RepeatedMessage(full)
            } else {
                FieldType::Message(full)
            },
            ResolvedType::Unknown => if repeated {
                FieldType::RepeatedMessage(name.to_owned())
            } else {
                FieldType::Message(name.to_owned())
            },
        }
    }
}

fn lookup<'a>(entries: &'a Vec<(String, u32, FieldType)>, message: &str, num: u32) -> (r: Option<
    &'a FieldType,
>)
    ensures
        match r {
            Some(t) => table(entries@).dom().contains((message@, num)) && t@ == table(
                entries@,
            )[(message@, num)],
            None => !table(entries@).dom().contains((message@, num)),
        },
{
    let key = message.to_owned();
    let mut i: usize = entries.len();
    proof {
        assert(entries@.take(entries@.len() as int) =~= entries@);
    }
    while i > 0
        invariant
            i <= entries@.len(),
            key@ == message@,
            table(entries@).dom().contains((message@, num)) == table(
                entries@.take(i as int),
            ).dom().contains((message@, num)),
            table(entries@)[(message@, num)] == table(entries@.take(i as int))[(message@, num)],
        decreases i,
    {
        proof {
            assert(entries@.take(i as int).drop_last() =~= entries@.take(i - 1));
            assert(entries@.take(i as int).last() == entries@[i - 1]);
        }
        i -= 1;
        if entries[i].1 == num && entries[i].0 == key {
            return Some(&entries[i].2);
        }
    }
    None
}

fn register(
    entries: &mut Vec<(String, u32, FieldType)>,
    numbers: &mut Vec<(String, String, u32)>,
    w: &Vec<String>,
    stack: &Vec<(String, usize)>,
    messages: &StringHashSet,
    enums: &StringHashSet,
    Ghost(line): Ghost<Seq<char>>,
)
    requires
        text::texts(w@) == words(line),
    ensures
        table(final(entries)@) == fields_after(
            stack_view(stack@),
            line,
            (Names { messages: messages@, enums: enums@ }),
            table(old(entries)@),
        ),
        number_table(final(numbers)@) == numbers_after(
            stack_view(stack@),
            line,
            number_table(old(numbers)@),
        ),
{
    let depth: usize = stack.len();
    if depth == 0 || w.len() < 5 {
        return ;
    }
    proof {
        assert(words(line)[0] == w@[0]@);
        assert(words(line)[1] == w@[1]@);
        assert(words(line)[2] == w@[2]@);
        assert(words(line)[3] == w@[3]@);
        assert(words(line)[4] == w@[4]@);
    }
    if !text::same(w[3].as_str(), "=") {
        return ;
    }
    let repeated = text::same(w[0].as_str(), "repeated");
    if !repeated && !text::same(w[0].as_str(), "optional") && !text::same(
        w[0].as_str(),
        "required",
    ) {
        return ;
    }
    let number = text::trim_end_matches(
        text::trim_end_matches(w[4].as_str(), ';').as_str(),
        ',',
    );
    let num: u32 = match text::parse_u32(number.as_str()) {
        Some(n) => n,
        None => return ,
    };
    let kind = field_type_of(w[1].as_str(), repeated, stack, messages, enums);
    let full = path_of(stack, depth);
    let leaf = stack[depth - 1].0.clone();
    proof {
        assert(stack_view(stack@).last() == (leaf@, stack@[depth - 1].1 as nat));
    }
    let short = !(leaf == full);
    let kind2 = kind.clone();
    numbers.push((full.clone(), w[2].clone(), num));
    entries.push((full, num, kind));
    proof {
        assert(numbers@.drop_last() =~= old(numbers)@);
        assert(entries@.drop_last() =~= old(entries)@);
    }
    if short {
        if lookup(entries, leaf.as_str(), num).is_none() {
            let ghost now = entries@;
            entries.push((leaf, num, kind2));
            proof {
                assert(entries@.drop_last() =~= now);
            }
        }
    }
}

impl ProtoSchema {
    /// The field types and the field numbers that the text of a `.proto` file
    /// declares.
    pub fn from_proto_file(content: &str) -> (r: ProtoSchema)
        ensures
            r@ == declared(content@),
            r.numbers() == numbered(content@),
    {
        let ls = text::split_lines(content);
        let (messages, enums) = collect_names(&ls);
        let ghost lv = lines(content@);
        let ghost known = names_in(lv, lv.len() as int);
        proof {
            assert(known == (Names { messages: messages@, enums: enums@ }));
        }
        let mut entries: Vec<(String, u32, FieldType)> = Vec::new();
        let mut numbers: Vec<(String, String, u32)> = Vec::new();
        let mut at = Reader { stack: Vec::new(), in_enum: 0 };
        let mut i: usize = 0;
        proof {
            assert(at.scope().stack =~= Seq::empty());
        }
        while i < ls.len()
            invariant
                i <= ls@.len(),
                lv == text::texts(ls@),
                known == (Names { messages: messages@, enums: enums@ }),
                at.scope() == scope_at(lv, i as int),
                table(entries@) == fields_in(lv, i as int, known),
                number_table(numbers@) == numbers_in(lv, i as int),
            decreases ls@.len() - i,
        {
            let line = clean(ls[i].as_str());
            proof {
                assert(lv[i as int] == ls@[i as int]@);
            }
            let field = !line.as_str().is_empty() && at.in_enum == 0 && !text::starts_with(
                line.as_str(),
                "enum ",
            ) && !text::starts_with(line.as_str(), "message ");
            at.step(line.as_str());
            if field {
                let w = text::split_whitespace(line.as_str());
                register(
                    &mut entries,
                    &mut numbers,
                    &w,
                    &at.stack,
                    &messages,
                    &enums,
                    Ghost(line@),
                );
            }
            i += 1;
        }
        ProtoSchema { entries, numbers }
    }

    /// What the field `field_number` of the message `message` holds.
    pub fn field_type(&self, message: &str, field_number: u32) -> (r: Option<&FieldType>)
        ensures
            match r {
                Some(t) => self@.dom().contains((message@, field_number)) && t@ == self@[(
                    message@,
                    field_number,
                )],
                None => !self@.dom().contains((message@, field_number)),
            },
    {
        lookup(&self.entries, message, field_number)
    }

    /// The number of the field `field` of the message with the full name `message`.
    pub fn number_of(&self, message: &str, field: &str) -> (r: Option<u32>)
        ensures
            match r {
                Some(n) => self.numbers().dom().contains((message@, field@)) && n
                    == self.numbers()[(message@, field@)],
                None => !self.numbers().dom().contains((message@, field@)),
            },
    {
        let (m, f) = (message.to_owned(), field.to_owned());
        let ghost es = self.numbers@;
        let ghost key = (message@, field@);
        let mut i: usize = self.numbers.len();
        proof {
            assert(es.take(es.len() as int) =~= es);
        }
        while i > 0
            invariant
                i <= es.len(),
                es == self.numbers@,
                key == (m@, f@),
                key == (message@, field@),
                number_table(es).dom().contains(key) == number_table(
                    es.take(i as int),
                ).dom().contains(key),
                number_table(es)[key] == number_table(es.take(i as int))[key],
            decreases i,
        {
            proof {
                assert(es.take(i as int).drop_last() =~= es.take(i - 1));
                assert(es.take(i as int).last() == es[i - 1]);
            }
            i -= 1;
            if self.numbers[i].1 == f && self.numbers[i].0 == m {
                return Some(self.numbers[i].2);
            }
        }
        None
    }
}

/// The schema of the chat service, from the text of its `.proto` file.
pub fn load_schema(proto: &str) -> (r: ProtoSchema)
    ensures
        r@ == declared(proto@),
        r.numbers() == numbered(proto@),
{
    ProtoSchema::from_proto_file(proto)
}

} // verus!
