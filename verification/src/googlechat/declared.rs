//! What the text of a schema comes to: every field that is declared is known, under the name
//! of its message and with what its type stands for where it is declared.
use vstd::prelude::*;

use crate::googlechat::schema::{
    cleaned, count, declared_number, fields_in, integer_type, is_enum, is_message, kind_of,
    may_declare_field, name_after, names_in, numbers_in, path, qualified, resolved, scope_after,
    scope_at, FieldKind, Names, Resolved, Scope,
};
use crate::text::{holds, words};

verus! {

// ───────────────────────── fields ─────────────────────────

/// The line at `i` declares a field of the message with this full name, with this number.
pub open spec fn declares(ls: Seq<Seq<char>>, i: int, message: Seq<char>, number: u32) -> bool {
    let line = cleaned(ls[i]);
    let stack = scope_at(ls, i + 1).stack;
    &&& line.len() > 0
    &&& scope_at(ls, i).in_enum == 0
    &&& !is_enum(line)
    &&& !is_message(line)
    &&& stack.len() > 0
    &&& path(stack, stack.len() as int) == message
    &&& declared_number(line) == Some(number as nat)
}

/// A field that is declared is known under the full name of its message and its number, with
/// what its type stands for at its place. Of two declarations the later one counts.
pub proof fn law_a_declared_field_is_known(
    ls: Seq<Seq<char>>,
    n: int,
    known: Names,
    i: int,
    message: Seq<char>,
    number: u32,
)
    requires
        0 <= i < n <= ls.len(),
        declares(ls, i, message, number),
        forall|j: int| i < j < n ==> !#[trigger] declares(ls, j, message, number),
    ensures
        ({
            let w = words(cleaned(ls[i]));
            let t = fields_in(ls, n, known);
            &&& t.dom().contains((message, number))
            &&& t[(message, number)] == kind_of(
                scope_at(ls, i + 1).stack,
                w[1],
                w[0] == "repeated"@,
                known,
            )
        }),
    decreases n,
{
    let line = cleaned(ls[n - 1]);
    if i < n - 1 {
        law_a_declared_field_is_known(ls, n - 1, known, i, message, number);
        assert(!declares(ls, n - 1, message, number));
        let stack = scope_at(ls, n).stack;
        if may_declare_field(scope_at(ls, n - 1), line) && stack.len() > 0 {
            match declared_number(line) {
                Some(num) => {
                    assert(num <= u32::MAX);
                    assert(num as u32 as nat == num);
                },
                None => {},
            }
        }
    }
}

/// A field of a message inside another is known under the bare name of its message as well.
pub proof fn law_a_bare_name_is_known(
    ls: Seq<Seq<char>>,
    n: int,
    known: Names,
    i: int,
    message: Seq<char>,
    number: u32,
)
    requires
        0 <= i < n <= ls.len(),
        declares(ls, i, message, number),
    ensures
        fields_in(ls, n, known).dom().contains((scope_at(ls, i + 1).stack.last().0, number)),
        fields_in(ls, n, known).dom().contains((message, number)),
    decreases n,
{
    if i < n - 1 {
        law_a_bare_name_is_known(ls, n - 1, known, i, message, number);
    }
}

/// Only fields that are declared are known.
pub proof fn law_only_declared_fields_are_known(
    ls: Seq<Seq<char>>,
    n: int,
    known: Names,
    name: Seq<char>,
    number: u32,
)
    requires
        0 <= n <= ls.len(),
        fields_in(ls, n, known).dom().contains((name, number)),
    ensures
        exists|i: int, message: Seq<char>|
            0 <= i < n && #[trigger] declares(ls, i, message, number) && (name == message || name
                == scope_at(ls, i + 1).stack.last().0),
    decreases n,
{
    if n > 0 {
        let line = cleaned(ls[n - 1]);
        let stack = scope_at(ls, n).stack;
        if fields_in(ls, n - 1, known).dom().contains((name, number)) {
            law_only_declared_fields_are_known(ls, n - 1, known, name, number);
        } else {
            let message = path(stack, stack.len() as int);
            let num = declared_number(line)->0;
            assert(num <= u32::MAX);
            assert(declares(ls, n - 1, message, number));
        }
    }
}

/// The name of a declared field leads to its number.
pub proof fn law_a_declared_field_has_its_number(
    ls: Seq<Seq<char>>,
    n: int,
    i: int,
    message: Seq<char>,
    number: u32,
)
    requires
        0 <= i < n <= ls.len(),
        declares(ls, i, message, number),
        forall|j: int, other: u32|
            i < j < n && #[trigger] declares(ls, j, message, other) ==> words(cleaned(ls[j]))[2]
                != words(cleaned(ls[i]))[2],
    ensures
        numbers_in(ls, n).dom().contains((message, words(cleaned(ls[i]))[2])),
        numbers_in(ls, n)[(message, words(cleaned(ls[i]))[2])] == number,
    decreases n,
{
    let line = cleaned(ls[n - 1]);
    if i < n - 1 {
        law_a_declared_field_has_its_number(ls, n - 1, i, message, number);
        let stack = scope_at(ls, n).stack;
        if may_declare_field(scope_at(ls, n - 1), line) && stack.len() > 0 {
            match declared_number(line) {
                Some(num) => {
                    assert(num <= u32::MAX);
                    if path(stack, stack.len() as int) == message {
                        assert(declares(ls, n - 1, message, num as u32));
                    }
                },
                None => {},
            }
        }
    }
}

/// A line declares a field just where it is a label, a type, a name, an equals sign and a
/// number.
pub proof fn law_a_field_is_recognised(line: Seq<char>)
    ensures
        declared_number(line) is Some ==> {
            let w = words(line);
            &&& w.len() >= 5
            &&& w[0] == "optional"@ || w[0] == "required"@ || w[0] == "repeated"@
            &&& w[3] == "="@
        },
        ({
            let w = words(line);
            w.len() >= 5 && w[3] == "="@ && (w[0] == "optional"@ || w[0] == "required"@ || w[0]
                == "repeated"@)
        }) ==> declared_number(line) == crate::googlechat::schema::field_number(words(line)[4]),
{
}

// ───────────────────────── types ─────────────────────────

/// A repeated field holds what a single field of the same type holds, as often as it is
/// there: numbers, flags and names of an enum as numbers, texts as texts, and messages as
/// messages of the same type.
pub proof fn law_a_repeated_field_holds_the_same(
    stack: Seq<(Seq<char>, nat)>,
    name: Seq<char>,
    known: Names,
)
    ensures
        ({
            let one = kind_of(stack, name, false, known);
            let many = kind_of(stack, name, true, known);
            &&& one is Varint || one is Bool || one is Enum <==> many is RepeatedVarint
            &&& one is String <==> many is RepeatedString
            &&& one is Message <==> many is RepeatedMessage
            &&& one matches FieldKind::Message(m) ==> many == FieldKind::RepeatedMessage(m)
            &&& one is Bytes ==> many == one
            &&& one is Double ==> many == one
            &&& !(one is RepeatedVarint) && !(one is RepeatedString) && !(one is RepeatedMessage)
        }),
{
}

/// The types that the language has of itself mean the same in every message, whatever names
/// the file declares.
pub proof fn law_plain_types_mean_the_same(
    stack: Seq<(Seq<char>, nat)>,
    other: Seq<(Seq<char>, nat)>,
    known: Names,
    names: Names,
    name: Seq<char>,
    repeated: bool,
)
    requires
        integer_type(name) || name == "bool"@ || name == "string"@ || name == "bytes"@ || name
            == "double"@ || name == "float"@,
    ensures
        kind_of(stack, name, repeated, known) == kind_of(other, name, repeated, names),
        integer_type(name) ==> kind_of(stack, name, false, known) is Varint,
        name == "bool"@ ==> kind_of(stack, name, false, known) is Bool,
        name == "string"@ ==> kind_of(stack, name, false, known) is String,
        name == "bytes"@ ==> kind_of(stack, name, false, known) is Bytes,
        name == "double"@ || name == "float"@ ==> kind_of(stack, name, false, known) is Double,
{
    reveal_strlit("bool");
    reveal_strlit("string");
    reveal_strlit("bytes");
    reveal_strlit("double");
    reveal_strlit("float");
    reveal_strlit("int32");
    reveal_strlit("int64");
    reveal_strlit("uint32");
    reveal_strlit("uint64");
    reveal_strlit("sint32");
    reveal_strlit("sint64");
    reveal_strlit("fixed32");
    reveal_strlit("fixed64");
    reveal_strlit("sfixed32");
    reveal_strlit("sfixed64");
    if integer_type(name) {
        assert(name.last() == '2' || name.last() == '4');
    }
    assert("bool"@[0] == 'b' && "bool"@[1] == 'o' && "bool"@.last() == 'l');
    assert("string"@[0] == 's' && "string"@.last() == 'g');
    assert("bytes"@[0] == 'b' && "bytes"@[1] == 'y' && "bytes"@.last() == 's');
    assert("double"@[0] == 'd' && "double"@.last() == 'e');
    assert("float"@[0] == 'f' && "float"@.last() == 't');
}

/// All whole numbers are of the one kind, signed or not and of any width.
pub proof fn law_all_whole_numbers_are_alike(name: Seq<char>)
    ensures
        name == "int32"@ || name == "int64"@ || name == "uint32"@ || name == "uint64"@ || name
            == "sint32"@ || name == "sint64"@ || name == "fixed32"@ || name == "fixed64"@ || name
            == "sfixed32"@ || name == "sfixed64"@ <==> integer_type(name),
{
}

/// A name stands for what the nearest declaration of it says: it is looked for in the
/// innermost message first and then outwards.
pub proof fn law_the_nearest_declaration_counts(
    stack: Seq<(Seq<char>, nat)>,
    n: int,
    k: int,
    name: Seq<char>,
    known: Names,
)
    requires
        0 <= k <= n,
        forall|j: int|
            k < j <= n ==> !known.enums.contains(#[trigger] qualified(stack, j, name))
                && !known.messages.contains(qualified(stack, j, name)),
    ensures
        known.enums.contains(qualified(stack, k, name)) ==> resolved(stack, n, name, known) is Enum,
        !known.enums.contains(qualified(stack, k, name)) && known.messages.contains(
            qualified(stack, k, name),
        ) ==> resolved(stack, n, name, known) == Resolved::Message(qualified(stack, k, name)),
        k == 0 && !known.enums.contains(qualified(stack, 0, name)) && !known.messages.contains(
            qualified(stack, 0, name),
        ) ==> resolved(stack, n, name, known) is Unknown,
    decreases n - k,
{
    if k < n {
        assert(!known.enums.contains(qualified(stack, n, name)));
        law_the_nearest_declaration_counts(stack, n - 1, k, name, known);
    }
}

/// Outside of all messages a name is itself; inside, the names of the open messages stand
/// before it, with dots between.
pub proof fn law_names_are_joined_by_dots(stack: Seq<(Seq<char>, nat)>, name: Seq<char>, d: nat)
    ensures
        path(stack, 0).len() == 0,
        qualified(stack, 0, name) == name,
        ({
            let inner = stack.push((name, d));
            let n = stack.len() as int;
            &&& n == 0 ==> path(inner, 1) == name
            &&& n > 0 ==> path(inner, n + 1) == path(stack, n) + "."@ + name
        }),
        path(stack, stack.len() as int).len() > 0 ==> qualified(stack, stack.len() as int, name)
            == path(stack, stack.len() as int) + "."@ + name,
{
    let inner = stack.push((name, d));
    let n = stack.len() as int;
    let first = |e: (Seq<char>, nat)| e.0;
    assert(stack.take(0).map_values(first) =~= Seq::empty());
    let all = inner.take(n + 1).map_values(first);
    assert(all.last() == name);
    assert(all.drop_last() =~= stack.take(n).map_values(first));
    if n == 0 {
        assert(all.len() == 1);
        assert(all[0] == name);
    }
}

// ───────────────────────── names and places ─────────────────────────

/// A message that is declared is known by its full name and by its own.
pub proof fn law_a_declared_message_is_known(ls: Seq<Seq<char>>, n: int, i: int)
    requires
        0 <= i < n <= ls.len(),
        scope_at(ls, i).in_enum == 0,
        is_message(cleaned(ls[i])),
        !is_enum(cleaned(ls[i])),
        name_after(cleaned(ls[i]), "message "@).len() > 0,
    ensures
        names_in(ls, n).messages.contains(name_after(cleaned(ls[i]), "message "@)),
        ({
            let stack = scope_at(ls, i + 1).stack;
            names_in(ls, n).messages.contains(path(stack, stack.len() as int))
        }),
    decreases n,
{
    reveal_strlit("message ");
    if i < n - 1 {
        law_a_declared_message_is_known(ls, n - 1, i);
    }
}

/// An enum that is declared is known by its own name, and inside a message by its full name
/// as well.
pub proof fn law_a_declared_enum_is_known(ls: Seq<Seq<char>>, n: int, i: int)
    requires
        0 <= i < n <= ls.len(),
        scope_at(ls, i).in_enum == 0,
        cleaned(ls[i]).len() > 0,
        is_enum(cleaned(ls[i])),
        name_after(cleaned(ls[i]), "enum "@).len() > 0,
    ensures
        names_in(ls, n).enums.contains(name_after(cleaned(ls[i]), "enum "@)),
        ({
            let stack = scope_at(ls, i).stack;
            stack.len() > 0 ==> names_in(ls, n).enums.contains(
                path(stack, stack.len() as int) + "."@ + name_after(cleaned(ls[i]), "enum "@),
            )
        }),
    decreases n,
{
    if i < n - 1 {
        law_a_declared_enum_is_known(ls, n - 1, i);
    }
}

/// A line without braces that begins neither a message nor an enum leads nowhere.
pub proof fn law_plain_lines_lead_nowhere(sc: Scope, line: Seq<char>)
    requires
        count(line, '{') == 0,
        count(line, '}') == 0,
        !is_enum(line),
        !is_message(line),
        sc.in_enum <= usize::MAX,
        forall|i: int| 0 <= i < sc.stack.len() ==> (#[trigger] sc.stack[i]).1 <= usize::MAX,
    ensures
        scope_after(sc, line) == sc,
{
    if line.len() > 0 && sc.in_enum == 0 && sc.stack.len() > 0 {
        let last = sc.stack.len() - 1;
        assert(sc.stack[last].1 <= usize::MAX);
        assert(sc.stack.update(last, sc.stack[last]) =~= sc.stack);
    }
}

/// A message that is opened is left again by its closing brace.
pub proof fn law_a_message_is_left_again(sc: Scope, open: Seq<char>, close: Seq<char>)
    requires
        sc.in_enum == 0,
        open.len() > 0,
        is_message(open),
        !is_enum(open),
        name_after(open, "message "@).len() > 0,
        close.len() > 0,
        !is_enum(close),
        !is_message(close),
        count(close, '{') == 0,
        count(close, '}') == 1,
    ensures
        ({
            let inside = scope_after(sc, open);
            &&& inside.stack.len() == sc.stack.len() + 1
            &&& inside.stack.last().0 == name_after(open, "message "@)
            &&& inside.stack.drop_last() == sc.stack
            &&& inside.in_enum == 0
            &&& scope_after(inside, close) == sc
        }),
{
    let inside = scope_after(sc, open);
    let name = name_after(open, "message "@);
    assert(inside.stack =~= sc.stack.push((name, 0)));
    let last = inside.stack.len() - 1;
    let opened = inside.stack.update(last, (name, 0nat));
    assert(opened =~= inside.stack);
    assert(opened.drop_last() =~= sc.stack);
    reveal_with_fuel(crate::googlechat::schema::closed, 2);
}

/// Braces of another kind inside a message are closed before the message is.
pub proof fn law_other_braces_are_closed_first(sc: Scope, open: Seq<char>, close: Seq<char>)
    requires
        sc.in_enum == 0,
        sc.stack.len() > 0,
        sc.stack.last().1 < usize::MAX,
        open.len() > 0,
        !is_enum(open),
        !is_message(open),
        count(open, '{') == 1,
        count(open, '}') == 0,
        close.len() > 0,
        !is_enum(close),
        !is_message(close),
        count(close, '{') == 0,
        count(close, '}') == 1,
    ensures
        scope_after(scope_after(sc, open), close) == sc,
        scope_after(sc, open).stack.len() == sc.stack.len(),
{
    reveal_with_fuel(crate::googlechat::schema::closed, 2);
    let last = sc.stack.len() - 1;
    let inside = scope_after(sc, open);
    let e = sc.stack.last();
    assert(inside.stack =~= sc.stack.update(last, (e.0, (e.1 + 1) as nat)));
    assert(inside.stack.update(last, inside.stack.last()) =~= inside.stack);
    let out = scope_after(inside, close);
    assert(out.stack =~= sc.stack);
}

/// The lines of an enum are passed over up to its closing brace, and declare nothing.
pub proof fn law_an_enum_is_passed_over(
    sc: Scope,
    open: Seq<char>,
    inner: Seq<char>,
    close: Seq<char>,
)
    requires
        sc.in_enum == 0,
        open.len() > 0,
        is_enum(open),
        holds(open, "{"@),
        !holds(open, "}"@),
        count(inner, '{') == 0,
        count(inner, '}') == 0,
        close.len() > 0,
        count(close, '{') == 0,
        count(close, '}') == 1,
    ensures
        ({
            let inside = scope_after(sc, open);
            &&& inside.stack == sc.stack
            &&& !may_declare_field(inside, inner)
            &&& scope_after(inside, inner) == inside
            &&& scope_after(inside, close) == sc
        }),
{
}

} // verus!
