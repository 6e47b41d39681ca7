//! What programs are told and what they ask for: spaces, results and events that come through
//! whole, and queries and command lines of which every part counts.
use vstd::prelude::*;

use crate::agent::api::{
    is_named_group, is_post, item_infos, local_name, tells_results, told_messages, InfoV,
};
use crate::agent::cli::{
    args_from, args_of, command_of, serve_address, ArgsV, CommandV, DEFAULT_BIND,
};
use crate::agent::client::{last_field, mismatched};
use crate::agent::events::{envelope_of, step_for, EventFilter, Heard, SseStepV};
use crate::agent::json::{
    kind_named, kind_text, law_kind_reads_back, EventKind, SearchResponse, SpaceKind,
};
use crate::agent::server::{error_status, kinds_in, plain_text, query_map};
use crate::error::{AppError, AuthError};
use crate::event::inbound::InboundEvent;
use crate::googlechat::proto;
use crate::googlechat::search::{MessageHitV, ThreadHitV};
use crate::text::{after, decimal, holds, joined, sides, starts, text_opt, trimmed};

verus! {

// ───────────────────────── spaces and results ─────────────────────────

/// The group is the room with this name.
pub open spec fn is_room_named(g: proto::GroupId, id: Seq<char>) -> bool {
    g.space_id matches Some(s) && (s.space_id matches Some(t) && t@ == id)
}

/// The group is the direct message with this name.
pub open spec fn is_dm_named(g: proto::GroupId, id: Seq<char>) -> bool {
    g.space_id is None && (g.dm_id matches Some(d) && (d.dm_id matches Some(t) && t@ == id))
}

/// The item has a name that can be told.
pub open spec fn is_listed(i: proto::WorldItemLite) -> bool {
    i.group_id matches Some(g) && match g.space_id {
        Some(s) => s.space_id matches Some(t) && t@.len() > 0,
        None => g.dm_id matches Some(d) && (d.dm_id matches Some(t) && t@.len() > 0),
    }
}

/// What is told is the name and the kind of the item's space.
pub open spec fn tells_of(x: InfoV, i: proto::WorldItemLite) -> bool {
    &&& i.group_id matches Some(g) && (if g.space_id is Some {
        is_room_named(g, x.id) && x.kind == SpaceKind::Room
    } else {
        is_dm_named(g, x.id) && x.kind == SpaceKind::DirectMessage
    })
    &&& i.room_name matches Some(n) ==> x.name == n@
    &&& i.room_name is None ==> x.name == x.id
}

/// Every item with a name is told of, in the order of the items, and no other.
pub proof fn law_every_space_is_told(items: Seq<proto::WorldItemLite>)
    ensures
        ({
            let named = items.filter(|i: proto::WorldItemLite| is_listed(i));
            &&& item_infos(items).len() == named.len()
            &&& forall|j: int|
                0 <= j < named.len() ==> tells_of(#[trigger] item_infos(items)[j], named[j])
        }),
    decreases items.len(),
{
    reveal(Seq::filter);
    if items.len() > 0 {
        law_every_space_is_told(items.drop_last());
    }
}

/// As many threads are told of as were asked for, or all there are; each with its name and
/// all its messages, and each message with its author, text and time.
pub proof fn law_results_are_told_whole(
    r: SearchResponse,
    query: Seq<char>,
    threads: Seq<ThreadHitV>,
    continuation: Option<Seq<char>>,
    top: usize,
)
    requires
        tells_results(r, query, threads, continuation, top),
    ensures
        r.query@ == query,
        text_opt(r.continuation) == continuation,
        r.threads@.len() <= threads.len(),
        r.threads@.len() <= top,
        r.threads@.len() == threads.len() || r.threads@.len() == top,
        forall|i: int|
            0 <= i < r.threads@.len() ==> (#[trigger] r.threads@[i]).topic_id@
                == threads[i].topic_id && r.threads@[i].messages@.len()
                == threads[i].messages.len(),
        forall|i: int, j: int|
            0 <= i < r.threads@.len() && 0 <= j < threads[i].messages.len() ==> {
                let m = #[trigger] r.threads@[i].messages@[j];
                &&& m.author_id@ == threads[i].messages[j].author_id
                &&& m.text@ == threads[i].messages[j].text
                &&& m.timestamp_usec == threads[i].messages[j].timestamp_usec
            },
{
    let told = crate::agent::api::told_threads(r.threads@);
    let n = r.threads@.len();
    assert(told.len() == n);
    assert forall|i: int| 0 <= i < n implies (#[trigger] r.threads@[i]).topic_id@
        == threads[i].topic_id && told_messages(r.threads@[i].messages@)
        == threads[i].messages.map_values(
        |m: MessageHitV| (m.author_id, m.text, m.timestamp_usec),
    ) by {
        assert(told[i] == crate::agent::api::thread_told(threads[i]));
    }
    assert forall|i: int| 0 <= i < n implies (#[trigger] r.threads@[i]).topic_id@
        == threads[i].topic_id && r.threads@[i].messages@.len() == threads[i].messages.len() by {
        assert(told_messages(r.threads@[i].messages@).len() == threads[i].messages.len());
    }
    assert forall|i: int, j: int|
        0 <= i < n && 0 <= j < threads[i].messages.len() implies {
        let m = #[trigger] r.threads@[i].messages@[j];
        &&& m.author_id@ == threads[i].messages[j].author_id
        &&& m.text@ == threads[i].messages[j].text
        &&& m.timestamp_usec == threads[i].messages[j].timestamp_usec
    } by {
        let ms = told_messages(r.threads@[i].messages@);
        assert(ms.len() == threads[i].messages.len());
        assert(ms[j] == (
            threads[i].messages[j].author_id,
            threads[i].messages[j].text,
            threads[i].messages[j].timestamp_usec,
        ));
    }
}

// ───────────────────────── messages that are posted ─────────────────────────

/// A name with `dm/` before it stands for a direct message, any other for a room.
pub proof fn law_a_name_stands_for_its_space(g: proto::GroupId, s: Seq<char>)
    requires
        is_named_group(g, s),
    ensures
        starts(s, "dm/"@) ==> is_dm_named(g, after(s, 3)) && g.space_id is None,
        !starts(s, "dm/"@) ==> is_room_named(g, s) && g.dm_id is None,
{
    reveal_strlit("dm/");
}

/// A request that posts says the text and the space, and an answer says its topic too; a
/// question says none, so that it begins one.
pub proof fn law_a_post_says_what_was_given(
    q: proto::CreateMessageRequest,
    space: Seq<char>,
    topic: Option<Seq<char>>,
    body: Seq<char>,
    local: Seq<char>,
)
    requires
        is_post(q, space, topic, body, local),
    ensures
        q.text_body matches Some(t) && t@ == body,
        q.local_id matches Some(l) && l@ == local,
        q.parent_id is Some,
        q.parent_id->0.topic_id is Some,
        ({
            let t = q.parent_id->0.topic_id->0;
            &&& topic matches Some(x) ==> (t.topic_id matches Some(y) && y@ == x)
            &&& topic is None ==> t.topic_id is None
            &&& t.group_id matches Some(g) && (is_room_named(g, space) || is_dm_named(
                g,
                after(space, 3),
            ))
        }),
{
    reveal_strlit("dm/");
}

/// Two messages with different keys have different names.
pub proof fn law_keys_name_messages_apart(
    prefix: Seq<char>,
    a: Seq<char>,
    b: Seq<char>,
    p: u32,
    now: u64,
)
    requires
        a != b,
    ensures
        local_name(prefix, Some(a), p, now) != local_name(prefix, Some(b), p, now),
{
    if prefix + a == prefix + b {
        assert(a =~= after(prefix + a, prefix.len() as int));
        assert(b =~= after(prefix + b, prefix.len() as int));
    }
}

// ───────────────────────── events ─────────────────────────

/// A message that was posted or edited is told of with its names, its text and its time, as
/// what it was. Nothing else is told.
pub proof fn law_a_message_is_told_whole(event: InboundEvent)
    ensures
        envelope_of(event) is Some <==> (event is MessagePosted || event is MessageEdited),
        event matches InboundEvent::MessagePosted {
            message,
            space_id_raw,
            topic_id_raw,
            message_id_raw,
        } ==> {
            let e = envelope_of(event)->0;
            &&& e.kind == EventKind::MessagePosted
            &&& e.space_id == space_id_raw@
            &&& e.topic_id == text_opt(topic_id_raw)
            &&& e.message_id == Some(message_id_raw@)
            &&& e.text == Some(message.text@)
            &&& e.timestamp_usec == Some(message.timestamp.0)
        },
        event matches InboundEvent::MessageEdited {
            message,
            space_id_raw,
            topic_id_raw,
            message_id_raw,
        } ==> {
            let e = envelope_of(event)->0;
            &&& e.kind == EventKind::MessageEdited
            &&& e.space_id == space_id_raw@
            &&& e.topic_id == text_opt(topic_id_raw)
            &&& e.message_id == Some(message_id_raw@)
            &&& e.text == Some(message.text@)
            &&& e.timestamp_usec == Some(message.timestamp.0)
        },
{
}

/// A listener hears an event just where it is in the space and the topic and of a kind that
/// the listener asked for. Silence is broken, and the end is the end, whatever it asked for.
pub proof fn law_a_listener_hears_what_it_asked_for(f: EventFilter, heard: Heard)
    ensures
        heard matches Heard::Event { envelope, .. } ==> {
            let out = step_for(f, heard) is Pass;
            let elsewhere = f.space_id is Some && f.space_id->0@ != envelope.space_id@;
            let off_topic = f.topic_id is Some && (envelope.topic_id is None || envelope.topic_id->0@
                != f.topic_id->0@);
            let unwanted = f.kinds@.len() > 0 && !f.kinds@.contains(envelope.kind);
            &&& out <==> (elsewhere || off_topic || unwanted)
            &&& !out <==> step_for(f, heard) is Write
        },
        heard is Silence ==> step_for(f, heard) is Write,
        heard is Gone <==> step_for(f, heard) is Stop,
{
}

/// What a listener is written tells the kind of the event, then its data, and ends with an
/// empty line.
pub proof fn law_what_is_written_is_the_event(f: EventFilter, heard: Heard)
    ensures
        heard matches Heard::Event { envelope, json } ==> {
            step_for(f, heard) matches SseStepV::Write(t) ==> t == "event: "@ + kind_text(
                envelope.kind,
            ) + "\ndata: "@ + json@ + "\n\n"@
        },
{
    reveal_strlit("\n");
    reveal_strlit("data: ");
    reveal_strlit("\ndata: ");
    reveal_strlit("\n\n");
    assert("\n"@ + "data: "@ =~= "\ndata: "@);
    assert("\n"@ + "\n"@ =~= "\n\n"@);
    if let Heard::Event { envelope, json } = heard {
        assert(crate::agent::events::written(envelope.kind, json@) =~= "event: "@ + kind_text(
            envelope.kind,
        ) + "\ndata: "@ + json@ + "\n\n"@);
    }
}

/// The last line with a field counts, and no other.
pub proof fn law_the_last_line_counts(
    rows: Seq<Seq<char>>,
    prefix: Seq<char>,
    value: Seq<char>,
    more: Seq<Seq<char>>,
)
    requires
        forall|i: int| 0 <= i < more.len() ==> !starts(#[trigger] more[i], prefix),
    ensures
        last_field(rows + seq![prefix + value] + more, prefix) == Some(value),
        last_field(more, prefix) is None,
    decreases more.len(),
{
    let all = rows + seq![prefix + value] + more;
    if more.len() == 0 {
        assert(all.last() == prefix + value);
        assert((prefix + value).subrange(0, prefix.len() as int) =~= prefix);
        assert(after(prefix + value, prefix.len() as int) =~= value);
    } else {
        assert(all.last() == more.last());
        assert(all.drop_last() =~= rows + seq![prefix + value] + more.drop_last());
        assert(!starts(more[more.len() - 1], prefix));
        law_the_last_line_counts(rows, prefix, value, more.drop_last());
    }
}

/// An event whose frame names its own kind is taken, and one whose frame names another kind is
/// not; a frame without a name says nothing.
pub proof fn law_a_frame_names_its_event(kind: EventKind, other: EventKind)
    ensures
        !mismatched(Some(kind_text(kind)), kind),
        !mismatched(None, kind),
        other != kind ==> mismatched(Some(kind_text(other)), kind),
{
    law_kind_reads_back(kind, kind_text(kind));
    law_kind_reads_back(other, kind_text(other));
}

// ───────────────────────── queries ─────────────────────────

/// Every part of a query counts, and of two with one name the later one.
pub proof fn law_every_part_of_a_query_counts(a: Seq<Seq<char>>, b: Seq<Seq<char>>)
    ensures
        query_map(a + b) == query_map(a).union_prefer_right(query_map(b)),
    decreases b.len(),
{
    if b.len() == 0 {
        assert(a + b =~= a);
        assert(query_map(a + b) =~= query_map(a).union_prefer_right(query_map(b)));
    } else {
        assert((a + b).drop_last() =~= a + b.drop_last());
        law_every_part_of_a_query_counts(a, b.drop_last());
        assert(query_map(a + b) =~= query_map(a).union_prefer_right(query_map(b)));
    }
}

/// A part of a query gives its name the value behind the equals sign, both without escapes;
/// a part without one gives its name nothing.
pub proof fn law_a_part_of_a_query_is_read(p: Seq<char>)
    requires
        p.len() > 0,
    ensures
        sides(p, '=') matches Some((k, v)) ==> query_map(seq![p]) == map![
            plain_text(k) => plain_text(v),
        ],
        sides(p, '=') is None ==> query_map(seq![p]) == map![
            plain_text(p) => Seq::<char>::empty(),
        ],
{
    assert(seq![p].drop_last() =~= Seq::empty());
    assert(query_map(seq![p].drop_last()) =~= Map::empty());
    assert(seq![p].last() == p);
    match sides(p, '=') {
        Some((k, v)) => {
            assert(query_map(seq![p]) =~= map![plain_text(k) => plain_text(v)]);
        },
        None => {
            assert(query_map(seq![p]) =~= map![plain_text(p) => Seq::<char>::empty()]);
        },
    }
}

/// Every name of a kind of events is taken, in order; what names none is left out.
pub proof fn law_all_kinds_are_taken(names: Seq<Seq<char>>)
    ensures
        ({
            let known = names.filter(|n: Seq<char>| kind_named(trimmed(n)) is Some);
            &&& kinds_in(names).len() == known.len()
            &&& forall|i: int|
                0 <= i < known.len() ==> Some(#[trigger] kinds_in(names)[i]) == kind_named(
                    trimmed(known[i]),
                )
        }),
    decreases names.len(),
{
    reveal(Seq::filter);
    if names.len() > 0 {
        law_all_kinds_are_taken(names.drop_last());
    }
}

// ───────────────────────── command lines ─────────────────────────

/// The words of one command line and then those of another.
pub open spec fn and_also(a: ArgsV, b: ArgsV) -> ArgsV {
    ArgsV {
        flags: a.flags.union_prefer_right(b.flags),
        positional: a.positional + b.positional,
    }
}

proof fn lemma_had(args: Seq<Seq<char>>, i: int, had: ArgsV)
    requires
        0 <= i <= args.len(),
    ensures
        ({
            let none = ArgsV { flags: Map::empty(), positional: Seq::empty() };
            args_from(args, i, had) == and_also(had, args_from(args, i, none))
        }),
    decreases args.len() - i,
{
    let none = ArgsV { flags: Map::<Seq<char>, Seq<char>>::empty(), positional: Seq::<Seq<char>>::empty() };
    let got = args_from(args, i, had);
    let own = args_from(args, i, none);
    if i < args.len() {
        match crate::text::without_prefix(args[i], "--"@) {
            Some(rest) => match sides(rest, '=') {
                Some((k, v)) => {
                    lemma_had(args, i + 1, ArgsV { flags: had.flags.insert(k, v), ..had });
                    lemma_had(args, i + 1, ArgsV { flags: none.flags.insert(k, v), ..none });
                },
                None => if i + 1 < args.len() && !starts(args[i + 1], "--"@) {
                    let v = args[i + 1];
                    lemma_had(args, i + 2, ArgsV { flags: had.flags.insert(rest, v), ..had });
                    lemma_had(args, i + 2, ArgsV { flags: none.flags.insert(rest, v), ..none });
                } else {
                    let v = Seq::<char>::empty();
                    lemma_had(args, i + 1, ArgsV { flags: had.flags.insert(rest, v), ..had });
                    lemma_had(args, i + 1, ArgsV { flags: none.flags.insert(rest, v), ..none });
                },
            },
            None => {
                lemma_had(args, i + 1, ArgsV { positional: had.positional.push(args[i]), ..had });
                lemma_had(args, i + 1, ArgsV { positional: none.positional.push(args[i]), ..none });
            },
        }
    }
    assert(got.flags =~= had.flags.union_prefer_right(own.flags));
    assert(got.positional =~= had.positional + own.positional);
}

proof fn lemma_shifted(first: Seq<Seq<char>>, rest: Seq<Seq<char>>, i: int, had: ArgsV)
    requires
        0 <= i <= rest.len(),
    ensures
        args_from(first + rest, first.len() + i, had) == args_from(rest, i, had),
    decreases rest.len() - i,
{
    let all = first + rest;
    if i < rest.len() {
        assert(all[first.len() + i] == rest[i]);
        if i + 1 < rest.len() {
            assert(all[first.len() + i + 1] == rest[i + 1]);
        }
        match crate::text::without_prefix(rest[i], "--"@) {
            Some(name) => match sides(name, '=') {
                Some((k, v)) => {
                    lemma_shifted(
                        first,
                        rest,
                        i + 1,
                        ArgsV { flags: had.flags.insert(k, v), ..had },
                    );
                },
                None => if i + 1 < rest.len() && !starts(rest[i + 1], "--"@) {
                    let v = rest[i + 1];
                    lemma_shifted(
                        first,
                        rest,
                        i + 2,
                        ArgsV { flags: had.flags.insert(name, v), ..had },
                    );
                } else {
                    let v = Seq::<char>::empty();
                    lemma_shifted(
                        first,
                        rest,
                        i + 1,
                        ArgsV { flags: had.flags.insert(name, v), ..had },
                    );
                },
            },
            None => {
                lemma_shifted(
                    first,
                    rest,
                    i + 1,
                    ArgsV { positional: had.positional.push(rest[i]), ..had },
                );
            },
        }
    }
}

/// A word that is no flag is kept, before the words that follow it.
pub proof fn law_a_word_is_kept(w: Seq<char>, rest: Seq<Seq<char>>)
    requires
        !starts(w, "--"@),
    ensures
        args_of(seq![w] + rest).positional == seq![w] + args_of(rest).positional,
        args_of(seq![w] + rest).flags == args_of(rest).flags,
{
    let none = ArgsV { flags: Map::<Seq<char>, Seq<char>>::empty(), positional: Seq::<Seq<char>>::empty() };
    let had = ArgsV { positional: none.positional.push(w), ..none };
    lemma_shifted(seq![w], rest, 0, had);
    lemma_had(rest, 0, had);
    assert((seq![w] + rest)[0] == w);
    assert(args_of(seq![w] + rest) == and_also(had, args_of(rest)));
    assert(args_of(seq![w] + rest).positional =~= seq![w] + args_of(rest).positional);
    assert(args_of(seq![w] + rest).flags =~= args_of(rest).flags);
}

/// The name of a flag with two hyphens before it.
pub open spec fn hyphened(k: Seq<char>) -> Seq<char> {
    "--"@ + k
}

proof fn lemma_hyphened(k: Seq<char>)
    ensures
        crate::text::without_prefix(hyphened(k), "--"@) == Some(k),
        starts(hyphened(k), "--"@),
{
    assert(hyphened(k).subrange(0, "--"@.len() as int) =~= "--"@);
    assert(after(hyphened(k), "--"@.len() as int) =~= k);
}

/// A flag takes the next word for its value where that is no flag; the word is then none of
/// the others. A later flag of the same name counts before it.
pub proof fn law_a_flag_takes_the_next_word(k: Seq<char>, v: Seq<char>, rest: Seq<Seq<char>>)
    requires
        sides(k, '=') is None,
        !starts(v, "--"@),
    ensures
        args_of(seq![hyphened(k), v] + rest).positional == args_of(rest).positional,
        args_of(seq![hyphened(k), v] + rest).flags == map![k => v].union_prefer_right(
            args_of(rest).flags,
        ),
{
    let none = ArgsV { flags: Map::<Seq<char>, Seq<char>>::empty(), positional: Seq::<Seq<char>>::empty() };
    let had = ArgsV { flags: none.flags.insert(k, v), ..none };
    let first = seq![hyphened(k), v];
    lemma_hyphened(k);
    lemma_shifted(first, rest, 0, had);
    lemma_had(rest, 0, had);
    assert((first + rest)[0] == hyphened(k));
    assert((first + rest)[1] == v);
    assert(args_of(first + rest) == args_from(first + rest, 2, had));
    assert(args_of(first + rest).positional =~= args_of(rest).positional);
    assert(args_of(first + rest).flags =~= map![k => v].union_prefer_right(args_of(rest).flags));
}

/// A flag without a value behind it has an empty one, and the flag that follows is read as a
/// flag.
pub proof fn law_a_flag_can_stand_alone(k: Seq<char>, rest: Seq<Seq<char>>)
    requires
        sides(k, '=') is None,
        rest.len() == 0 || starts(rest[0], "--"@),
    ensures
        args_of(seq![hyphened(k)] + rest).positional == args_of(rest).positional,
        args_of(seq![hyphened(k)] + rest).flags == map![
            k => Seq::<char>::empty(),
        ].union_prefer_right(args_of(rest).flags),
{
    let none = ArgsV { flags: Map::<Seq<char>, Seq<char>>::empty(), positional: Seq::<Seq<char>>::empty() };
    let had = ArgsV { flags: none.flags.insert(k, Seq::<char>::empty()), ..none };
    let first = seq![hyphened(k)];
    lemma_hyphened(k);
    lemma_shifted(first, rest, 0, had);
    lemma_had(rest, 0, had);
    assert((first + rest)[0] == hyphened(k));
    if rest.len() > 0 {
        assert((first + rest)[1] == rest[0]);
    }
    assert(args_of(first + rest) == args_from(first + rest, 1, had));
    assert(args_of(first + rest).positional =~= args_of(rest).positional);
    assert(args_of(first + rest).flags =~= map![k => Seq::<char>::empty()].union_prefer_right(
        args_of(rest).flags,
    ));
}

/// A flag with an equals sign has what stands behind it for its value, and takes no word.
pub proof fn law_a_flag_can_hold_its_value(
    w: Seq<char>,
    k: Seq<char>,
    v: Seq<char>,
    rest: Seq<Seq<char>>,
)
    requires
        sides(w, '=') == Some((k, v)),
    ensures
        args_of(seq![hyphened(w)] + rest).positional == args_of(rest).positional,
        args_of(seq![hyphened(w)] + rest).flags == map![k => v].union_prefer_right(
            args_of(rest).flags,
        ),
{
    let none = ArgsV { flags: Map::<Seq<char>, Seq<char>>::empty(), positional: Seq::<Seq<char>>::empty() };
    let had = ArgsV { flags: none.flags.insert(k, v), ..none };
    let first = seq![hyphened(w)];
    lemma_hyphened(w);
    lemma_shifted(first, rest, 0, had);
    lemma_had(rest, 0, had);
    assert((first + rest)[0] == hyphened(w));
    assert(args_of(first + rest) == args_from(first + rest, 1, had));
    assert(args_of(first + rest).positional =~= args_of(rest).positional);
    assert(args_of(first + rest).flags =~= map![k => v].union_prefer_right(args_of(rest).flags));
}

/// The flag is there with a value.
pub open spec fn given(a: ArgsV, name: Seq<char>, v: Seq<char>) -> bool {
    a.flags.dom().contains(name) && a.flags[name] == v && v.len() > 0
}

/// A command that posts or searches is carried out just where it has its space, its topic
/// where it needs one, and its words; it then says these and no others.
pub proof fn law_commands_say_what_was_given(a: ArgsV)
    ensures
        ({
            let text = joined(a.positional, " "@);
            let space = a.flags.dom().contains("space"@) && a.flags["space"@].len() > 0;
            let topic = a.flags.dom().contains("topic"@) && a.flags["topic"@].len() > 0;
            &&& command_of("ask"@, a) is Ok <==> space && text.len() > 0
            &&& command_of("search"@, a) is Ok <==> space && text.len() > 0
            &&& command_of("reply"@, a) is Ok <==> space && topic && text.len() > 0
            &&& command_of("ask"@, a) matches Ok(c) ==> (c matches CommandV::Ask {
                space: s,
                text: t,
                json,
                key,
            } && given(a, "space"@, s) && t == text && (json <==> a.flags.dom().contains("json"@))
                && (key is Some <==> a.flags.dom().contains("idempotency-key"@)) && (key is Some
                ==> key->0 == a.flags["idempotency-key"@]))
            &&& command_of("search"@, a) matches Ok(c) ==> (c matches CommandV::Search {
                space: s,
                query,
                ..
            } && given(a, "space"@, s) && query == text)
            &&& command_of("reply"@, a) matches Ok(c) ==> (c matches CommandV::Reply {
                space: s,
                topic: o,
                text: t,
                json,
                key,
            } && given(a, "space"@, s) && given(a, "topic"@, o) && t == text && (json
                <==> a.flags.dom().contains("json"@)) && (key is Some <==> a.flags.dom().contains(
                "idempotency-key"@,
            )) && (key is Some ==> key->0 == a.flags["idempotency-key"@]))
        }),
{
    reveal_strlit("serve");
    reveal_strlit("ask");
    reveal_strlit("search");
    reveal_strlit("reply");
    assert("ask"@.len() != "serve"@.len());
    assert("search"@.len() != "serve"@.len());
    assert("search"@.len() != "ask"@.len());
    assert("reply"@[0] != "serve"@[0]);
    assert("reply"@.len() != "ask"@.len());
    assert("reply"@.len() != "search"@.len());
}

/// The daemon listens where it is told to; where it is not told, at the address that the client
/// asks.
pub proof fn law_the_daemon_listens_where_it_is_told(a: ArgsV, host: Seq<char>, port: u16)
    ensures
        !a.flags.dom().contains("bind"@) && !a.flags.dom().contains("port"@) ==> serve_address(a)
            == DEFAULT_BIND@,
        a.flags.dom().contains("bind"@) && a.flags["bind"@] == host && a.flags.dom().contains(
            "port"@,
        ) && a.flags["port"@] == decimal(port as nat) ==> serve_address(a) == host + ":"@ + decimal(
            port as nat,
        ),
{
    crate::cut::law_numbers_read_back(port as nat, u16::MAX as nat);
    reveal_strlit("127.0.0.1");
    reveal_strlit(":");
    reveal_strlit("127.0.0.1:7800");
    reveal_with_fuel(decimal, 5);
    assert(decimal(7800) =~= seq!['7', '8', '0', '0']);
    assert("127.0.0.1"@ + ":"@ + decimal(7800) =~= "127.0.0.1:7800"@);
}

/// An error of the session is told from one of the service, and an ended session from other
/// errors of the session.
pub proof fn law_errors_are_told_apart(e: AppError)
    ensures
        e is Auth ==> error_status(e).0 == 503,
        e is Api ==> error_status(e).0 == 502,
        error_status(e).1 == "auth_expired"@ <==> (e matches AppError::Auth(
            AuthError::SessionFetch(m),
        ) && (holds(m@, "HTTP 401"@) || holds(m@, "expired"@))),
        500 <= error_status(e).0 < 600,
{
    reveal_strlit("auth_expired");
    reveal_strlit("auth_error");
    reveal_strlit("upstream_error");
    reveal_strlit("config_error");
    reveal_strlit("io_error");
    reveal_strlit("disconnected");
    assert("disconnected"@[0] != "auth_expired"@[0]);
    assert("config_error"@[0] != "auth_expired"@[0]);
    assert("auth_error"@.len() != "auth_expired"@.len());
    assert("upstream_error"@.len() != "auth_expired"@.len());
    assert("io_error"@.len() != "auth_expired"@.len());
}

} // verus!
