//! JSON values, their text, and the ways in which the codecs read them.
use vstd::prelude::*;

use crate::text;

verus! {

/// A JSON value. An object keeps its members in the order in which the parser
/// gives them.
#[derive(Debug, PartialEq)]
pub enum Json {
    Null,
    Bool(bool),
    /// An integer from zero up.
    Pos(u64),
    /// An integer below zero.
    Neg(i64),
    /// Any other number.
    Float(serde_json::Number),
    Text(String),
    Array(Vec<Json>),
    Object(Vec<(String, Json)>),
}

/// The mathematical form of a [`Json`].
pub ghost enum JsonV {
    Null,
    Bool(bool),
    Pos(u64),
    Neg(i64),
    Float(serde_json::Number),
    Text(Seq<char>),
    Array(Seq<JsonV>),
    Object(Seq<(Seq<char>, JsonV)>),
}

/// `serde_json::Number`, carried through unread.
#[verifier::external_type_specification]
#[verifier::external_body]
pub struct ExNumber(serde_json::Number);

/// `serde_json::Value`, read one level at a time by `open_value`.
#[verifier::external_type_specification]
#[verifier::external_body]
pub struct ExValue(serde_json::Value);

impl View for Json {
    type V = JsonV;

    open spec fn view(&self) -> JsonV {
        json_view(*self)
    }
}

pub open spec fn json_view(j: Json) -> JsonV
    decreases j,
{
    match j {
        Json::Null => JsonV::Null,
        Json::Bool(b) => JsonV::Bool(b),
        Json::Pos(n) => JsonV::Pos(n),
        Json::Neg(n) => JsonV::Neg(n),
        Json::Float(n) => JsonV::Float(n),
        Json::Text(s) => JsonV::Text(s@),
        Json::Array(v) => JsonV::Array(
            Seq::new(
                v@.len(),
                |i: int|
                    if 0 <= i < v@.len() {
                        json_view(v@[i])
                    } else {
                        JsonV::Null
                    },
            ),
        ),
        Json::Object(v) => JsonV::Object(
            Seq::new(
                v@.len(),
                |i: int|
                    if 0 <= i < v@.len() {
                        (v@[i].0@, json_view(v@[i].1))
                    } else {
                        (Seq::empty(), JsonV::Null)
                    },
            ),
        ),
    }
}

/// The views of a list of values.
pub open spec fn jsons(v: Seq<Json>) -> Seq<JsonV> {
    v.map_values(|j: Json| j@)
}

/// The views of a list of members.
pub open spec fn members(v: Seq<(String, Json)>) -> Seq<(Seq<char>, JsonV)> {
    v.map_values(|m: (String, Json)| (m.0@, m.1@))
}

/// The view of an array is the sequence of the views of its items.
pub broadcast proof fn lemma_array_view(v: Vec<Json>)
    ensures
        #[trigger] json_view(Json::Array(v)) == JsonV::Array(jsons(v@)),
{
    assert(json_view(Json::Array(v))->Array_0 =~= jsons(v@));
}

/// The view of an object is the sequence of the views of its members.
pub broadcast proof fn lemma_object_view(v: Vec<(String, Json)>)
    ensures
        #[trigger] json_view(Json::Object(v)) == JsonV::Object(members(v@)),
{
    assert(json_view(Json::Object(v))->Object_0 =~= members(v@));
}

// ───────────────────────── reading ─────────────────────────

impl JsonV {
    /// The item at `i`, of an array that has one there.
    pub open spec fn item(self, i: int) -> Option<JsonV> {
        match self {
            JsonV::Array(a) => if 0 <= i < a.len() {
                Some(a[i])
            } else {
                None
            },
            _ => None,
        }
    }

    /// The value of the first member named `key`, of an object that has one.
    pub open spec fn member(self, key: Seq<char>) -> Option<JsonV> {
        match self {
            JsonV::Object(m) => first_member(m, key),
            _ => None,
        }
    }

    pub open spec fn text(self) -> Option<Seq<char>> {
        match self {
            JsonV::Text(s) => Some(s),
            _ => None,
        }
    }

    pub open spec fn unsigned(self) -> Option<u64> {
        match self {
            JsonV::Pos(n) => Some(n),
            _ => None,
        }
    }

    pub open spec fn signed(self) -> Option<i64> {
        match self {
            JsonV::Pos(n) => if n <= i64::MAX {
                Some(n as i64)
            } else {
                None
            },
            JsonV::Neg(n) => Some(n),
            _ => None,
        }
    }
}

pub open spec fn first_member(m: Seq<(Seq<char>, JsonV)>, key: Seq<char>) -> Option<JsonV>
    decreases m.len(),
{
    if m.len() == 0 {
        None
    } else if m[0].0 == key {
        Some(m[0].1)
    } else {
        first_member(m.drop_first(), key)
    }
}

/// The view of an optional value.
pub open spec fn json_opt(j: Option<&Json>) -> Option<JsonV> {
    match j {
        Some(v) => Some(v@),
        None => None,
    }
}

impl Json {
    /// True of the null value.
    pub fn is_null(&self) -> (r: bool)
        ensures
            r == (self@ is Null),
    {
        matches!(self, Json::Null)
    }

    /// True of an array.
    pub fn is_array(&self) -> (r: bool)
        ensures
            r == (self@ is Array),
    {
        matches!(self, Json::Array(_))
    }

    /// The item at `i`, of an array that has one there.
    pub fn item(&self, i: usize) -> (r: Option<&Json>)
        ensures
            json_opt(r) == self@.item(i as int),
    {
        broadcast use lemma_array_view;

        match self {
            Json::Array(a) => if i < a.len() {
                Some(&a[i])
            } else {
                None
            },
            _ => None,
        }
    }

    /// The value of the first member named `key`, of an object that has one.
    pub fn member(&self, key: &str) -> (r: Option<&Json>)
        ensures
            json_opt(r) == self@.member(key@),
    {
        broadcast use lemma_object_view;

        match self {
            Json::Object(m) => {
                let mut i: usize = 0;
                proof {
                    assert(members(m@).subrange(0, m@.len() as int) =~= members(m@));
                }
                while i < m.len()
                    invariant
                        i <= m@.len(),
                        *self == Json::Object(*m),
                        first_member(members(m@), key@) == first_member(
                            members(m@).subrange(i as int, m@.len() as int),
                            key@,
                        ),
                    decreases m@.len() - i,
                {
                    proof {
                        assert(members(m@).subrange(i as int, m@.len() as int)[0] == (
                            m@[i as int].0@,
                            m@[i as int].1@,
                        ));
                    }
                    if text::same(m[i].0.as_str(), key) {
                        proof {
                            lemma_object_view(*m);
                            assert(first_member(members(m@), key@) == Some(m@[i as int].1@));
                        }
                        return Some(&m[i].1);
                    }
                    proof {
                        assert(members(m@).subrange(i as int, m@.len() as int).drop_first()
                            =~= members(m@).subrange(i + 1, m@.len() as int));
                    }
                    i += 1;
                }
                None
            },
            _ => None,
        }
    }

    /// The characters of a string value.
    pub fn as_str(&self) -> (r: Option<&str>)
        ensures
            match r {
                Some(s) => self@.text() == Some(s@),
                None => self@.text() is None,
            },
    {
        match self {
            Json::Text(s) => Some(s.as_str()),
            _ => None,
        }
    }

    /// The value of an integer from zero up.
    pub fn as_u64(&self) -> (r: Option<u64>)
        ensures
            r == self@.unsigned(),
    {
        match self {
            Json::Pos(n) => Some(*n),
            _ => None,
        }
    }

    /// The value of an integer that fits a signed 64-bit number.
    pub fn as_i64(&self) -> (r: Option<i64>)
        ensures
            r == self@.signed(),
    {
        match self {
            Json::Pos(n) => if *n <= 0x7FFF_FFFF_FFFF_FFFF {
                Some(*n as i64)
            } else {
                None
            },
            Json::Neg(n) => Some(*n),
            _ => None,
        }
    }

    /// A copy of the value.
    pub fn copy(&self) -> (r: Json)
        ensures
            r@ == self@,
        decreases self,
    {
        broadcast use lemma_array_view, lemma_object_view;

        match self {
            Json::Null => Json::Null,
            Json::Bool(b) => Json::Bool(*b),
            Json::Pos(n) => Json::Pos(*n),
            Json::Neg(n) => Json::Neg(*n),
            Json::Float(n) => Json::Float(n.clone()),
            Json::Text(s) => Json::Text(s.clone()),
            Json::Array(v) => {
                let r = copy_items(v, 0);
                proof {
                    assert(jsons(r@) =~= jsons(v@));
                }
                Json::Array(r)
            },
            Json::Object(v) => {
                let mut out: Vec<(String, Json)> = Vec::new();
                let mut i: usize = 0;
                while i < v.len()
                    invariant
                        i <= v@.len(),
                        members(out@) == members(v@).take(i as int),
                        *self == Json::Object(*v),
                    decreases v@.len() - i,
                {
                    let ghost done = members(out@);
                    proof {
                        assert(decreases_to!(*self => self->Object_0));
                        assert(decreases_to!(*v => v@));
                        assert(decreases_to!(v@ => v@[i as int]));
                        assert(decreases_to!(v@[i as int] => v@[i as int].1));
                    }
                    let m = (v[i].0.clone(), v[i].1.copy());
                    out.push(m);
                    proof {
                        assert(members(out@) =~= done.push((m.0@, m.1@)));
                        assert(members(v@).take(i + 1) =~= members(v@).take(i as int).push(
                            members(v@)[i as int],
                        ));
                    }
                    i += 1;
                }
                proof {
                    assert(members(v@).take(v@.len() as int) =~= members(v@));
                }
                Json::Object(out)
            },
        }
    }
}

impl Clone for Json {
    fn clone(&self) -> (r: Json)
        ensures
            r@ == self@,
    {
        self.copy()
    }
}

/// Copies of the items of `v` from `from` on.
pub fn copy_items(v: &Vec<Json>, from: usize) -> (r: Vec<Json>)
    requires
        from <= v@.len(),
    ensures
        jsons(r@) == text::after(jsons(v@), from as int),
    decreases v,
{
    let mut out: Vec<Json> = Vec::new();
    let mut i: usize = from;
    while i < v.len()
        invariant
            from <= i <= v@.len(),
            jsons(out@) == jsons(v@).subrange(from as int, i as int),
        decreases v@.len() - i,
    {
        let ghost done = jsons(out@);
        let m = v[i].copy();
        out.push(m);
        proof {
            assert(jsons(out@) =~= done.push(m@));
            assert(jsons(v@).subrange(from as int, i + 1) =~= jsons(v@).subrange(
                from as int,
                i as int,
            ).push(jsons(v@)[i as int]));
        }
        i += 1;
    }
    out
}

// ───────────────────────── text ─────────────────────────

/// What a `serde_json::Value` holds.
pub uninterp spec fn value_json(v: serde_json::Value) -> JsonV;

/// The value that a JSON text stands for, or the message of the parser that
/// refuses the text.
pub uninterp spec fn parsed(s: Seq<char>) -> Result<JsonV, Seq<char>>;

/// The compact JSON text of a value.
pub uninterp spec fn printed(v: JsonV) -> Seq<char>;

/// One level of a `serde_json::Value`.
enum Shape {
    Null,
    Bool(bool),
    Pos(u64),
    Neg(i64),
    Float(serde_json::Number),
    Text(String),
    Array(Vec<serde_json::Value>),
    Object(Vec<(String, serde_json::Value)>),
}

pub open spec fn values(v: Seq<serde_json::Value>) -> Seq<JsonV> {
    v.map_values(|x: serde_json::Value| value_json(x))
}

pub open spec fn value_members(v: Seq<(String, serde_json::Value)>) -> Seq<(Seq<char>, JsonV)> {
    v.map_values(|x: (String, serde_json::Value)| (x.0@, value_json(x.1)))
}

/// `<serde_json::Number as Clone>::clone` gives back the same number.
pub assume_specification[ <serde_json::Number as Clone>::clone ](
    n: &serde_json::Number,
) -> (r: serde_json::Number)
    ensures
        r == *n,
;

/// Takes a `serde_json::Value` apart by its variant. A number is an unsigned
/// integer where `Number::as_u64` has one, a negative one where
/// `Number::as_i64` alone has one, and otherwise the number itself. The members of
/// an object come in the order in which its map lists them.
#[verifier::external_body]
fn open_value(v: serde_json::Value) -> (r: Shape)
    ensures
        value_json(v) == match r {
            Shape::Null => JsonV::Null,
            Shape::Bool(b) => JsonV::Bool(b),
            Shape::Pos(n) => JsonV::Pos(n),
            Shape::Neg(n) => JsonV::Neg(n),
            Shape::Float(n) => JsonV::Float(n),
            Shape::Text(s) => JsonV::Text(s@),
            Shape::Array(a) => JsonV::Array(values(a@)),
            Shape::Object(m) => JsonV::Object(value_members(m@)),
        } && (r matches Shape::Neg(n) ==> n < 0),
{
    match v {
        serde_json::Value::Null => Shape::Null,
        serde_json::Value::Bool(b) => Shape::Bool(b),
        serde_json::Value::Number(n) => match (n.as_u64(), n.as_i64()) {
            (Some(u), _) => Shape::Pos(u),
            (None, Some(i)) => Shape::Neg(i),
            (None, None) => Shape::Float(n),
        },
        serde_json::Value::String(s) => Shape::Text(s),
        serde_json::Value::Array(a) => Shape::Array(a),
        serde_json::Value::Object(m) => Shape::Object(m.into_iter().collect()),
    }
}

/// Some `serde_json::Value` holds this.
pub open spec fn held(j: JsonV) -> bool {
    exists|v: serde_json::Value| #[trigger] value_json(v) == j
}

/// Puts a `serde_json::Value` together. Members that some value lists in this order
/// are listed so again, and a number that some value has as no integer is none here.
/// Nothing is claimed of members that no value lists so, since the map of the outside
/// crate puts them in an order of its own, nor of an integer that is marked as negative
/// or as no integer.
#[verifier::external_body]
fn close_value(s: Shape) -> (r: serde_json::Value)
    ensures
        match s {
            Shape::Null => value_json(r) == JsonV::Null,
            Shape::Bool(b) => value_json(r) == JsonV::Bool(b),
            Shape::Pos(n) => value_json(r) == JsonV::Pos(n),
            Shape::Neg(n) => n < 0 ==> value_json(r) == JsonV::Neg(n),
            Shape::Float(n) => held(JsonV::Float(n)) ==> value_json(r) == JsonV::Float(n),
            Shape::Text(t) => value_json(r) == JsonV::Text(t@),
            Shape::Array(a) => value_json(r) == JsonV::Array(values(a@)),
            Shape::Object(m) => held(JsonV::Object(value_members(m@))) ==> value_json(r)
                == JsonV::Object(value_members(m@)),
        },
{
    match s {
        Shape::Null => serde_json::Value::Null,
        Shape::Bool(b) => serde_json::Value::Bool(b),
        Shape::Pos(n) => serde_json::Value::from(n),
        Shape::Neg(n) => serde_json::Value::from(n),
        Shape::Float(n) => serde_json::Value::Number(n),
        Shape::Text(t) => serde_json::Value::String(t),
        Shape::Array(a) => serde_json::Value::Array(a),
        Shape::Object(m) => serde_json::Value::Object(m.into_iter().collect()),
    }
}

/// `serde_json::from_str`: the value that the text stands for, or the message
/// of the error.
#[verifier::external_body]
fn parse_value(s: &str) -> (r: Result<serde_json::Value, String>)
    ensures
        match r {
            Ok(v) => parsed(s@) == Ok::<JsonV, Seq<char>>(value_json(v)),
            Err(e) => parsed(s@) == Err::<JsonV, Seq<char>>(e@),
        },
{
    serde_json::from_str(s).map_err(|e| e.to_string())
}

/// The values of the JSON array whose text the bytes are, or the message of the
/// parser that refuses them.
pub uninterp spec fn parsed_list(data: Seq<u8>) -> Result<Seq<JsonV>, Seq<char>>;

/// `serde_json::from_slice` into a list of values.
#[verifier::external_body]
fn parse_values(data: &[u8]) -> (r: Result<Vec<serde_json::Value>, String>)
    ensures
        match r {
            Ok(v) => parsed_list(data@) == Ok::<Seq<JsonV>, Seq<char>>(values(v@)),
            Err(e) => parsed_list(data@) == Err::<Seq<JsonV>, Seq<char>>(e@),
        },
{
    serde_json::from_slice::<Vec<serde_json::Value>>(data).map_err(|e| e.to_string())
}

/// `Value::to_string`: the compact text of the value.
#[verifier::external_body]
fn print_value(v: &serde_json::Value) -> (r: String)
    ensures
        r@ == printed(value_json(*v)),
{
    v.to_string()
}

/// Made of null, booleans, integers, strings and arrays alone.
pub open spec fn plain(j: JsonV) -> bool
    decreases j,
{
    match j {
        JsonV::Null | JsonV::Bool(_) | JsonV::Pos(_) | JsonV::Text(_) => true,
        JsonV::Neg(n) => n < 0,
        JsonV::Array(a) => forall|i: int| 0 <= i < a.len() ==> plain(#[trigger] a[i]),
        _ => false,
    }
}

/// A value that is held throughout: its negative integers are negative, and its objects and
/// other numbers are as some `serde_json::Value` holds them.
pub open spec fn regular(j: JsonV) -> bool
    decreases j,
{
    match j {
        JsonV::Null | JsonV::Bool(_) | JsonV::Pos(_) | JsonV::Text(_) => true,
        JsonV::Neg(n) => n < 0,
        JsonV::Float(_) => held(j),
        JsonV::Array(a) => forall|i: int| 0 <= i < a.len() ==> regular(#[trigger] a[i]),
        JsonV::Object(m) => held(j) && forall|i: int|
            0 <= i < m.len() ==> regular((#[trigger] m[i]).1),
    }
}

proof fn lemma_plain_regular(j: JsonV)
    requires
        plain(j),
    ensures
        regular(j),
    decreases j,
{
    match j {
        JsonV::Array(a) => {
            assert forall|i: int| 0 <= i < a.len() implies regular(#[trigger] a[i]) by {
                assert(plain(a[i]));
                lemma_plain_regular(a[i]);
            }
        },
        _ => {},
    }
}

proof fn lemma_first_regular(m: Seq<(Seq<char>, JsonV)>, key: Seq<char>)
    requires
        forall|i: int| 0 <= i < m.len() ==> regular((#[trigger] m[i]).1),
    ensures
        first_member(m, key) matches Some(x) ==> regular(x),
    decreases m.len(),
{
    if m.len() > 0 {
        assert(regular(m[0].1));
        assert forall|i: int| 0 <= i < m.drop_first().len() implies regular(
            (#[trigger] m.drop_first()[i]).1,
        ) by {
            assert(m.drop_first()[i] == m[i + 1]);
        }
        lemma_first_regular(m.drop_first(), key);
    }
}

/// A member of a regular value is regular.
pub proof fn lemma_regular_member(j: JsonV, key: Seq<char>)
    requires
        regular(j),
    ensures
        j.member(key) matches Some(x) ==> regular(x),
{
    match j {
        JsonV::Object(m) => lemma_first_regular(m, key),
        _ => {},
    }
}

/// Reads a whole `serde_json::Value`.
fn from_value(v: serde_json::Value) -> (j: Json)
    ensures
        j@ == value_json(v),
        regular(j@),
    decreases value_json(v),
{
    broadcast use lemma_array_view, lemma_object_view;

    let ghost whole = value_json(v);
    match open_value(v) {
        Shape::Null => Json::Null,
        Shape::Bool(b) => Json::Bool(b),
        Shape::Pos(n) => Json::Pos(n),
        Shape::Neg(n) => Json::Neg(n),
        Shape::Float(n) => Json::Float(n),
        Shape::Text(s) => Json::Text(s),
        Shape::Array(a) => {
            let mut out: Vec<Json> = Vec::new();
            let ghost all = values(a@);
            for x in it: a
                invariant
                    it.seq() == a@,
                    all == values(a@),
                    whole == JsonV::Array(all),
                    whole == value_json(v),
                    jsons(out@) == all.take(it.index() as int),
                    forall|k: int| 0 <= k < it.index() ==> regular(#[trigger] all[k]),
            {
                let ghost done = jsons(out@);
                proof {
                    assert(value_json(x) == all[it.index() as int]);
                    assert(decreases_to!(whole => whole->Array_0));
                    assert(decreases_to!(all => all[it.index() as int]));
                }
                let j = from_value(x);
                out.push(j);
                proof {
                    assert(jsons(out@) =~= done.push(j@));
                    assert(all.take(it.index() + 1) =~= all.take(it.index() as int).push(
                        all[it.index() as int],
                    ));
                }
            }
            proof {
                assert(all.take(all.len() as int) =~= all);
            }
            Json::Array(out)
        },
        Shape::Object(m) => {
            let mut out: Vec<(String, Json)> = Vec::new();
            let ghost all = value_members(m@);
            for x in it: m
                invariant
                    it.seq() == m@,
                    all == value_members(m@),
                    whole == JsonV::Object(all),
                    whole == value_json(v),
                    members(out@) == all.take(it.index() as int),
                    forall|k: int| 0 <= k < it.index() ==> regular((#[trigger] all[k]).1),
            {
                let ghost done = members(out@);
                proof {
                    assert((x.0@, value_json(x.1)) == all[it.index() as int]);
                    assert(decreases_to!(whole => whole->Object_0));
                    assert(decreases_to!(all => all[it.index() as int]));
                    assert(decreases_to!(all[it.index() as int] => all[it.index() as int].1));
                }
                let (k, y) = x;
                let j = from_value(y);
                let e = (k, j);
                out.push(e);
                proof {
                    assert(members(out@) =~= done.push((k@, j@)));
                    assert(all.take(it.index() + 1) =~= all.take(it.index() as int).push(
                        all[it.index() as int],
                    ));
                }
            }
            proof {
                assert(all.take(all.len() as int) =~= all);
            }
            Json::Object(out)
        },
    }
}

/// The value that a JSON text stands for, or the message of the parser.
pub fn parse(s: &str) -> (r: Result<Json, String>)
    ensures
        match r {
            Ok(j) => parsed(s@) == Ok::<JsonV, Seq<char>>(j@) && regular(j@),
            Err(e) => parsed(s@) == Err::<JsonV, Seq<char>>(e@),
        },
{
    match parse_value(s) {
        Ok(v) => Ok(from_value(v)),
        Err(e) => Err(e),
    }
}

/// The values of the JSON array whose text the bytes are, or the message of the
/// parser.
pub fn parse_list(data: &[u8]) -> (r: Result<Vec<Json>, String>)
    ensures
        match r {
            Ok(v) => parsed_list(data@) == Ok::<Seq<JsonV>, Seq<char>>(jsons(v@)) && regular(
                JsonV::Array(jsons(v@)),
            ),
            Err(e) => parsed_list(data@) == Err::<Seq<JsonV>, Seq<char>>(e@),
        },
{
    let found = match parse_values(data) {
        Ok(v) => v,
        Err(e) => return Err(e),
    };
    let ghost all = found@;
    let mut out: Vec<Json> = Vec::new();
    for x in it: found
        invariant
            it.seq() == all,
            jsons(out@) == values(all).take(it.index() as int),
            forall|k: int| 0 <= k < it.index() ==> regular(#[trigger] values(all)[k]),
    {
        let ghost before = out@;
        let j = from_value(x);
        out.push(j);
        proof {
            assert(jsons(out@) =~= jsons(before).push(j@));
            assert(values(all).take(it.index() + 1) =~= values(all).take(it.index() as int).push(
                values(all)[it.index() as int],
            ));
        }
    }
    proof {
        assert(values(all).take(all.len() as int) =~= values(all));
    }
    Ok(out)
}

fn to_value(j: &Json) -> (v: serde_json::Value)
    ensures
        regular(j@) ==> value_json(v) == j@,
    decreases j,
{
    broadcast use lemma_array_view, lemma_object_view;

    let s = match j {
        Json::Null => Shape::Null,
        Json::Bool(b) => Shape::Bool(*b),
        Json::Pos(n) => Shape::Pos(*n),
        Json::Neg(n) => Shape::Neg(*n),
        Json::Float(n) => Shape::Float(n.clone()),
        Json::Text(s) => Shape::Text(s.clone()),
        Json::Array(v) => {
            let mut out: Vec<serde_json::Value> = Vec::new();
            let mut i: usize = 0;
            while i < v.len()
                invariant
                    i <= v@.len(),
                    *j == Json::Array(*v),
                    j@ == JsonV::Array(jsons(v@)),
                    out@.len() == i,
                    regular(j@) ==> values(out@) == jsons(v@).take(i as int),
                decreases v@.len() - i,
            {
                let ghost done = values(out@);
                proof {
                    assert(v@[i as int]@ == jsons(v@)[i as int]);
                    if regular(j@) {
                        assert(regular(j@->Array_0[i as int]));
                    }
                }
                let x = to_value(&v[i]);
                out.push(x);
                proof {
                    assert(values(out@) =~= done.push(value_json(x)));
                    assert(jsons(v@).take(i + 1) =~= jsons(v@).take(i as int).push(
                        jsons(v@)[i as int],
                    ));
                }
                i += 1;
            }
            proof {
                assert(jsons(v@).take(v@.len() as int) =~= jsons(v@));
            }
            Shape::Array(out)
        },
        Json::Object(v) => {
            let mut out: Vec<(String, serde_json::Value)> = Vec::new();
            let mut i: usize = 0;
            while i < v.len()
                invariant
                    i <= v@.len(),
                    *j == Json::Object(*v),
                    j@ == JsonV::Object(members(v@)),
                    out@.len() == i,
                    regular(j@) ==> value_members(out@) == members(v@).take(i as int),
                decreases v@.len() - i,
            {
                let ghost done = value_members(out@);
                proof {
                    assert((v@[i as int].0@, v@[i as int].1@) == members(v@)[i as int]);
                    if regular(j@) {
                        assert(regular(j@->Object_0[i as int].1));
                    }
                    assert(decreases_to!(*j => j->Object_0));
                    assert(decreases_to!(*v => v@));
                    assert(decreases_to!(v@ => v@[i as int]));
                    assert(decreases_to!(v@[i as int] => v@[i as int].1));
                }
                let x = to_value(&v[i].1);
                let e = (v[i].0.clone(), x);
                out.push(e);
                proof {
                    assert(value_members(out@) =~= done.push((e.0@, value_json(x))));
                    assert(members(v@).take(i + 1) =~= members(v@).take(i as int).push(
                        members(v@)[i as int],
                    ));
                }
                i += 1;
            }
            proof {
                assert(members(v@).take(v@.len() as int) =~= members(v@));
            }
            Shape::Object(out)
        },
    };
    close_value(s)
}

/// The compact text of a value. Of one that is not regular, only that it has a text: members of an
/// object that come in another order than the parser gives them, or twice under one name, and
/// numbers under a wrong head.
pub fn print(j: &Json) -> (r: String)
    ensures
        plain(j@) || regular(j@) ==> r@ == printed(j@),
{
    proof {
        if plain(j@) {
            lemma_plain_regular(j@);
        }
    }
    let v = to_value(j);
    print_value(&v)
}

} // verus!
