//! Names of spaces, messages, users and topics, held as small numbers.
//!
//! The service names things by strings. An interner keeps each string once and
//! stands a number for it.
use vstd::prelude::*;
use vstd::hash_map::StringHashMap;

verus! {

/// The number that stands for an interned string.
#[derive(Debug, Copy, Clone, PartialEq, Eq, PartialOrd, Ord, Hash, Structural)]
pub struct InternedId(u32);

impl InternedId {
    pub closed spec fn number(self) -> u32 {
        self.0
    }

    pub closed spec fn lowest() -> InternedId {
        InternedId(0)
    }

    /// The number of the string that was interned first.
    pub fn first() -> (r: InternedId)
        ensures
            r == Self::lowest(),
            r.number() == 0,
    {
        InternedId(0)
    }

    pub closed spec fn highest() -> InternedId {
        InternedId(u32::MAX)
    }

    /// The largest number there is.
    pub fn last() -> (r: InternedId)
        ensures
            r == Self::highest(),
            r.number() == u32::MAX,
    {
        InternedId(u32::MAX)
    }

    /// The number itself.
    pub(crate) fn get(self) -> (r: u32)
        ensures
            r == self.number(),
    {
        self.0
    }
}

/// An interned name is its number.
pub broadcast proof fn lemma_id_number(a: InternedId, b: InternedId)
    ensures
        #![trigger a.number(), b.number()]
        a.number() == b.number() ==> a == b,
{
}

/// A chat service.
#[derive(Copy, Clone, Debug, PartialEq, Eq, PartialOrd, Ord, Hash, Structural)]
pub enum PlatformId {
    GoogleChat,
    Slack,
}

/// The name of a space.
#[derive(Copy, Clone, Debug, PartialEq, Eq, PartialOrd, Ord, Hash, Structural)]
pub struct SpaceId {
    pub platform: PlatformId,
    pub id: InternedId,
}

/// The name of a message in its space.
#[derive(Copy, Clone, Debug, PartialEq, Eq, PartialOrd, Ord, Hash, Structural)]
pub struct MessageId(pub InternedId);

/// The name of a user.
#[derive(Copy, Clone, Debug, PartialEq, Eq, PartialOrd, Ord, Hash, Structural)]
pub struct UserId {
    pub platform: PlatformId,
    pub id: InternedId,
}

/// The name of a topic in its space.
#[derive(Copy, Clone, Debug, PartialEq, Eq, PartialOrd, Ord, Hash, Structural)]
pub struct TopicId(pub InternedId);

// ───────────────────────── interning ─────────────────────────

/// The strings interned, each once, in the order of their first appearance.
pub type Pool = Seq<Seq<char>>;

/// The first place of `s` in the pool.
pub open spec fn place(pool: Pool, s: Seq<char>) -> Option<int>
    decreases pool.len(),
{
    if pool.len() == 0 {
        None
    } else {
        match place(pool.drop_last(), s) {
            Some(i) => Some(i),
            None => if pool.last() == s {
                Some(pool.len() - 1)
            } else {
                None
            },
        }
    }
}

/// The pool with `s` in it.
pub open spec fn with(pool: Pool, s: Seq<char>) -> Pool {
    if place(pool, s) is Some {
        pool
    } else {
        pool.push(s)
    }
}

/// The number of the string at place `i`: the place, of which thirty-two bits
/// are kept.
pub closed spec fn id_at(i: int) -> InternedId {
    InternedId(i as u32)
}

/// The number that stands for `s` once it is in the pool.
pub open spec fn id_of(pool: Pool, s: Seq<char>) -> InternedId {
    match place(pool, s) {
        Some(i) => id_at(i),
        None => id_at(pool.len() as int),
    }
}

/// No string is in the pool twice.
pub open spec fn distinct(pool: Pool) -> bool {
    forall|i: int, j: int| 0 <= i < j < pool.len() ==> #[trigger] pool[i] != #[trigger] pool[j]
}

proof fn lemma_place(pool: Pool, s: Seq<char>)
    ensures
        match place(pool, s) {
            Some(i) => 0 <= i < pool.len() && pool[i] == s,
            None => forall|i: int| 0 <= i < pool.len() ==> #[trigger] pool[i] != s,
        },
    decreases pool.len(),
{
    if pool.len() > 0 {
        lemma_place(pool.drop_last(), s);
        match place(pool.drop_last(), s) {
            Some(i) => {
                assert(pool.drop_last()[i] == pool[i]);
            },
            None => {
                assert forall|i: int| 0 <= i < pool.len() && pool.last() != s implies
                    #[trigger] pool[i] != s by {
                    if i < pool.len() - 1 {
                        assert(pool.drop_last()[i] == pool[i]);
                    }
                }
            },
        }
    }
}

/// The strings interned, with the number of each.
pub struct IdInterner {
    to_id: StringHashMap<u32>,
    to_str: Vec<String>,
}

impl View for IdInterner {
    type V = Pool;

    closed spec fn view(&self) -> Pool {
        self.to_str@.map_values(|s: String| s@)
    }
}

impl IdInterner {
    #[verifier::type_invariant]
    spec fn inv(self) -> bool {
        &&& distinct(self@)
        &&& forall|s: Seq<char>|
            self.to_id@.dom().contains(s) <==> #[trigger] place(self@, s) is Some
        &&& forall|s: Seq<char>|
            #[trigger] place(self@, s) matches Some(i) ==> self.to_id@[s] == i as u32
    }

    /// An interner that holds nothing.
    pub fn new() -> (r: IdInterner)
        ensures
            r@ == Pool::empty(),
    {
        let to_id = StringHashMap::new();
        let to_str: Vec<String> = Vec::new();
        proof {
            assert(to_str@.map_values(|s: String| s@) =~= Pool::empty());
        }
        IdInterner { to_id, to_str }
    }

    /// The number that stands for `s`, the same whenever `s` is interned again.
    pub fn intern(&mut self, s: &str) -> (r: InternedId)
        ensures
            final(self)@ == with(old(self)@, s@),
            r == id_of(old(self)@, s@),
    {
        proof {
            use_type_invariant(&*self);
            lemma_place(self@, s@);
            assert(self.to_id@.dom().contains(s@) <==> place(self@, s@) is Some);
        }
        if let Some(id) = self.to_id.get(s) {
            return InternedId(*id);
        }
        let mut whole = IdInterner::new();
        std::mem::swap(self, &mut whole);
        let IdInterner { mut to_id, mut to_str } = whole;
        let ghost before = to_str@.map_values(|s: String| s@);
        let ghost map_before = to_id@;
        let n: usize = to_str.len();
        let id: u32 = n as u32;
        to_str.push(s.to_owned());
        to_id.insert(s.to_owned(), id);
        proof {
            let pool = to_str@.map_values(|s: String| s@);
            assert(pool =~= before.push(s@));
            assert(pool.drop_last() =~= before);
            assert forall|t: Seq<char>|
                to_id@.dom().contains(t) <==> #[trigger] place(pool, t) is Some by {
                assert(map_before.dom().contains(t) <==> place(before, t) is Some);
            }
            assert forall|t: Seq<char>| #[trigger] place(pool, t) is Some implies to_id@[t]
                == place(pool, t)->0 as u32 by {
                assert(map_before.dom().contains(t) <==> place(before, t) is Some);
            }
        }
        *self = IdInterner { to_id, to_str };
        InternedId(id)
    }

    /// The string that `id` stands for, where it stands for one.
    pub fn resolve(&self, id: InternedId) -> (r: Option<&str>)
        ensures
            match r {
                Some(s) => string_of(self@, id) == Some(s@),
                None => string_of(self@, id) is None,
            },
    {
        let i: usize = id.0 as usize;
        if i < self.to_str.len() {
            Some(self.to_str[i].as_str())
        } else {
            None
        }
    }

    /// The number of strings interned.
    pub fn len(&self) -> (r: usize)
        ensures
            r == self@.len(),
    {
        self.to_str.len()
    }

    /// True where nothing has been interned.
    pub fn is_empty(&self) -> (r: bool)
        ensures
            r == (self@.len() == 0),
    {
        self.to_str.len() == 0
    }
}

impl Default for IdInterner {
    fn default() -> (r: IdInterner)
        ensures
            r@ == Pool::empty(),
    {
        IdInterner::new()
    }
}

/// The string that `id` stands for.
pub open spec fn string_of(pool: Pool, id: InternedId) -> Option<Seq<char>> {
    if id.number() < pool.len() {
        Some(pool[id.number() as int])
    } else {
        None
    }
}

// ───────────────────────── laws ─────────────────────────

/// A pool of at most as many strings as there are numbers.
pub open spec fn numbered(pool: Pool) -> bool {
    pool.len() <= 0x1_0000_0000
}

/// A string that was interned is what its number stands for.
pub proof fn law_interned_resolves(pool: Pool, s: Seq<char>)
    requires
        numbered(with(pool, s)),
    ensures
        string_of(with(pool, s), id_of(pool, s)) == Some(s),
{
    lemma_place(pool, s);
}

/// Interning a string again gives the same number and adds nothing.
pub proof fn law_interning_is_stable(pool: Pool, s: Seq<char>)
    ensures
        with(with(pool, s), s) == with(pool, s),
        id_of(with(pool, s), s) == id_of(pool, s),
{
    if place(pool, s) is None {
        assert(pool.push(s).drop_last() =~= pool);
    }
}

/// What a number stands for stays the same whatever is interned later.
pub proof fn law_numbers_are_kept(pool: Pool, s: Seq<char>, id: InternedId)
    requires
        string_of(pool, id) is Some,
    ensures
        string_of(with(pool, s), id) == string_of(pool, id),
{
}

/// Two strings have the same number only where they are the same.
pub proof fn law_numbers_tell_apart(pool: Pool, s: Seq<char>, t: Seq<char>)
    requires
        numbered(with(with(pool, s), t)),
        id_of(with(with(pool, s), t), s) == id_of(with(with(pool, s), t), t),
    ensures
        s == t,
{
    let both = with(with(pool, s), t);
    law_interning_is_stable(pool, s);
    lemma_place(both, s);
    lemma_place(both, t);
    lemma_place_kept(with(pool, s), t, s);
    assert(place(both, s) is Some && place(both, t) is Some) by {
        law_interning_is_stable(with(pool, s), t);
        if place(with(pool, s), t) is None {
            assert(with(pool, s).push(t).drop_last() =~= with(pool, s));
        }
        if place(pool, s) is None {
            assert(pool.push(s).drop_last() =~= pool);
        }
    }
    assert(id_at(place(both, s)->0).number() == place(both, s)->0 as u32);
    assert(id_at(place(both, t)->0).number() == place(both, t)->0 as u32);
}

proof fn lemma_place_kept(pool: Pool, t: Seq<char>, s: Seq<char>)
    requires
        place(pool, s) is Some,
    ensures
        place(with(pool, t), s) == place(pool, s),
{
    if place(pool, t) is None {
        assert(pool.push(t).drop_last() =~= pool);
    }
}

/// No string is ever interned twice.
pub proof fn law_interned_once(pool: Pool, s: Seq<char>)
    requires
        distinct(pool),
    ensures
        distinct(with(pool, s)),
{
    lemma_place(pool, s);
}

} // verus!
