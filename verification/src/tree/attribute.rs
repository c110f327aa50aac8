//! Attributes attached to an element, as rendered into HTML.

use crate::text::{ascii_lowercase, chars_of, lowercase, str_eq};
use vstd::prelude::*;

verus! {

/// The mathematical value of an [`AttributeMap`]: its names and values, in
/// the order of the names.
pub type SpecAttributes = Seq<(Seq<char>, Seq<char>)>;

/// Whether `a` comes before `b` in the order of the dictionary, character by
/// character.
pub open spec fn lex_less(a: Seq<char>, b: Seq<char>) -> bool
    decreases a.len(),
{
    if b.len() == 0 {
        false
    } else if a.len() == 0 {
        true
    } else if a[0] != b[0] {
        a[0] < b[0]
    } else {
        lex_less(a.skip(1), b.skip(1))
    }
}

/// Of two texts, one comes before the other or they are the same, and only
/// one of the three.
pub proof fn lemma_lex_trichotomy(a: Seq<char>, b: Seq<char>)
    ensures
        lex_less(a, b) || a == b || lex_less(b, a),
        !(lex_less(a, b) && lex_less(b, a)),
        !(lex_less(a, b) && a == b),
    decreases a.len(),
{
    if a.len() > 0 && b.len() > 0 && a[0] == b[0] {
        lemma_lex_trichotomy(a.skip(1), b.skip(1));
        if a.skip(1) == b.skip(1) {
            assert(a =~= seq![a[0]] + a.skip(1));
            assert(b =~= seq![b[0]] + b.skip(1));
        }
    } else if a.len() == 0 && b.len() == 0 {
        assert(a =~= b);
    }
}

/// What comes before a text that comes before another comes before that
/// too.
pub proof fn lemma_lex_transitive(a: Seq<char>, b: Seq<char>, c: Seq<char>)
    requires
        lex_less(a, b),
        lex_less(b, c),
    ensures
        lex_less(a, c),
    decreases a.len(),
{
    if a.len() > 0 && a[0] == b[0] && b[0] == c[0] {
        lemma_lex_transitive(a.skip(1), b.skip(1), c.skip(1));
    }
}

/// Whether the names of `entries` stand in rising order, none twice.
pub open spec fn sorted_keys(entries: SpecAttributes) -> bool {
    forall|i: int, j: int|
        0 <= i < j < entries.len() ==> lex_less((#[trigger] entries[i]).0, (#[trigger] entries[j]).0)
}

/// `entries` with `value` stored under `key`: in place of the value that
/// was stored under that name, or else where the order of the names puts it.
pub open spec fn upsert(entries: SpecAttributes, key: Seq<char>, value: Seq<char>) -> SpecAttributes
    decreases entries.len(),
{
    if entries.len() == 0 {
        seq![(key, value)]
    } else if lex_less(entries[0].0, key) {
        seq![entries[0]] + upsert(entries.skip(1), key, value)
    } else if entries[0].0 == key {
        seq![(key, value)] + entries.skip(1)
    } else {
        seq![(key, value)] + entries
    }
}

/// The value that `entries` hold under `key`, if any.
pub open spec fn lookup(entries: SpecAttributes, key: Seq<char>) -> Option<Seq<char>>
    decreases entries.len(),
{
    if entries.len() == 0 {
        None
    } else if entries[0].0 == key {
        Some(entries[0].1)
    } else {
        lookup(entries.skip(1), key)
    }
}

/// Where the names before position `at` come before `key` and the name at
/// `at` does not, storing under `key` changes position `at` alone.
pub proof fn lemma_upsert_at(entries: SpecAttributes, key: Seq<char>, value: Seq<char>, at: int)
    requires
        0 <= at <= entries.len(),
        forall|i: int| 0 <= i < at ==> lex_less((#[trigger] entries[i]).0, key),
        at < entries.len() ==> !lex_less(entries[at].0, key),
    ensures
        upsert(entries, key, value) == if at < entries.len() && entries[at].0 == key {
            entries.update(at, (key, value))
        } else {
            entries.insert(at, (key, value))
        },
    decreases at,
{
    if at == 0 {
        if entries.len() == 0 {
            assert(entries.insert(0, (key, value)) =~= seq![(key, value)]);
        } else if entries[0].0 == key {
            assert(entries.update(0, (key, value)) =~= seq![(key, value)] + entries.skip(1));
        } else {
            assert(entries.insert(0, (key, value)) =~= seq![(key, value)] + entries);
        }
    } else {
        let rest = entries.skip(1);
        assert(lex_less(entries[0].0, key));
        assert forall|i: int| 0 <= i < at - 1 implies lex_less((#[trigger] rest[i]).0, key) by {
            assert(rest[i] == entries[i + 1]);
        }
        lemma_upsert_at(rest, key, value, at - 1);
        if at < entries.len() && entries[at].0 == key {
            assert(entries.update(at, (key, value)) =~= seq![entries[0]] + rest.update(
                at - 1,
                (key, value),
            ));
        } else {
            assert(entries.insert(at, (key, value)) =~= seq![entries[0]] + rest.insert(
                at - 1,
                (key, value),
            ));
        }
    }
}

/// Where no name before position `at` is `key`, what is stored under `key`
/// is what the rest from `at` on holds.
pub proof fn lemma_lookup_skip(entries: SpecAttributes, key: Seq<char>, at: int)
    requires
        0 <= at <= entries.len(),
        forall|i: int| 0 <= i < at ==> (#[trigger] entries[i]).0 != key,
    ensures
        lookup(entries, key) == lookup(entries.skip(at), key),
    decreases at,
{
    if at == 0 {
        assert(entries.skip(0) =~= entries);
    } else {
        let rest = entries.skip(1);
        assert(entries[0].0 != key);
        assert forall|i: int| 0 <= i < at - 1 implies (#[trigger] rest[i]).0 != key by {
            assert(rest[i] == entries[i + 1]);
        }
        lemma_lookup_skip(rest, key, at - 1);
        assert(rest.skip(at - 1) =~= entries.skip(at));
    }
}

/// Whether `a` comes before `b` in the order of the dictionary.
pub fn precedes(a: &str, b: &str) -> (r: bool)
    ensures
        r == lex_less(a@, b@),
{
    let x = chars_of(a);
    let y = chars_of(b);
    let mut i: usize = 0;
    proof {
        assert(x@.skip(0) =~= x@);
        assert(y@.skip(0) =~= y@);
    }
    while i < x.len() && i < y.len()
        invariant
            i <= x.len(),
            i <= y.len(),
            x@ == a@,
            y@ == b@,
            lex_less(x@.skip(i as int), y@.skip(i as int)) == lex_less(a@, b@),
        decreases x.len() - i,
    {
        if x[i] != y[i] {
            return x[i] < y[i];
        }
        proof {
            assert(x@.skip(i as int).skip(1) =~= x@.skip(i + 1));
            assert(y@.skip(i as int).skip(1) =~= y@.skip(i + 1));
        }
        i += 1;
    }
    i < y.len()
}

/// A mapping from attribute name to value.
///
/// Names are held in ASCII lower case, in the order of the dictionary, and
/// no name occurs twice; the order in which attributes were inserted leaves
/// no trace.
#[derive(Debug, PartialEq, Eq)]
pub struct AttributeMap {
    inner: Vec<(String, String)>,
}

/// The names and values of stored entries.
pub open spec fn entry_views(entries: Seq<(String, String)>) -> SpecAttributes {
    Seq::new(entries.len(), |i: int| (entries[i].0@, entries[i].1@))
}

impl View for AttributeMap {
    type V = SpecAttributes;

    closed spec fn view(&self) -> SpecAttributes {
        entry_views(self.inner@)
    }
}

impl AttributeMap {
    #[verifier::type_invariant]
    spec fn sorted(&self) -> bool {
        sorted_keys(entry_views(self.inner@))
    }

    /// An empty map.
    pub fn new() -> (r: AttributeMap)
        ensures
            r@ == Seq::<(Seq<char>, Seq<char>)>::empty(),
    {
        let r = AttributeMap { inner: Vec::new() };
        assert(r@ =~= Seq::<(Seq<char>, Seq<char>)>::empty());
        r
    }

    /// The number of attributes.
    pub fn len(&self) -> (r: usize)
        ensures
            r == self@.len(),
            sorted_keys(self@),
    {
        proof {
            use_type_invariant(self);
        }
        self.inner.len()
    }

    /// Whether the map holds no attribute.
    pub fn is_empty(&self) -> (r: bool)
        ensures
            r == (self@.len() == 0),
    {
        self.inner.len() == 0
    }

    /// The name of the `i`th attribute.
    pub fn key_at(&self, i: usize) -> (r: &String)
        requires
            i < self@.len(),
        ensures
            r@ == self@[i as int].0,
    {
        &self.inner[i].0
    }

    /// The value of the `i`th attribute.
    pub fn value_at(&self, i: usize) -> (r: &String)
        requires
            i < self@.len(),
        ensures
            r@ == self@[i as int].1,
    {
        &self.inner[i].1
    }

    /// The value stored under `key`, which is looked up as given.
    pub fn get(&self, key: &str) -> (r: Option<&String>)
        ensures
            match r {
                Some(value) => lookup(self@, key@) == Some(value@),
                None => lookup(self@, key@) is None,
            },
    {
        let mut i: usize = 0;
        while i < self.inner.len()
            invariant
                i <= self.inner.len(),
                forall|j: int| 0 <= j < i ==> (#[trigger] self@[j]).0 != key@,
            decreases self.inner.len() - i,
        {
            if str_eq(self.inner[i].0.as_str(), key) {
                proof {
                    lemma_lookup_skip(self@, key@, i as int);
                    assert(self@.skip(i as int)[0] == self@[i as int]);
                }
                return Some(&self.inner[i].1);
            }
            i += 1;
        }
        proof {
            lemma_lookup_skip(self@, key@, i as int);
            assert(self@.skip(i as int).len() == 0);
        }
        None
    }

    /// Stores `value` under the lower-case form of `key`, replacing what was
    /// stored under that name before.
    pub fn insert(&mut self, key: &str, value: String)
        ensures
            final(self)@ == upsert(old(self)@, ascii_lowercase(key@), value@),
    {
        proof {
            use_type_invariant(&*self);
        }
        let folded = lowercase(key);
        let ghost before = self@;
        let ghost k = folded@;
        let ghost v = value@;
        let mut at: usize = 0;
        while at < self.inner.len() && precedes(self.inner[at].0.as_str(), folded.as_str())
            invariant
                at <= self.inner.len(),
                before == self@,
                k == folded@,
                forall|i: int| 0 <= i < at ==> lex_less((#[trigger] before[i]).0, k),
            decreases self.inner.len() - at,
        {
            at += 1;
        }
        let replace = at < self.inner.len() && str_eq(
            self.inner[at].0.as_str(),
            folded.as_str(),
        );
        let mut taken = AttributeMap { inner: Vec::new() };
        assert(sorted_keys(entry_views(taken.inner@)));
        core::mem::swap(self, &mut taken);
        let mut inner = taken.inner;
        proof {
            lemma_upsert_at(before, k, v, at as int);
        }
        if replace {
            inner.set(at, (folded, value));
            proof {
                let after = entry_views(inner@);
                assert(after =~= before.update(at as int, (k, v)));
                assert forall|i: int, j: int| 0 <= i < j < after.len() implies lex_less(
                    (#[trigger] after[i]).0,
                    (#[trigger] after[j]).0,
                ) by {
                    assert(after[i].0 == before[i].0);
                    assert(after[j].0 == before[j].0);
                }
            }
        } else {
            inner.insert(at, (folded, value));
            proof {
                let after = entry_views(inner@);
                assert(after =~= before.insert(at as int, (k, v)));
                if at < before.len() {
                    lemma_lex_trichotomy(before[at as int].0, k);
                }
                assert forall|i: int, j: int| 0 <= i < j < after.len() implies lex_less(
                    (#[trigger] after[i]).0,
                    (#[trigger] after[j]).0,
                ) by {
                    if j < at {
                        assert(after[i] == before[i] && after[j] == before[j]);
                    } else if j == at {
                        assert(after[i] == before[i]);
                    } else if i == at {
                        assert(after[j] == before[j - 1]);
                        if j - 1 > at {
                            lemma_lex_transitive(k, before[at as int].0, before[j - 1].0);
                        }
                    } else if i < at {
                        assert(after[i] == before[i] && after[j] == before[j - 1]);
                    } else {
                        assert(after[i] == before[i - 1] && after[j] == before[j - 1]);
                    }
                }
            }
        }
        *self = AttributeMap { inner };
    }

    /// A copy of this map that shares nothing with `self`.
    pub fn to_owned(&self) -> (r: AttributeMap)
        ensures
            r@ == self@,
    {
        proof {
            use_type_invariant(self);
        }
        let mut inner: Vec<(String, String)> = Vec::new();
        let mut i: usize = 0;
        while i < self.inner.len()
            invariant
                i <= self.inner.len(),
                inner.len() == i,
                forall|j: int|
                    0 <= j < i ==> inner[j].0@ == self.inner[j].0@ && inner[j].1@
                        == self.inner[j].1@,
            decreases self.inner.len() - i,
        {
            inner.push((self.inner[i].0.clone(), self.inner[i].1.clone()));
            i += 1;
        }
        assert(entry_views(inner@) =~= entry_views(self.inner@));
        AttributeMap { inner }
    }
}

impl Clone for AttributeMap {
    fn clone(&self) -> (r: AttributeMap)
        ensures
            r@ == self@,
    {
        self.to_owned()
    }
}

} // verus!
