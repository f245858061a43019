//! A map from text keys to text values that keeps its entries in the order
//! their keys were first inserted.
use vstd::prelude::*;

use crate::text::{eq_ignore_case, same_folded};

verus! {

/// Entries as character sequences.
pub type Pairs = Seq<(Seq<char>, Seq<char>)>;

/// Index of the last entry of `ps` under key `k`, or -1 when there is none.
pub open spec fn last_key(ps: Pairs, k: Seq<char>) -> int
    decreases ps.len(),
{
    if ps.len() == 0 {
        -1
    } else if ps.last().0 == k {
        ps.len() - 1
    } else {
        last_key(ps.drop_last(), k)
    }
}

/// The value of the first entry of `ps` whose key equals `key` ignoring
/// ASCII case.
pub open spec fn first_folded(ps: Pairs, key: Seq<char>) -> Option<Seq<char>>
    decreases ps.len(),
{
    if ps.len() == 0 {
        None
    } else if same_folded(ps[0].0, key) {
        Some(ps[0].1)
    } else {
        first_folded(ps.drop_first(), key)
    }
}

/// The text that an optional string reference holds.
pub open spec fn text_opt(r: Option<&String>) -> Option<Seq<char>> {
    match r {
        Some(v) => Some(v@),
        None => None,
    }
}

/// Whether no two entries of `ps` share a key.
pub open spec fn unique_keys(ps: Pairs) -> bool {
    forall|i: int, j: int| 0 <= i < j < ps.len() ==> ps[i].0 != ps[j].0
}

/// The map that inserting the entries of `ps` in order produces.
pub open spec fn map_of(ps: Pairs) -> Map<Seq<char>, Seq<char>>
    decreases ps.len(),
{
    if ps.len() == 0 {
        Map::empty()
    } else {
        map_of(ps.drop_last()).insert(ps.last().0, ps.last().1)
    }
}

/// `ps` with the value under `k` replaced in place, or `(k, v)` appended
/// when `k` is not a key yet.
pub open spec fn upsert(ps: Pairs, k: Seq<char>, v: Seq<char>) -> Pairs {
    let i = last_key(ps, k);
    if i >= 0 {
        ps.update(i, (k, v))
    } else {
        ps.push((k, v))
    }
}

pub proof fn lemma_last_key(ps: Pairs, k: Seq<char>)
    ensures
        -1 <= last_key(ps, k) < ps.len(),
        last_key(ps, k) >= 0 ==> ps[last_key(ps, k)].0 == k,
        forall|j: int| last_key(ps, k) < j < ps.len() ==> ps[j].0 != k,
        map_of(ps).contains_key(k) <==> last_key(ps, k) >= 0,
        last_key(ps, k) >= 0 ==> map_of(ps)[k] == ps[last_key(ps, k)].1,
    decreases ps.len(),
{
    if ps.len() > 0 {
        let q = ps.drop_last();
        lemma_last_key(q, k);
        if ps.last().0 != k {
            assert forall|j: int| last_key(ps, k) < j < ps.len() implies ps[j].0 != k by {
                if j < q.len() {
                    assert(ps[j] == q[j]);
                }
            }
        }
    }
}

pub proof fn lemma_upsert(ps: Pairs, k: Seq<char>, v: Seq<char>)
    ensures
        map_of(upsert(ps, k, v)) == map_of(ps).insert(k, v),
        unique_keys(ps) ==> unique_keys(upsert(ps, k, v)),
    decreases ps.len(),
{
    lemma_last_key(ps, k);
    let i = last_key(ps, k);
    let qs = upsert(ps, k, v);
    if i < 0 {
        assert(qs.drop_last() == ps);
    } else if i == ps.len() - 1 {
        assert(qs.drop_last() == ps.drop_last());
        assert(map_of(qs) =~= map_of(ps).insert(k, v));
    } else {
        let q = ps.drop_last();
        lemma_upsert(q, k, v);
        assert(last_key(q, k) == i);
        assert(qs.drop_last() == upsert(q, k, v));
        assert(map_of(qs) =~= map_of(ps).insert(k, v));
    }
    if unique_keys(ps) {
        assert forall|a: int, b: int| 0 <= a < b < qs.len() implies qs[a].0 != qs[b].0 by {
            if i < 0 && b == ps.len() {
                assert(ps[a].0 != k);
            } else {
                assert(qs[a].0 == ps[a].0);
                assert(qs[b].0 == ps[b].0);
            }
        }
    }
}

/// Lookup ignoring case depends on the key only through its folded form.
pub proof fn lemma_first_folded_same(ps: Pairs, k1: Seq<char>, k2: Seq<char>)
    requires
        same_folded(k1, k2),
    ensures
        first_folded(ps, k1) == first_folded(ps, k2),
    decreases ps.len(),
{
    if ps.len() > 0 {
        lemma_first_folded_same(ps.drop_first(), k1, k2);
    }
}

/// A value stored under a name is found under every spelling of the name
/// that differs only in ASCII case, when no other entry has such a name.
pub proof fn lemma_lookup_ignores_case(ps: Pairs, i: int, key: Seq<char>)
    requires
        0 <= i < ps.len(),
        same_folded(ps[i].0, key),
        forall|j: int| 0 <= j < ps.len() && j != i ==> !same_folded(#[trigger] ps[j].0, ps[i].0),
    ensures
        first_folded(ps, key) == Some(ps[i].1),
    decreases ps.len(),
{
    if i > 0 {
        let rest = ps.drop_first();
        assert(!same_folded(ps[0].0, ps[i].0));
        assert forall|j: int| 0 <= j < rest.len() && j != i - 1 implies !same_folded(
            #[trigger] rest[j].0,
            rest[i - 1].0,
        ) by {
            assert(rest[j] == ps[j + 1]);
        }
        lemma_lookup_ignores_case(rest, i - 1, key);
    }
}

/// Text keys mapped to text values; inserting under a present key replaces
/// its value and keeps its place.
pub struct StrMap {
    entries: Vec<(String, String)>,
}

impl View for StrMap {
    type V = Map<Seq<char>, Seq<char>>;

    open spec fn view(&self) -> Map<Seq<char>, Seq<char>> {
        map_of(self.pairs())
    }
}

impl StrMap {
    /// The entries, in order.
    pub closed spec fn pairs(&self) -> Pairs {
        self.entries@.map_values(|e: (String, String)| (e.0@, e.1@))
    }

    /// Number of entries.
    pub fn len(&self) -> (n: usize)
        ensures
            n == self.pairs().len(),
    {
        self.entries.len()
    }

    /// Key and value of the entry at `i`.
    pub fn entry(&self, i: usize) -> (r: (&String, &String))
        requires
            i < self.pairs().len(),
        ensures
            r.0@ == self.pairs()[i as int].0,
            r.1@ == self.pairs()[i as int].1,
    {
        (&self.entries[i].0, &self.entries[i].1)
    }

    /// An empty map.
    pub fn new() -> (r: StrMap)
        ensures
            r.pairs() == Pairs::empty(),
            r@ == Map::<Seq<char>, Seq<char>>::empty(),
    {
        let r = StrMap { entries: Vec::new() };
        assert(r.pairs() =~= Pairs::empty());
        r
    }

    /// Index of the last entry under `key`, if any.
    fn find_key(&self, key: &String) -> (r: Option<usize>)
        ensures
            match r {
                Some(i) => i == last_key(self.pairs(), key@),
                None => last_key(self.pairs(), key@) == -1,
            },
    {
        proof {
            lemma_last_key(self.pairs(), key@);
        }
        let mut i = self.entries.len();
        while i > 0
            invariant
                i <= self.entries.len(),
                forall|j: int| i <= j < self.entries.len() ==> self.pairs()[j].0 != key@,
                last_key(self.pairs(), key@) < i,
            decreases i,
        {
            proof {
                lemma_last_key(self.pairs(), key@);
            }
            if self.entries[i - 1].0 == *key {
                assert(self.pairs()[i - 1].0 == key@);
                return Some(i - 1);
            }
            i = i - 1;
        }
        None
    }

    /// Sets the value under `key`, replacing an earlier one in place.
    pub fn insert(&mut self, key: String, value: String)
        ensures
            final(self).pairs() == upsert(old(self).pairs(), key@, value@),
            final(self)@ == old(self)@.insert(key@, value@),
            unique_keys(old(self).pairs()) ==> unique_keys(final(self).pairs()),
    {
        proof {
            lemma_upsert(self.pairs(), key@, value@);
            lemma_last_key(self.pairs(), key@);
        }
        let ghost ps = self.pairs();
        match self.find_key(&key) {
            Some(i) => {
                self.entries.set(i, (key, value));
            },
            None => {
                self.entries.push((key, value));
            },
        }
        assert(self.pairs() =~= upsert(ps, key@, value@));
    }

    /// The value under `key`.
    pub fn get(&self, key: &str) -> (r: Option<&String>)
        ensures
            r is Some <==> self@.contains_key(key@),
            r is Some ==> r->0@ == self@[key@],
    {
        proof {
            lemma_last_key(self.pairs(), key@);
        }
        let k = key.to_owned();
        match self.find_key(&k) {
            Some(i) => Some(&self.entries[i].1),
            None => None,
        }
    }

    /// The value of the first entry whose key equals `key` ignoring ASCII case.
    pub fn get_ignore_case(&self, key: &str) -> (r: Option<&String>)
        ensures
            text_opt(r) == first_folded(self.pairs(), key@),
    {
        let ghost ps = self.pairs();
        let mut i: usize = 0;
        assert(ps.skip(0) == ps);
        while i < self.entries.len()
            invariant
                ps == self.pairs(),
                i <= self.entries.len(),
                first_folded(ps, key@) == first_folded(ps.skip(i as int), key@),
            decreases self.entries.len() - i,
        {
            assert(ps.skip(i as int)[0] == ps[i as int]);
            if eq_ignore_case(self.entries[i].0.as_str(), key) {
                return Some(&self.entries[i].1);
            }
            assert(ps.skip(i as int).drop_first() == ps.skip(i + 1));
            i = i + 1;
        }
        None
    }
}

} // verus!
