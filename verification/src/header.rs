//! String-keyed header of a message or response: a finite map from names to
//! values, kept as a vector of pairs in which no name occurs twice.
use vstd::prelude::*;

verus! {

/// The map that a list of pairs stands for; a later pair overrides an earlier
/// one with the same name.
pub open spec fn pairs_map(s: Seq<(String, String)>) -> Map<Seq<char>, Seq<char>>
    decreases s.len(),
{
    if s.len() == 0 {
        Map::empty()
    } else {
        pairs_map(s.drop_last()).insert(s.last().0@, s.last().1@)
    }
}

/// No name occurs twice among the pairs.
pub open spec fn names_distinct(s: Seq<(String, String)>) -> bool {
    forall|i: int, j: int| 0 <= i < j < s.len() ==> #[trigger] s[i].0@ != #[trigger] s[j].0@
}

/// Each pair's name maps to that pair's value.
pub proof fn lemma_pairs_map_at(s: Seq<(String, String)>, i: int)
    requires
        names_distinct(s),
        0 <= i < s.len(),
    ensures
        pairs_map(s).contains_key(s[i].0@),
        pairs_map(s)[s[i].0@] == s[i].1@,
    decreases s.len(),
{
    if i < s.len() - 1 {
        let t = s.drop_last();
        assert(t[i] == s[i]);
        assert(names_distinct(t)) by {
            assert forall|a: int, b: int| 0 <= a < b < t.len() implies #[trigger] t[a].0@
                != #[trigger] t[b].0@ by {
                assert(t[a] == s[a] && t[b] == s[b]);
            }
        }
        lemma_pairs_map_at(t, i);
        assert(s[i].0@ != s[s.len() - 1].0@);
    }
}

/// A name carried by no pair is not in the map.
pub proof fn lemma_pairs_map_absent(s: Seq<(String, String)>, k: Seq<char>)
    requires
        forall|i: int| 0 <= i < s.len() ==> #[trigger] s[i].0@ != k,
    ensures
        !pairs_map(s).contains_key(k),
    decreases s.len(),
{
    if s.len() > 0 {
        let t = s.drop_last();
        assert forall|i: int| 0 <= i < t.len() implies #[trigger] t[i].0@ != k by {
            assert(t[i] == s[i]);
        }
        lemma_pairs_map_absent(t, k);
    }
}

/// Replacing the value of an existing name is an insert into the map.
pub proof fn lemma_pairs_map_update(s: Seq<(String, String)>, i: int, p: (String, String))
    requires
        names_distinct(s),
        0 <= i < s.len(),
        s[i].0@ == p.0@,
    ensures
        pairs_map(s.update(i, p)) == pairs_map(s).insert(p.0@, p.1@),
    decreases s.len(),
{
    let u = s.update(i, p);
    let t = s.drop_last();
    if i == s.len() - 1 {
        assert(u.drop_last() =~= t);
        assert(pairs_map(u) =~= pairs_map(s).insert(p.0@, p.1@));
    } else {
        assert(u.drop_last() =~= t.update(i, p));
        assert(names_distinct(t)) by {
            assert forall|a: int, b: int| 0 <= a < b < t.len() implies #[trigger] t[a].0@
                != #[trigger] t[b].0@ by {
                assert(t[a] == s[a] && t[b] == s[b]);
            }
        }
        lemma_pairs_map_update(t, i, p);
        assert(s[i].0@ != s[s.len() - 1].0@);
        assert(u.last() == s.last());
        assert(pairs_map(u) =~= pairs_map(s).insert(p.0@, p.1@));
    }
}

/// A header: names mapped to values.
#[derive(Debug)]
pub struct Header {
    entries: Vec<(String, String)>,
}

impl View for Header {
    type V = Map<Seq<char>, Seq<char>>;

    closed spec fn view(&self) -> Map<Seq<char>, Seq<char>> {
        pairs_map(self.entries@)
    }
}

impl Header {
    #[verifier::type_invariant]
    spec fn names_are_distinct(self) -> bool {
        names_distinct(self.entries@)
    }

    /// An empty header.
    pub fn new() -> (h: Header)
        ensures
            h@ == Map::<Seq<char>, Seq<char>>::empty(),
    {
        Header { entries: Vec::new() }
    }

    /// Sets `key` to `value`, replacing what `key` had.
    pub fn insert(&mut self, key: String, value: String)
        ensures
            final(self)@ == old(self)@.insert(key@, value@),
    {
        proof {
            use_type_invariant(&*self);
        }
        let mut entries: Vec<(String, String)> = Vec::new();
        std::mem::swap(&mut entries, &mut self.entries);
        let ghost s = entries@;
        let mut i: usize = 0;
        while i < entries.len()
            invariant
                entries@ == s,
                pairs_map(s) == old(self)@,
                names_distinct(s),
                0 <= i <= s.len(),
                forall|j: int| 0 <= j < i ==> #[trigger] s[j].0@ != key@,
            decreases s.len() - i,
        {
            if entries[i].0 == key {
                let ghost k = key@;
                let ghost v = value@;
                entries.set(i, (key, value));
                proof {
                    lemma_pairs_map_update(s, i as int, entries@[i as int]);
                    assert(entries@ == s.update(i as int, entries@[i as int]));
                    assert forall|a: int, b: int| 0 <= a < b < entries@.len() implies #[trigger] entries@[a].0@
                        != #[trigger] entries@[b].0@ by {
                        if a != i && b != i {
                            assert(entries@[a] == s[a] && entries@[b] == s[b]);
                        } else if a == i {
                            assert(entries@[b] == s[b]);
                        } else {
                            assert(entries@[a] == s[a]);
                        }
                    }
                }
                self.entries = entries;
                return;
            }
            i += 1;
        }
        let ghost k = key@;
        let ghost v = value@;
        entries.push((key, value));
        proof {
            assert(entries@.drop_last() =~= s);
            assert forall|a: int, b: int| 0 <= a < b < entries@.len() implies #[trigger] entries@[a].0@
                != #[trigger] entries@[b].0@ by {
                assert(entries@[a] == s[a]);
                if b < s.len() {
                    assert(entries@[b] == s[b]);
                }
            }
        }
        self.entries = entries;
    }

    /// The value of `key`, if the header has one.
    pub fn get(&self, key: &String) -> (r: Option<&String>)
        ensures
            r matches Some(v) ==> self@.contains_key(key@) && v@ == self@[key@],
            r is None ==> !self@.contains_key(key@),
    {
        proof {
            use_type_invariant(self);
        }
        let mut i: usize = 0;
        while i < self.entries.len()
            invariant
                0 <= i <= self.entries@.len(),
                names_distinct(self.entries@),
                forall|j: int| 0 <= j < i ==> #[trigger] self.entries@[j].0@ != key@,
            decreases self.entries@.len() - i,
        {
            if self.entries[i].0 == *key {
                proof {
                    lemma_pairs_map_at(self.entries@, i as int);
                }
                return Some(&self.entries[i].1);
            }
            i += 1;
        }
        proof {
            lemma_pairs_map_absent(self.entries@, key@);
        }
        None
    }

    /// Copies of the pairs of the header, each name once.
    pub fn pairs(&self) -> (v: Vec<(String, String)>)
        ensures
            names_distinct(v@),
            pairs_map(v@) == self@,
    {
        proof {
            use_type_invariant(self);
        }
        let mut v: Vec<(String, String)> = Vec::new();
        let mut i: usize = 0;
        while i < self.entries.len()
            invariant
                0 <= i <= self.entries@.len(),
                v@ == self.entries@.take(i as int),
            decreases self.entries@.len() - i,
        {
            let name = self.entries[i].0.clone();
            let value = self.entries[i].1.clone();
            v.push((name, value));
            i += 1;
            assert(v@ =~= self.entries@.take(i as int));
        }
        assert(self.entries@.take(i as int) =~= self.entries@);
        v
    }

    /// The pairs of the header, each name once.
    pub fn into_pairs(self) -> (v: Vec<(String, String)>)
        ensures
            names_distinct(v@),
            pairs_map(v@) == self@,
    {
        proof {
            use_type_invariant(&self);
        }
        self.entries
    }
}

} // verus!
