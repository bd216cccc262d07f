//! A map from strings to strings: form values, environment variables,
//! driver-specific settings.
use vstd::prelude::*;
use crate::text::str_eq;

verus! {

/// The map that a list of distinct-keyed entries stands for.
pub open spec fn entries_map(s: Seq<(String, String)>) -> Map<Seq<char>, Seq<char>>
    decreases s.len(),
{
    if s.len() == 0 {
        Map::empty()
    } else {
        entries_map(s.drop_last()).insert(s.last().0@, s.last().1@)
    }
}

/// No two entries share a key.
pub open spec fn distinct_keys(s: Seq<(String, String)>) -> bool {
    forall|i: int, j: int| 0 <= i < s.len() && 0 <= j < s.len() && i != j ==> s[i].0@ != s[j].0@
}

pub proof fn lemma_entries_map(s: Seq<(String, String)>)
    requires
        distinct_keys(s),
    ensures
        forall|k: Seq<char>| #[trigger] entries_map(s).dom().contains(k) <==> exists|i: int| 0 <= i < s.len() && s[i].0@ == k,
        forall|i: int| 0 <= i < s.len() ==> #[trigger] entries_map(s)[s[i].0@] == s[i].1@,
        entries_map(s).dom().finite(),
    decreases s.len(),
{
    if s.len() > 0 {
        let t = s.drop_last();
        assert(distinct_keys(t));
        lemma_entries_map(t);
        assert forall|k: Seq<char>| #[trigger] entries_map(s).dom().contains(k) <==> exists|i: int| 0 <= i < s.len() && s[i].0@ == k by {
            if entries_map(s).dom().contains(k) {
                if k == s.last().0@ {
                    assert(s[s.len() - 1].0@ == k);
                } else {
                    let i = choose|i: int| 0 <= i < t.len() && t[i].0@ == k;
                    assert(s[i].0@ == k);
                }
            }
            if exists|i: int| 0 <= i < s.len() && s[i].0@ == k {
                let i = choose|i: int| 0 <= i < s.len() && s[i].0@ == k;
                if i < s.len() - 1 {
                    assert(t[i].0@ == k);
                }
            }
        }
        assert forall|i: int| 0 <= i < s.len() implies #[trigger] entries_map(s)[s[i].0@] == s[i].1@ by {
            if i < s.len() - 1 {
                assert(t[i] == s[i]);
                assert(s[i].0@ != s[s.len() - 1].0@);
            }
        }
    }
}

/// A string-to-string map that keeps its entries in insertion order.
#[derive(Debug)]
pub struct StrMap {
    entries: Vec<(String, String)>,
}

impl StrMap {
    #[verifier::type_invariant]
    spec fn keys_distinct(self) -> bool {
        distinct_keys(self.entries@)
    }

    pub closed spec fn view(&self) -> Map<Seq<char>, Seq<char>> {
        entries_map(self.entries@)
    }

    /// The entries in insertion order.
    pub closed spec fn entries_view(&self) -> Seq<(Seq<char>, Seq<char>)> {
        self.entries@.map_values(|e: (String, String)| (e.0@, e.1@))
    }

    /// An empty map.
    pub fn new() -> (r: StrMap)
        ensures
            r@ == Map::<Seq<char>, Seq<char>>::empty(),
            r.entries_view().len() == 0,
    {
        StrMap { entries: Vec::new() }
    }

    /// The number of keys.
    pub fn len(&self) -> (r: usize)
        ensures
            r == self@.dom().len(),
            r == self.entries_view().len(),
    {
        proof {
            use_type_invariant(self);
            lemma_entries_len(self.entries@);
        }
        self.entries.len()
    }

    fn find(&self, key: &str) -> (r: Option<usize>)
        ensures
            r matches Some(i) ==> i < self.entries@.len() && self.entries@[i as int].0@ == key@,
            r is None ==> forall|i: int| 0 <= i < self.entries@.len() ==> self.entries@[i].0@ != key@,
    {
        let mut i: usize = 0;
        while i < self.entries.len()
            invariant
                i <= self.entries.len(),
                forall|j: int| 0 <= j < i ==> self.entries@[j].0@ != key@,
            decreases self.entries.len() - i,
        {
            if str_eq(self.entries[i].0.as_str(), key) {
                return Some(i);
            }
            i = i + 1;
        }
        None
    }

    /// The value stored under `key`, if any.
    pub fn get(&self, key: &str) -> (r: Option<&String>)
        ensures
            match r {
                Some(v) => self@.dom().contains(key@) && self@[key@] == v@,
                None => !self@.dom().contains(key@),
            },
    {
        proof {
            use_type_invariant(self);
            lemma_entries_map(self.entries@);
        }
        match self.find(key) {
            Some(i) => Some(&self.entries[i].1),
            None => None,
        }
    }

    /// Whether `key` has a value.
    pub fn contains_key(&self, key: &str) -> (r: bool)
        ensures
            r == self@.dom().contains(key@),
    {
        proof {
            use_type_invariant(self);
            lemma_entries_map(self.entries@);
        }
        self.find(key).is_some()
    }

    /// Stores `value` under `key`, replacing any earlier value.
    pub fn insert(&mut self, key: String, value: String)
        ensures
            final(self)@ == old(self)@.insert(key@, value@),
    {
        proof {
            use_type_invariant(&*self);
            lemma_entries_map(self.entries@);
        }
        let ghost old_entries = self.entries@;
        match self.find(key.as_str()) {
            Some(i) => {
                let ghost k = key@;
                let ghost v = value@;
                let mut entries: Vec<(String, String)> = Vec::new();
                std::mem::swap(&mut entries, &mut self.entries);
                entries.set(i, (key, value));
                proof {
                    let s = entries@;
                    assert(distinct_keys(s)) by {
                        assert forall|a: int, b: int| 0 <= a < s.len() && 0 <= b < s.len() && a != b implies s[a].0@ != s[b].0@ by {
                            if a != i as int && b != i as int {
                                assert(s[a] == old_entries[a] && s[b] == old_entries[b]);
                            } else if a == i as int {
                                assert(s[b] == old_entries[b]);
                                assert(old_entries[i as int].0@ != old_entries[b].0@);
                            } else {
                                assert(s[a] == old_entries[a]);
                                assert(old_entries[i as int].0@ != old_entries[a].0@);
                            }
                        }
                    }
                    lemma_entries_map(s);
                    let m1 = entries_map(s);
                    let m2 = entries_map(old_entries).insert(k, v);
                    assert forall|x: Seq<char>| m1.dom().contains(x) <==> m2.dom().contains(x) by {
                        if m1.dom().contains(x) {
                            let j = choose|j: int| 0 <= j < s.len() && s[j].0@ == x;
                            if j != i as int {
                                assert(old_entries[j].0@ == x);
                            }
                        }
                        if m2.dom().contains(x) && x != k {
                            let j = choose|j: int| 0 <= j < old_entries.len() && old_entries[j].0@ == x;
                            assert(s[j].0@ == x);
                        }
                        if x == k {
                            assert(s[i as int].0@ == x);
                        }
                    }
                    assert forall|x: Seq<char>| m1.dom().contains(x) implies m1[x] == m2[x] by {
                        let j = choose|j: int| 0 <= j < s.len() && s[j].0@ == x;
                        if j != i as int {
                            assert(s[j] == old_entries[j]);
                        }
                    }
                    assert(m1 =~= m2);
                }
                self.entries = entries;
            },
            None => {
                let ghost e = (key, value);
                let mut entries: Vec<(String, String)> = Vec::new();
                std::mem::swap(&mut entries, &mut self.entries);
                entries.push((key, value));
                proof {
                    let s = entries@;
                    assert(s.drop_last() =~= old_entries);
                    assert(distinct_keys(s)) by {
                        assert forall|a: int, b: int| 0 <= a < s.len() && 0 <= b < s.len() && a != b implies s[a].0@ != s[b].0@ by {
                            if a < old_entries.len() && b < old_entries.len() {
                                assert(s[a] == old_entries[a] && s[b] == old_entries[b]);
                            } else if a < old_entries.len() {
                                assert(s[a] == old_entries[a]);
                            } else {
                                assert(s[b] == old_entries[b]);
                            }
                        }
                    }
                }
                self.entries = entries;
            },
        }
    }

    /// A copy with the same keys, values and order.
    pub fn duplicate(&self) -> (r: StrMap)
        ensures
            r@ == self@,
            r.entries_view() == self.entries_view(),
    {
        let mut out: Vec<(String, String)> = Vec::new();
        let mut i: usize = 0;
        while i < self.entries.len()
            invariant
                i <= self.entries.len(),
                out.len() == i,
                forall|j: int| 0 <= j < i ==> (#[trigger] out@[j]).0@ == self.entries@[j].0@ && out@[j].1@ == self.entries@[j].1@,
            decreases self.entries.len() - i,
        {
            out.push((self.entries[i].0.clone(), self.entries[i].1.clone()));
            i = i + 1;
        }
        proof {
            use_type_invariant(self);
            assert(out@.map_values(|e: (String, String)| (e.0@, e.1@)) =~= self.entries_view());
            lemma_entries_map(self.entries@);
            lemma_entries_map(out@);
            assert(entries_map(out@) =~= entries_map(self.entries@)) by {
                assert forall|k: Seq<char>| entries_map(out@).dom().contains(k) <==> entries_map(self.entries@).dom().contains(k) by {
                    if entries_map(out@).dom().contains(k) {
                        let j = choose|j: int| 0 <= j < out@.len() && out@[j].0@ == k;
                        assert(self.entries@[j].0@ == k);
                    }
                    if entries_map(self.entries@).dom().contains(k) {
                        let j = choose|j: int| 0 <= j < self.entries@.len() && self.entries@[j].0@ == k;
                        assert(out@[j].0@ == k);
                    }
                }
                assert forall|k: Seq<char>| entries_map(out@).dom().contains(k) implies entries_map(out@)[k] == entries_map(self.entries@)[k] by {
                    let j = choose|j: int| 0 <= j < out@.len() && out@[j].0@ == k;
                    assert(self.entries@[j].0@ == k);
                }
            }
        }
        StrMap { entries: out }
    }

    /// A copy of the entries, in insertion order.
    pub fn pairs(&self) -> (r: Vec<(String, String)>)
        ensures
            r@.map_values(|e: (String, String)| (e.0@, e.1@)) == self.entries_view(),
            r.len() == self@.dom().len(),
            forall|i: int, j: int| 0 <= i < r.len() && 0 <= j < r.len() && i != j ==> r@[i].0@ != r@[j].0@,
            forall|i: int| 0 <= i < r.len() ==> self@.dom().contains(#[trigger] r@[i].0@) && self@[r@[i].0@] == r@[i].1@,
            forall|k: Seq<char>| #[trigger] self@.dom().contains(k) ==> exists|i: int| 0 <= i < r.len() && r@[i].0@ == k,
    {
        proof {
            use_type_invariant(self);
            lemma_entries_map(self.entries@);
            lemma_entries_len(self.entries@);
        }
        let mut out: Vec<(String, String)> = Vec::new();
        let mut i: usize = 0;
        while i < self.entries.len()
            invariant
                i <= self.entries.len(),
                out.len() == i,
                forall|j: int| 0 <= j < i ==> (#[trigger] out@[j]).0@ == self.entries@[j].0@ && out@[j].1@ == self.entries@[j].1@,
            decreases self.entries.len() - i,
        {
            out.push((self.entries[i].0.clone(), self.entries[i].1.clone()));
            i = i + 1;
        }
        assert(out@.map_values(|e: (String, String)| (e.0@, e.1@)) =~= self.entries_view());
        assert forall|k: Seq<char>| #[trigger] self@.dom().contains(k) implies exists|i: int| 0 <= i < out.len() && out@[i].0@ == k by {
            let i = choose|i: int| 0 <= i < self.entries@.len() && self.entries@[i].0@ == k;
            assert(0 <= i < out.len());
            assert(out@[i].0@ == k);
        }
        out
    }
}

proof fn lemma_entries_len(s: Seq<(String, String)>)
    requires
        distinct_keys(s),
    ensures
        entries_map(s).dom().len() == s.len(),
    decreases s.len(),
{
    if s.len() > 0 {
        let t = s.drop_last();
        assert(distinct_keys(t));
        lemma_entries_len(t);
        lemma_entries_map(t);
        assert(!entries_map(t).dom().contains(s.last().0@)) by {
            if entries_map(t).dom().contains(s.last().0@) {
                let i = choose|i: int| 0 <= i < t.len() && t[i].0@ == s.last().0@;
                assert(s[i].0@ == s[s.len() - 1].0@);
            }
        }
    }
}

} // verus!
