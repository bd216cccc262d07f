//! A collection of records with string ids, kept in id order with one record
//! per id.
use vstd::prelude::*;
use crate::text::{lemma_seq_lt_asymmetric, lemma_seq_lt_total, lemma_seq_lt_transitive, seq_lt, str_eq, str_lt};

verus! {

/// A record identified by a string key.
pub trait Keyed {
    spec fn key_view(&self) -> Seq<char>;

    fn key(&self) -> (r: &str)
        ensures
            r@ == self.key_view();
}

/// Every key sorts strictly before every later one.
pub open spec fn keys_sorted<T: Keyed>(s: Seq<T>) -> bool {
    forall|i: int, j: int| 0 <= i < j < s.len() ==> seq_lt(#[trigger] s[i].key_view(), #[trigger] s[j].key_view())
}

/// A position of a record with key `k`.
pub open spec fn position_of<T: Keyed>(s: Seq<T>, k: Seq<char>) -> int {
    choose|i: int| 0 <= i < s.len() && s[i].key_view() == k
}

/// The records of a sequence by key.
pub open spec fn records_map<T: Keyed>(s: Seq<T>) -> Map<Seq<char>, T> {
    Map::new(
        |k: Seq<char>| exists|i: int| 0 <= i < s.len() && s[i].key_view() == k,
        |k: Seq<char>| s[position_of(s, k)],
    )
}

proof fn lemma_sorted_unique<T: Keyed>(s: Seq<T>, i: int, j: int)
    requires
        keys_sorted(s),
        0 <= i < s.len(),
        0 <= j < s.len(),
        s[i].key_view() == s[j].key_view(),
    ensures
        i == j,
{
    if i < j {
        lemma_seq_lt_asymmetric(s[i].key_view(), s[j].key_view());
    } else if j < i {
        lemma_seq_lt_asymmetric(s[j].key_view(), s[i].key_view());
    }
}

proof fn lemma_records_at<T: Keyed>(s: Seq<T>, i: int)
    requires
        keys_sorted(s),
        0 <= i < s.len(),
    ensures
        records_map(s).dom().contains(s[i].key_view()),
        records_map(s)[s[i].key_view()] == s[i],
{
    let k = s[i].key_view();
    assert(exists|j: int| 0 <= j < s.len() && s[j].key_view() == k);
    let j = position_of(s, k);
    lemma_sorted_unique(s, i, j);
    assert(records_map(s).dom().contains(k));
    assert(records_map(s)[k] == s[j]);
}

proof fn lemma_absent<T: Keyed>(s: Seq<T>, p: int, key: Seq<char>)
    requires
        keys_sorted(s),
        0 <= p <= s.len(),
        forall|i: int| 0 <= i < p ==> seq_lt(#[trigger] s[i].key_view(), key),
        p < s.len() ==> seq_lt(key, s[p].key_view()),
    ensures
        !records_map(s).dom().contains(key),
{
    if records_map(s).dom().contains(key) {
        let j = choose|j: int| 0 <= j < s.len() && s[j].key_view() == key;
        if j < p {
            lemma_seq_lt_asymmetric(s[j].key_view(), key);
        } else if j > p {
            lemma_seq_lt_transitive(key, s[p].key_view(), s[j].key_view());
            lemma_seq_lt_asymmetric(key, s[j].key_view());
        } else {
            lemma_seq_lt_asymmetric(key, s[j].key_view());
        }
    }
}

/// Records with string keys, one per key, in key order.
#[derive(Debug)]
pub struct KeyedSet<T: Keyed> {
    items: Vec<T>,
}

impl<T: Keyed> KeyedSet<T> {
    #[verifier::type_invariant]
    spec fn sorted(self) -> bool {
        keys_sorted(self.items@)
    }

    /// The records by key.
    pub closed spec fn view(&self) -> Map<Seq<char>, T> {
        records_map(self.items@)
    }

    /// The records in key order.
    pub closed spec fn ordered(&self) -> Seq<T> {
        self.items@
    }

    /// An empty set.
    pub fn new() -> (r: KeyedSet<T>)
        ensures
            r@ == Map::<Seq<char>, T>::empty(),
            r.ordered().len() == 0,
    {
        let r = KeyedSet { items: Vec::new() };
        assert(r@ =~= Map::<Seq<char>, T>::empty());
        r
    }

    /// The records in key order: keys strictly increase, and each record is
    /// the one stored under its key.
    pub fn items(&self) -> (r: &Vec<T>)
        ensures
            r@ == self.ordered(),
            keys_sorted(r@),
            forall|i: int| 0 <= i < r.len() ==> self@.dom().contains((#[trigger] r@[i]).key_view()) && self@[r@[i].key_view()] == r@[i],
            forall|k: Seq<char>| #[trigger] self@.dom().contains(k) ==> exists|i: int| 0 <= i < r.len() && r@[i].key_view() == k,
    {
        proof {
            use_type_invariant(self);
            assert forall|i: int| 0 <= i < self.items@.len() implies self@.dom().contains((#[trigger] self.items@[i]).key_view()) && self@[self.items@[i].key_view()] == self.items@[i] by {
                lemma_records_at(self.items@, i);
            }
        }
        &self.items
    }

    /// The position a key has, or would be inserted at.
    fn position(&self, key: &str) -> (r: (usize, bool))
        ensures
            r.0 <= self.items@.len(),
            forall|i: int| 0 <= i < r.0 ==> seq_lt(#[trigger] self.items@[i].key_view(), key@),
            r.1 == (r.0 < self.items@.len() && self.items@[r.0 as int].key_view() == key@),
            !r.1 && r.0 < self.items@.len() ==> seq_lt(key@, self.items@[r.0 as int].key_view()),
    {
        proof {
            use_type_invariant(self);
        }
        let mut p: usize = 0;
        while p < self.items.len() && str_lt(self.items[p].key(), key)
            invariant
                p <= self.items@.len(),
                forall|i: int| 0 <= i < p ==> seq_lt(#[trigger] self.items@[i].key_view(), key@),
            decreases self.items.len() - p,
        {
            p = p + 1;
        }
        if p < self.items.len() {
            let found = str_eq(self.items[p].key(), key);
            proof {
                if !found {
                    lemma_seq_lt_total(self.items@[p as int].key_view(), key@);
                }
            }
            (p, found)
        } else {
            (p, false)
        }
    }

    /// Whether a record has this key.
    pub fn contains_key(&self, key: &str) -> (r: bool)
        ensures
            r == self@.dom().contains(key@),
    {
        proof {
            use_type_invariant(self);
        }
        let (p, found) = self.position(key);
        proof {
            if found {
                lemma_records_at(self.items@, p as int);
            } else {
                lemma_absent(self.items@, p as int, key@);
            }
        }
        found
    }

    /// Stores a record under its key, replacing the record stored there.
    pub fn upsert(&mut self, item: T)
        ensures
            final(self)@ == old(self)@.insert(item.key_view(), item),
    {
        proof {
            use_type_invariant(&*self);
        }
        let ghost k = item.key_view();
        let ghost old_items = self.items@;
        let (p, found) = self.position(item.key());
        let mut items: Vec<T> = Vec::new();
        std::mem::swap(&mut items, &mut self.items);
        if found {
            items.set(p, item);
        } else {
            items.insert(p, item);
        }
        proof {
            let s = items@;
            assert(keys_sorted(s)) by {
                assert forall|a: int, b: int| 0 <= a < b < s.len() implies seq_lt(#[trigger] s[a].key_view(), #[trigger] s[b].key_view()) by {
                    if found {
                        if a == p as int {
                            assert(s[b] == old_items[b]);
                            assert(seq_lt(old_items[a].key_view(), old_items[b].key_view()));
                        } else if b == p as int {
                            assert(s[a] == old_items[a]);
                        } else {
                            assert(s[a] == old_items[a] && s[b] == old_items[b]);
                        }
                    } else {
                        if b < p {
                            assert(s[a] == old_items[a] && s[b] == old_items[b]);
                        } else if b == p as int {
                            assert(s[a] == old_items[a]);
                        } else if a < p {
                            assert(s[a] == old_items[a] && s[b] == old_items[b - 1]);
                            if b - 1 > p {
                                lemma_seq_lt_transitive(k, old_items[p as int].key_view(), old_items[b - 1].key_view());
                            }
                            lemma_seq_lt_transitive(old_items[a].key_view(), k, old_items[b - 1].key_view());
                        } else if a == p as int {
                            assert(s[b] == old_items[b - 1]);
                            if b - 1 > p {
                                lemma_seq_lt_transitive(k, old_items[p as int].key_view(), old_items[b - 1].key_view());
                            }
                        } else {
                            assert(s[a] == old_items[a - 1] && s[b] == old_items[b - 1]);
                        }
                    }
                }
            }
            let m1 = records_map(s);
            let m2 = records_map(old_items).insert(k, s[p as int]);
            assert forall|x: Seq<char>| m1.dom().contains(x) <==> m2.dom().contains(x) by {
                if m1.dom().contains(x) {
                    let j = choose|j: int| 0 <= j < s.len() && s[j].key_view() == x;
                    if found {
                        if j != p as int {
                            assert(old_items[j] == s[j]);
                        }
                    } else if j < p {
                        assert(old_items[j] == s[j]);
                    } else if j > p {
                        assert(old_items[j - 1] == s[j]);
                    }
                }
                if m2.dom().contains(x) {
                    if x == k {
                        assert(s[p as int].key_view() == x);
                    } else {
                        let j = choose|j: int| 0 <= j < old_items.len() && old_items[j].key_view() == x;
                        if found {
                            assert(s[j] == old_items[j] || j == p as int);
                            if j == p as int {
                                assert(old_items[j].key_view() == k);
                            }
                            assert(s[j].key_view() == x);
                        } else if j < p {
                            assert(s[j] == old_items[j]);
                        } else {
                            assert(s[j + 1] == old_items[j]);
                        }
                    }
                }
            }
            assert forall|x: Seq<char>| m1.dom().contains(x) implies m1[x] == m2[x] by {
                let j = choose|j: int| 0 <= j < s.len() && s[j].key_view() == x;
                lemma_records_at(s, j);
                if x != k {
                    if found {
                        assert(old_items[j] == s[j] || j == p as int);
                        if j == p as int {
                            assert(s[j].key_view() == k);
                        }
                        lemma_records_at(old_items, j);
                    } else if j < p {
                        assert(old_items[j] == s[j]);
                        lemma_records_at(old_items, j);
                    } else if j > p {
                        assert(old_items[j - 1] == s[j]);
                        lemma_records_at(old_items, j - 1);
                    }
                } else {
                    lemma_records_at(s, p as int);
                    lemma_sorted_unique(s, j, p as int);
                }
            }
            assert(m1 =~= m2);
        }
        self.items = items;
    }

    /// Removes the record with this key, returning it.
    pub fn remove(&mut self, key: &str) -> (r: Option<T>)
        ensures
            final(self)@ == old(self)@.remove(key@),
            old(self)@.dom().contains(key@) ==> r == Some(old(self)@[key@]),
            !old(self)@.dom().contains(key@) ==> r is None,
    {
        proof {
            use_type_invariant(&*self);
        }
        let ghost old_items = self.items@;
        let (p, found) = self.position(key);
        if !found {
            proof {
                lemma_absent(old_items, p as int, key@);
            }
            assert(records_map(old_items).remove(key@) =~= records_map(old_items));
            return None;
        }
        proof {
            lemma_records_at(old_items, p as int);
        }
        let mut items: Vec<T> = Vec::new();
        std::mem::swap(&mut items, &mut self.items);
        let removed = items.remove(p);
        proof {
            let s = items@;
            assert(keys_sorted(s)) by {
                assert forall|a: int, b: int| 0 <= a < b < s.len() implies seq_lt(#[trigger] s[a].key_view(), #[trigger] s[b].key_view()) by {
                    assert(s.len() + 1 == old_items.len());
                    if b < p {
                        assert(s[a] == old_items[a] && s[b] == old_items[b]);
                    } else if a < p {
                        assert(s[a] == old_items[a] && s[b] == old_items[b + 1]);
                    } else {
                        assert(s[a] == old_items[a + 1] && s[b] == old_items[b + 1]);
                    }
                }
            }
            let m1 = records_map(s);
            let m2 = records_map(old_items).remove(key@);
            assert forall|x: Seq<char>| m1.dom().contains(x) <==> m2.dom().contains(x) by {
                if m1.dom().contains(x) {
                    let j = choose|j: int| 0 <= j < s.len() && s[j].key_view() == x;
                    let oj = if j < p { j } else { j + 1 };
                    assert(old_items[oj] == s[j]);
                    if x == key@ {
                        lemma_sorted_unique(old_items, oj, p as int);
                    }
                }
                if m2.dom().contains(x) {
                    let j = choose|j: int| 0 <= j < old_items.len() && old_items[j].key_view() == x;
                    if j < p {
                        assert(s[j] == old_items[j]);
                    } else if j > p {
                        assert(s[j - 1] == old_items[j]);
                    }
                }
            }
            assert forall|x: Seq<char>| m1.dom().contains(x) implies m1[x] == m2[x] by {
                let j = choose|j: int| 0 <= j < s.len() && s[j].key_view() == x;
                lemma_records_at(s, j);
                let oj = if j < p { j } else { j + 1 };
                assert(old_items[oj] == s[j]);
                lemma_records_at(old_items, oj);
            }
            assert(m1 =~= m2);
        }
        self.items = items;
        Some(removed)
    }

    /// The number of records.
    pub fn len(&self) -> (r: usize)
        ensures
            r == self.ordered().len(),
    {
        self.items.len()
    }
}

} // verus!
