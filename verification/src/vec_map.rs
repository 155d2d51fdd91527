//! Ordered association maps used throughout the engine in place of hash
//! maps: entries keep their insertion order, which makes every walk over a
//! map deterministic, and the view of a map is a `Map` from keys to values.

use vstd::prelude::*;

use crate::model::PlayerId;

verus! {

/// No two entries share a key.
pub open spec fn keys_distinct<T>(s: Seq<(i32, T)>) -> bool {
    forall|i: int, j: int| 0 <= i < j < s.len() ==> s[i].0 != s[j].0
}

/// Some entry carries the key.
pub open spec fn seq_has_key<T>(s: Seq<(i32, T)>, k: i32) -> bool {
    exists|i: int| 0 <= i < s.len() && s[i].0 == k
}

/// The index of the entry carrying the key, where one exists.
pub open spec fn seq_key_index<T>(s: Seq<(i32, T)>, k: i32) -> int {
    choose|i: int| 0 <= i < s.len() && s[i].0 == k
}

/// The association sequence read as a map.
pub open spec fn seq_as_map<T>(s: Seq<(i32, T)>) -> Map<i32, T> {
    Map::new(|k: i32| seq_has_key(s, k), |k: i32| s[seq_key_index(s, k)].1)
}

pub proof fn lemma_key_index<T>(s: Seq<(i32, T)>, k: i32)
    requires
        keys_distinct(s),
        seq_has_key(s, k),
    ensures
        0 <= seq_key_index(s, k) < s.len(),
        s[seq_key_index(s, k)].0 == k,
        forall|i: int| 0 <= i < s.len() && s[i].0 == k ==> i == seq_key_index(s, k),
{
    let idx = seq_key_index(s, k);
    assert(0 <= idx < s.len() && s[idx].0 == k);
    assert forall|i: int| 0 <= i < s.len() && s[i].0 == k implies i == idx by {
        if i != idx {
            if i < idx {
                assert(s[i].0 != s[idx].0);
            } else {
                assert(s[idx].0 != s[i].0);
            }
        }
    }
}

pub proof fn lemma_push_fresh<T>(s: Seq<(i32, T)>, k: i32, v: T)
    requires
        keys_distinct(s),
        !seq_has_key(s, k),
    ensures
        keys_distinct(s.push((k, v))),
        seq_as_map(s.push((k, v))) == seq_as_map(s).insert(k, v),
{
    let t = s.push((k, v));
    assert forall|i: int, j: int| 0 <= i < j < t.len() implies t[i].0 != t[j].0 by {
        if j == s.len() {
            assert(t[j].0 == k);
            assert(t[i] == s[i]);
            if s[i].0 == k {
                assert(seq_has_key(s, k));
            }
        } else {
            assert(t[i] == s[i] && t[j] == s[j]);
        }
    }
    assert forall|x: i32| #[trigger] seq_has_key(t, x) implies seq_has_key(s, x) || x == k by {
        let i = choose|i: int| 0 <= i < t.len() && t[i].0 == x;
        if i < s.len() {
            assert(s[i].0 == x);
        }
    }
    assert forall|x: i32| seq_has_key(s, x) implies #[trigger] seq_has_key(t, x) by {
        let i = choose|i: int| 0 <= i < s.len() && s[i].0 == x;
        assert(t[i].0 == x);
    }
    assert(t[s.len() as int].0 == k);
    assert(seq_has_key(t, k));
    assert forall|x: i32| #[trigger] seq_has_key(t, x) implies seq_as_map(t)[x] == seq_as_map(
        s,
    ).insert(k, v)[x] by {
        lemma_key_index(t, x);
        let it = seq_key_index(t, x);
        if x == k {
            assert(it == s.len()) by {
                if it < s.len() {
                    assert(s[it].0 == k);
                    assert(seq_has_key(s, k));
                }
            }
            assert(t[it].1 == v);
        } else {
            assert(it < s.len());
            assert(s[it].0 == x);
            assert(seq_has_key(s, x));
            lemma_key_index(s, x);
            assert(seq_key_index(s, x) == it);
            assert(seq_as_map(s)[x] == s[it].1);
        }
    }
    assert(seq_as_map(t) =~= seq_as_map(s).insert(k, v));
}

pub proof fn lemma_update_value<T>(s: Seq<(i32, T)>, i: int, v: T)
    requires
        keys_distinct(s),
        0 <= i < s.len(),
    ensures
        keys_distinct(s.update(i, (s[i].0, v))),
        seq_as_map(s.update(i, (s[i].0, v))) == seq_as_map(s).insert(s[i].0, v),
{
    let k = s[i].0;
    let t = s.update(i, (k, v));
    assert(forall|j: int| 0 <= j < t.len() ==> t[j].0 == s[j].0);
    assert forall|x: i32| #[trigger] seq_has_key(t, x) == seq_has_key(s, x) by {
        if seq_has_key(t, x) {
            let j = choose|j: int| 0 <= j < t.len() && t[j].0 == x;
            assert(s[j].0 == x);
        }
        if seq_has_key(s, x) {
            let j = choose|j: int| 0 <= j < s.len() && s[j].0 == x;
            assert(t[j].0 == x);
        }
    }
    assert forall|x: i32| #[trigger] seq_has_key(t, x) implies seq_as_map(t)[x] == seq_as_map(
        s,
    ).insert(k, v)[x] by {
        lemma_key_index(t, x);
        lemma_key_index(s, x);
        let it = seq_key_index(t, x);
        let is = seq_key_index(s, x);
        assert(s[it].0 == x);
        assert(is == it);
        if x == k {
            assert(it == i) by {
                assert(s[i].0 == k);
            }
            assert(t[it].1 == v);
        } else {
            assert(it != i);
            assert(t[it].1 == s[is].1);
        }
    }
    assert(seq_as_map(t) =~= seq_as_map(s).insert(k, v));
}

pub proof fn lemma_remove_at<T>(s: Seq<(i32, T)>, i: int)
    requires
        keys_distinct(s),
        0 <= i < s.len(),
    ensures
        keys_distinct(s.remove(i)),
        seq_as_map(s.remove(i)) == seq_as_map(s).remove(s[i].0),
{
    let k = s[i].0;
    let t = s.remove(i);
    assert forall|a: int, b: int| 0 <= a < b < t.len() implies t[a].0 != t[b].0 by {
        let sa: int = if a < i {
            a
        } else {
            a + 1
        };
        let sb: int = if b < i {
            b
        } else {
            b + 1
        };
        assert(t[a] == s[sa] && t[b] == s[sb]);
        assert(s[sa].0 != s[sb].0);
    }
    assert forall|x: i32| #[trigger] seq_has_key(t, x) implies seq_has_key(s, x) && x != k by {
        let j = choose|j: int| 0 <= j < t.len() && t[j].0 == x;
        let sj: int = if j < i {
            j
        } else {
            j + 1
        };
        assert(s[sj].0 == x);
        if x == k {
            lemma_key_index(s, k);
            assert(sj == i);
            assert(false);
        }
    }
    assert forall|x: i32| seq_has_key(s, x) && x != k implies #[trigger] seq_has_key(t, x) by {
        lemma_key_index(s, x);
        let j = seq_key_index(s, x);
        assert(j != i) by {
            assert(s[i].0 == k);
        }
        if j < i {
            assert(t[j].0 == x);
        } else {
            assert(t[j - 1].0 == x);
        }
    }
    assert forall|x: i32| #[trigger] seq_has_key(t, x) implies seq_as_map(t)[x] == seq_as_map(
        s,
    )[x] by {
        lemma_key_index(t, x);
        lemma_key_index(s, x);
        let jt = seq_key_index(t, x);
        let sj: int = if jt < i {
            jt
        } else {
            jt + 1
        };
        assert(t[jt] == s[sj]);
        assert(seq_key_index(s, x) == sj);
    }
    assert(seq_as_map(t) =~= seq_as_map(s).remove(k));
}

/// An association map from `i32` keys to values, keeping insertion order.
#[derive(Debug)]
pub struct IdMap<T> {
    entries: Vec<(i32, T)>,
}

impl<T> View for IdMap<T> {
    type V = Map<i32, T>;

    closed spec fn view(&self) -> Map<i32, T> {
        seq_as_map(self.entries@)
    }
}

impl<T> IdMap<T> {
    /// The entries in insertion order.
    pub closed spec fn entries_seq(self) -> Seq<(i32, T)> {
        self.entries@
    }

    /// Well-formed: no key occurs twice.
    pub open spec fn wf(self) -> bool {
        keys_distinct(self.entries_seq())
    }

    /// Every entry of the sequence is in the view.
    pub proof fn lemma_entry_in_view(self, i: int)
        requires
            self.wf(),
            0 <= i < self.entries_seq().len(),
        ensures
            self@.contains_key(self.entries_seq()[i].0),
            self@[self.entries_seq()[i].0] == self.entries_seq()[i].1,
    {
        let s = self.entries_seq();
        assert(seq_has_key(s, s[i].0));
        lemma_key_index(s, s[i].0);
    }

    /// The view's keys are exactly the keys of the sequence.
    pub proof fn lemma_view_has_key(self, k: i32)
        ensures
            self@.contains_key(k) == seq_has_key(self.entries_seq(), k),
    {
    }

    pub fn new() -> (r: IdMap<T>)
        ensures
            r.wf(),
            r@ == Map::<i32, T>::empty(),
            r.entries_seq() == Seq::<(i32, T)>::empty(),
    {
        let r = IdMap { entries: Vec::new() };
        proof {
            assert(r@ =~= Map::<i32, T>::empty());
        }
        r
    }

    pub fn len(&self) -> (n: usize)
        ensures
            n == self.entries_seq().len(),
    {
        self.entries.len()
    }

    /// The position of the entry carrying the key, if any.
    pub fn get_index(&self, k: i32) -> (r: Option<usize>)
        requires
            self.wf(),
        ensures
            match r {
                Some(i) => {
                    &&& i < self.entries_seq().len()
                    &&& self.entries_seq()[i as int].0 == k
                    &&& i == seq_key_index(self.entries_seq(), k)
                    &&& self@.contains_key(k)
                },
                None => !self@.contains_key(k),
            },
    {
        let n = self.entries.len();
        for i in 0..n
            invariant
                n == self.entries_seq().len(),
                self.wf(),
                forall|j: int| 0 <= j < i ==> self.entries_seq()[j].0 != k,
        {
            if self.entries[i].0 == k {
                proof {
                    lemma_key_index(self.entries_seq(), k);
                }
                return Some(i);
            }
        }
        proof {
            if seq_has_key(self.entries_seq(), k) {
                let j = seq_key_index(self.entries_seq(), k);
                lemma_key_index(self.entries_seq(), k);
                assert(self.entries_seq()[j].0 != k);
            }
        }
        None
    }

    pub fn contains_key(&self, k: i32) -> (r: bool)
        requires
            self.wf(),
        ensures
            r == self@.contains_key(k),
    {
        self.get_index(k).is_some()
    }

    pub fn get(&self, k: i32) -> (r: Option<&T>)
        requires
            self.wf(),
        ensures
            match r {
                Some(v) => self@.contains_key(k) && *v == self@[k],
                None => !self@.contains_key(k),
            },
    {
        match self.get_index(k) {
            Some(i) => {
                proof {
                    self.lemma_entry_in_view(i as int);
                }
                Some(&self.entries[i].1)
            },
            None => None,
        }
    }

    /// Inserts or replaces. An existing key keeps its position; a new key is
    /// appended.
    pub fn insert(&mut self, k: i32, v: T)
        requires
            old(self).wf(),
        ensures
            final(self).wf(),
            final(self)@ == old(self)@.insert(k, v),
            old(self)@.contains_key(k) ==> final(self).entries_seq() == old(
                self,
            ).entries_seq().update(seq_key_index(old(self).entries_seq(), k), (k, v)),
            !old(self)@.contains_key(k) ==> final(self).entries_seq() == old(
                self,
            ).entries_seq().push((k, v)),
    {
        match self.get_index(k) {
            Some(i) => {
                let ghost s = self.entries_seq();
                proof {
                    lemma_update_value(s, i as int, v);
                }
                let _old = self.entries.remove(i);
                self.entries.insert(i, (k, v));
                proof {
                    assert(self.entries_seq() =~= s.update(i as int, (s[i as int].0, v)));
                }
            },
            None => {
                proof {
                    lemma_push_fresh(self.entries_seq(), k, v);
                }
                self.entries.push((k, v));
            },
        }
    }

    /// Removes the entry carrying the key, returning its value.
    pub fn remove(&mut self, k: i32) -> (r: Option<T>)
        requires
            old(self).wf(),
        ensures
            final(self).wf(),
            final(self)@ == old(self)@.remove(k),
            match r {
                Some(v) => {
                    &&& old(self)@.contains_key(k)
                    &&& v == old(self)@[k]
                    &&& final(self).entries_seq() == old(self).entries_seq().remove(
                        seq_key_index(old(self).entries_seq(), k),
                    )
                },
                None => {
                    &&& !old(self)@.contains_key(k)
                    &&& final(self).entries_seq() == old(self).entries_seq()
                },
            },
    {
        match self.get_index(k) {
            Some(i) => {
                let ghost s = self.entries_seq();
                proof {
                    lemma_remove_at(s, i as int);
                    lemma_key_index(s, k);
                }
                let (_, v) = self.entries.remove(i);
                proof {
                    assert(self.entries_seq() =~= s.remove(i as int));
                    old(self).lemma_entry_in_view(i as int);
                }
                Some(v)
            },
            None => {
                proof {
                    assert(self@ =~= self@.remove(k));
                }
                None
            },
        }
    }

    /// The key of the entry at a position.
    pub fn key_at(&self, i: usize) -> (k: i32)
        requires
            i < self.entries_seq().len(),
        ensures
            k == self.entries_seq()[i as int].0,
    {
        self.entries[i].0
    }

    /// The value of the entry at a position.
    pub fn value_at(&self, i: usize) -> (v: &T)
        requires
            i < self.entries_seq().len(),
        ensures
            *v == self.entries_seq()[i as int].1,
    {
        &self.entries[i].1
    }

    /// Replaces the value at a position, returning the old value. The key and
    /// the position are unchanged.
    pub fn replace_value_at(&mut self, i: usize, v: T) -> (r: T)
        requires
            old(self).wf(),
            i < old(self).entries_seq().len(),
        ensures
            final(self).wf(),
            r == old(self).entries_seq()[i as int].1,
            final(self).entries_seq() == old(self).entries_seq().update(
                i as int,
                (old(self).entries_seq()[i as int].0, v),
            ),
            final(self)@ == old(self)@.insert(old(self).entries_seq()[i as int].0, v),
    {
        let ghost s = self.entries_seq();
        let k = self.entries[i].0;
        proof {
            lemma_update_value(s, i as int, v);
        }
        let (_, r) = self.entries.remove(i);
        self.entries.insert(i, (k, v));
        proof {
            assert(self.entries_seq() =~= s.update(i as int, (s[i as int].0, v)));
        }
        r
    }
}

} // verus!
