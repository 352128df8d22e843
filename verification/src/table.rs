//! Ledger tables: insertion-ordered key/value collections keyed by address.
//!
//! Each logical collection of the store (current dealers, past dealers,
//! blacklistings) is one such table. A table's mathematical value is the
//! sequence of its `(key, value)` entries in insertion order; a
//! well-formed table never holds two entries with the same key.

use crate::addr::Addr;
use vstd::prelude::*;

verus! {

/// Whether some entry of `s` has key `k`.
pub open spec fn tbl_contains_key<T>(s: Seq<(Seq<char>, T)>, k: Seq<char>) -> bool {
    exists|i: int| 0 <= i < s.len() && s[i].0 == k
}

/// The index of the entry with key `k` (meaningful when such an entry exists
/// and keys are distinct).
pub open spec fn tbl_index_of<T>(s: Seq<(Seq<char>, T)>, k: Seq<char>) -> int {
    choose|i: int| 0 <= i < s.len() && s[i].0 == k
}

/// The value stored under key `k`.
pub open spec fn tbl_value_of<T>(s: Seq<(Seq<char>, T)>, k: Seq<char>) -> T {
    s[tbl_index_of(s, k)].1
}

/// The value stored under key `k`, or `None` when the key is absent.
pub open spec fn tbl_opt_value<T>(s: Seq<(Seq<char>, T)>, k: Seq<char>) -> Option<T> {
    if tbl_contains_key(s, k) {
        Option::Some(tbl_value_of(s, k))
    } else {
        Option::None
    }
}

/// No two entries of `s` share a key.
pub open spec fn tbl_distinct_keys<T>(s: Seq<(Seq<char>, T)>) -> bool {
    forall|i: int, j: int| 0 <= i < j < s.len() ==> s[i].0 != s[j].0
}

/// `s` without the entry keyed `k`; `s` itself when the key is absent.
pub open spec fn tbl_remove_key<T>(s: Seq<(Seq<char>, T)>, k: Seq<char>) -> Seq<(Seq<char>, T)> {
    if tbl_contains_key(s, k) {
        s.remove(tbl_index_of(s, k))
    } else {
        s
    }
}

/// With distinct keys, an entry holding `k` at position `i` is the entry
/// `tbl_index_of` picks.
pub proof fn lemma_tbl_index_unique<T>(s: Seq<(Seq<char>, T)>, k: Seq<char>, i: int)
    requires
        tbl_distinct_keys(s),
        0 <= i < s.len(),
        s[i].0 == k,
    ensures
        tbl_contains_key(s, k),
        tbl_index_of(s, k) == i,
        tbl_value_of(s, k) == s[i].1,
{
    assert(tbl_contains_key(s, k));
    let j = tbl_index_of(s, k);
    assert(0 <= j < s.len() && s[j].0 == k);
    if i < j {
        assert(s[i].0 != s[j].0);
    } else if j < i {
        assert(s[j].0 != s[i].0);
    }
}

/// How membership and lookup change when an entry is appended.
pub proof fn lemma_tbl_push<T>(s: Seq<(Seq<char>, T)>, k: Seq<char>, v: T)
    requires
        tbl_distinct_keys(s),
        !tbl_contains_key(s, k),
    ensures
        tbl_distinct_keys(s.push((k, v))),
        forall|k2: Seq<char>|
            tbl_contains_key(s.push((k, v)), k2) == (tbl_contains_key(s, k2) || k2 == k),
        tbl_value_of(s.push((k, v)), k) == v,
        forall|k2: Seq<char>|
            tbl_contains_key(s, k2) ==> tbl_value_of(s.push((k, v)), k2) == tbl_value_of(s, k2),
{
    let t = s.push((k, v));
    assert forall|i: int, j: int| 0 <= i < j < t.len() implies t[i].0 != t[j].0 by {
        if j < s.len() {
            assert(s[i].0 != s[j].0);
        } else {
            assert(t[j].0 == k);
            assert(t[i] == s[i]);
            assert(s[i].0 != k) by {
                if s[i].0 == k {
                    assert(tbl_contains_key(s, k));
                }
            }
        }
    }
    assert forall|k2: Seq<char>|
        tbl_contains_key(t, k2) == (tbl_contains_key(s, k2) || k2 == k) by {
        if tbl_contains_key(s, k2) {
            let i = tbl_index_of(s, k2);
            assert(t[i].0 == k2);
            assert(tbl_contains_key(t, k2));
        }
        if k2 == k {
            assert(t[s.len() as int].0 == k2);
            assert(tbl_contains_key(t, k2));
        }
        if tbl_contains_key(t, k2) && k2 != k {
            let i = tbl_index_of(t, k2);
            assert(0 <= i < t.len() && t[i].0 == k2);
            assert(i < s.len());
            assert(s[i].0 == k2);
            assert(tbl_contains_key(s, k2));
        }
    }
    lemma_tbl_index_unique(t, k, s.len() as int);
    assert forall|k2: Seq<char>|
        tbl_contains_key(s, k2) implies tbl_value_of(t, k2) == tbl_value_of(s, k2) by {
        let i = tbl_index_of(s, k2);
        assert(0 <= i < s.len() && s[i].0 == k2);
        lemma_tbl_index_unique(s, k2, i);
        assert(t[i].0 == k2);
        lemma_tbl_index_unique(t, k2, i);
    }
}

/// How membership and lookup change when the entry keyed `k` is removed.
pub proof fn lemma_tbl_remove<T>(s: Seq<(Seq<char>, T)>, k: Seq<char>)
    requires
        tbl_distinct_keys(s),
    ensures
        tbl_distinct_keys(tbl_remove_key(s, k)),
        !tbl_contains_key(tbl_remove_key(s, k), k),
        forall|k2: Seq<char>| #![auto]
            k2 != k ==> tbl_contains_key(tbl_remove_key(s, k), k2) == tbl_contains_key(s, k2),
        forall|k2: Seq<char>| #![auto]
            k2 != k && tbl_contains_key(s, k2) ==> tbl_value_of(tbl_remove_key(s, k), k2)
                == tbl_value_of(s, k2),
{
    if !tbl_contains_key(s, k) {
        return ;
    }
    let i = tbl_index_of(s, k);
    assert(0 <= i < s.len() && s[i].0 == k);
    let t = s.remove(i);
    assert(t == tbl_remove_key(s, k));
    // index mapping for Seq::remove
    assert(t.len() == s.len() - 1);
    assert(forall|x: int| 0 <= x < i ==> t[x] == s[x]);
    assert(forall|x: int| i <= x < t.len() ==> t[x] == s[x + 1]);
    assert forall|x: int, y: int| 0 <= x < y < t.len() implies t[x].0 != t[y].0 by {
        let x2: int = if x < i { x } else { x + 1 };
        let y2: int = if y < i { y } else { y + 1 };
        assert(s[x2].0 != s[y2].0);
    }
    assert forall|x: int| 0 <= x < t.len() implies t[x].0 != k by {
        let x2: int = if x < i { x } else { x + 1 };
        assert(t[x] == s[x2]);
        if x2 != i {
            assert(s[x2].0 != s[i].0) by {
                if x2 < i {
                    assert(s[x2].0 != s[i].0);
                }
            }
        }
    }
    assert forall|k2: Seq<char>| #![auto]
        k2 != k implies tbl_contains_key(t, k2) == tbl_contains_key(s, k2) by {
        if tbl_contains_key(t, k2) {
            let x = tbl_index_of(t, k2);
            let x2: int = if x < i { x } else { x + 1 };
            assert(s[x2].0 == k2);
            assert(tbl_contains_key(s, k2));
        }
        if tbl_contains_key(s, k2) {
            let x = tbl_index_of(s, k2);
            assert(0 <= x < s.len() && s[x].0 == k2);
            assert(x != i);
            if x < i {
                assert(t[x].0 == k2);
            } else {
                assert(t[x - 1].0 == k2);
            }
            assert(tbl_contains_key(t, k2));
        }
    }
    assert forall|k2: Seq<char>| #![auto]
        k2 != k && tbl_contains_key(s, k2) implies tbl_value_of(t, k2) == tbl_value_of(s, k2) by {
        let x = tbl_index_of(s, k2);
        assert(0 <= x < s.len() && s[x].0 == k2);
        lemma_tbl_index_unique(s, k2, x);
        assert(x != i);
        if x < i {
            assert(t[x].0 == k2 && t[x].1 == s[x].1);
            lemma_tbl_index_unique(t, k2, x);
        } else {
            assert(t[x - 1].0 == k2 && t[x - 1].1 == s[x].1);
            lemma_tbl_index_unique(t, k2, x - 1);
        }
    }
}

/// An insertion-ordered key/value table keyed by [`Addr`].
#[derive(Debug)]
pub struct Table<V> {
    entries: Vec<(Addr, V)>,
}

impl<V: View> View for Table<V> {
    type V = Seq<(Seq<char>, <V as View>::V)>;

    closed spec fn view(&self) -> Self::V {
        self.entries@.map_values(|e: (Addr, V)| (e.0@, e.1@))
    }
}

impl<V: View> Table<V> {
    /// Every key appears at most once.
    pub open spec fn wf(&self) -> bool {
        tbl_distinct_keys(self@)
    }

    pub fn new() -> (t: Table<V>)
        ensures
            t@ == Seq::<(Seq<char>, <V as View>::V)>::empty(),
            t.wf(),
    {
        let t = Table { entries: Vec::new() };
        proof {
            assert(t@ =~= Seq::<(Seq<char>, <V as View>::V)>::empty());
        }
        t
    }

    pub fn len(&self) -> (n: usize)
        ensures
            n == self@.len(),
    {
        self.entries.len()
    }

    pub fn is_empty(&self) -> (b: bool)
        ensures
            b == (self@.len() == 0),
    {
        self.entries.len() == 0
    }

    /// The entry at position `i` in insertion order.
    pub fn entry_at(&self, i: usize) -> (e: &(Addr, V))
        requires
            i < self@.len(),
        ensures
            e.0@ == self@[i as int].0,
            e.1@ == self@[i as int].1,
    {
        &self.entries[i]
    }

    fn index_of(&self, k: &Addr) -> (r: Option<usize>)
        ensures
            match r {
                Option::Some(i) => i < self@.len() && self@[i as int].0 == k@,
                Option::None => !tbl_contains_key(self@, k@),
            },
    {
        let n = self.entries.len();
        let mut i: usize = 0;
        while i < n
            invariant
                n == self@.len(),
                i <= n,
                forall|j: int| 0 <= j < i ==> self@[j].0 != k@,
            decreases n - i,
        {
            if self.entries[i].0.equals(k) {
                return Option::Some(i);
            }
            i += 1;
        }
        Option::None
    }

    /// The position of the entry keyed `k` in insertion order.
    pub fn position_of(&self, k: &Addr) -> (r: Option<usize>)
        requires
            self.wf(),
        ensures
            match r {
                Option::Some(i) => tbl_contains_key(self@, k@) && i < self@.len() && i
                    == tbl_index_of(self@, k@),
                Option::None => !tbl_contains_key(self@, k@),
            },
    {
        match self.index_of(k) {
            Option::Some(i) => {
                proof {
                    lemma_tbl_index_unique(self@, k@, i as int);
                }
                Option::Some(i)
            },
            Option::None => Option::None,
        }
    }

    pub fn contains_key(&self, k: &Addr) -> (r: bool)
        ensures
            r == tbl_contains_key(self@, k@),
    {
        match self.index_of(k) {
            Option::Some(i) => {
                proof {
                    assert(tbl_contains_key(self@, k@));
                }
                true
            },
            Option::None => false,
        }
    }

    pub fn get(&self, k: &Addr) -> (r: Option<&V>)
        requires
            self.wf(),
        ensures
            match r {
                Option::Some(v) => tbl_contains_key(self@, k@) && v@ == tbl_value_of(self@, k@),
                Option::None => !tbl_contains_key(self@, k@),
            },
    {
        match self.index_of(k) {
            Option::Some(i) => {
                proof {
                    lemma_tbl_index_unique(self@, k@, i as int);
                }
                Option::Some(&self.entries[i].1)
            },
            Option::None => Option::None,
        }
    }

    /// Appends an entry for a key the table does not hold yet.
    pub fn insert(&mut self, k: Addr, v: V)
        requires
            old(self).wf(),
            !tbl_contains_key(old(self)@, k@),
        ensures
            final(self)@ == old(self)@.push((k@, v@)),
            final(self).wf(),
    {
        proof {
            lemma_tbl_push(self@, k@, v@);
        }
        let ghost pre = self@;
        let ghost kv = (k@, v@);
        self.entries.push((k, v));
        proof {
            assert(self@ =~= pre.push(kv));
        }
    }

    /// Removes the entry keyed `k`; a no-op when the key is absent.
    pub fn remove(&mut self, k: &Addr)
        requires
            old(self).wf(),
        ensures
            final(self)@ == tbl_remove_key(old(self)@, k@),
            final(self).wf(),
    {
        proof {
            lemma_tbl_remove(self@, k@);
        }
        match self.index_of(k) {
            Option::Some(i) => {
                proof {
                    lemma_tbl_index_unique(self@, k@, i as int);
                }
                let ghost pre = self@;
                let ghost gi = i as int;
                self.entries.remove(i);
                proof {
                    assert(self@ =~= pre.remove(gi));
                }
            },
            Option::None => {},
        }
    }

    /// Removes every entry.
    pub fn clear(&mut self)
        ensures
            final(self)@ == Seq::<(Seq<char>, <V as View>::V)>::empty(),
            final(self).wf(),
    {
        self.entries.clear();
        proof {
            assert(self@ =~= Seq::<(Seq<char>, <V as View>::V)>::empty());
        }
    }
}

} // verus!
