//! The explicit store handle every ledger operation works on: one table per
//! logical collection, the single epoch record, and the node-index counter.

use crate::addr::Addr;
use crate::table::{tbl_contains_key, Table};
use crate::types::{Blacklisting, DealerDetails, Epoch, EpochId, NodeIndex};
use vstd::prelude::*;

verus! {

/// Whether some entry of `s` is keyed by epoch `e` and dealer `k`.
pub open spec fn dl_contains(s: Seq<(EpochId, Seq<char>, Seq<u8>)>, e: EpochId, k: Seq<char>) -> bool {
    exists|i: int| 0 <= i < s.len() && s[i].0 == e && s[i].1 == k
}

/// The index of the entry keyed by `(e, k)`.
pub open spec fn dl_index_of(s: Seq<(EpochId, Seq<char>, Seq<u8>)>, e: EpochId, k: Seq<char>) -> int {
    choose|i: int| 0 <= i < s.len() && s[i].0 == e && s[i].1 == k
}

/// The commitment stored under `(e, k)`.
pub open spec fn dl_value_of(s: Seq<(EpochId, Seq<char>, Seq<u8>)>, e: EpochId, k: Seq<char>) -> Seq<u8> {
    s[dl_index_of(s, e, k)].2
}

/// No two entries share an `(epoch, dealer)` key.
pub open spec fn dl_distinct(s: Seq<(EpochId, Seq<char>, Seq<u8>)>) -> bool {
    forall|i: int, j: int|
        0 <= i < j < s.len() ==> !(s[i].0 == s[j].0 && s[i].1 == s[j].1)
}

/// The entries of epoch `e` among `s`, in insertion order, as
/// `(dealer, commitment)` pairs.
pub open spec fn epoch_entries(s: Seq<(EpochId, Seq<char>, Seq<u8>)>, e: EpochId) -> Seq<
    (Seq<char>, Seq<u8>),
>
    decreases s.len(),
{
    if s.len() == 0 {
        Seq::empty()
    } else {
        let rest = epoch_entries(s.drop_last(), e);
        let x = s.last();
        if x.0 == e {
            rest.push((x.1, x.2))
        } else {
            rest
        }
    }
}

/// How [`epoch_entries`] grows when an entry is appended.
pub proof fn lemma_epoch_entries_push(
    s: Seq<(EpochId, Seq<char>, Seq<u8>)>,
    e: EpochId,
    x: (EpochId, Seq<char>, Seq<u8>),
)
    ensures
        epoch_entries(s.push(x), e) == if x.0 == e {
            epoch_entries(s, e).push((x.1, x.2))
        } else {
            epoch_entries(s, e)
        },
{
    assert(s.push(x).drop_last() =~= s);
    assert(s.push(x).last() == x);
}

/// The per-epoch dealing commitments, keyed by `(epoch, dealer)` and
/// immutable once stored for a given key.
pub struct Dealings {
    entries: Vec<(EpochId, Addr, Vec<u8>)>,
}

impl View for Dealings {
    type V = Seq<(EpochId, Seq<char>, Seq<u8>)>;

    closed spec fn view(&self) -> Self::V {
        self.entries@.map_values(|e: (EpochId, Addr, Vec<u8>)| (e.0, e.1@, e.2@))
    }
}

impl Dealings {
    pub open spec fn wf(&self) -> bool {
        dl_distinct(self@)
    }

    pub fn new() -> (d: Dealings)
        ensures
            d@ == Seq::<(EpochId, Seq<char>, Seq<u8>)>::empty(),
            d.wf(),
    {
        let d = Dealings { entries: Vec::new() };
        proof {
            assert(d@ =~= Seq::<(EpochId, Seq<char>, Seq<u8>)>::empty());
        }
        d
    }

    pub fn len(&self) -> (n: usize)
        ensures
            n == self@.len(),
    {
        self.entries.len()
    }

    /// The entry at position `i` in insertion order.
    pub fn entry_at(&self, i: usize) -> (e: &(EpochId, Addr, Vec<u8>))
        requires
            i < self@.len(),
        ensures
            e.0 == self@[i as int].0,
            e.1@ == self@[i as int].1,
            e.2@ == self@[i as int].2,
    {
        &self.entries[i]
    }

    pub fn contains(&self, epoch: EpochId, dealer: &Addr) -> (r: bool)
        ensures
            r == dl_contains(self@, epoch, dealer@),
    {
        let n = self.entries.len();
        let mut i: usize = 0;
        while i < n
            invariant
                n == self@.len(),
                i <= n,
                forall|j: int| 0 <= j < i ==> !(self@[j].0 == epoch && self@[j].1 == dealer@),
            decreases n - i,
        {
            let entry = &self.entries[i];
            proof {
                assert(self@[i as int] == (entry.0, entry.1@, entry.2@));
            }
            if entry.0 == epoch && entry.1.equals(dealer) {
                proof {
                    assert(self@[i as int].0 == epoch && self@[i as int].1 == dealer@);
                    assert(dl_contains(self@, epoch, dealer@));
                }
                return true;
            }
            i += 1;
        }
        false
    }

    /// Appends a commitment for a key the registry does not hold yet.
    pub fn insert(&mut self, epoch: EpochId, dealer: Addr, commitment: Vec<u8>)
        requires
            old(self).wf(),
            !dl_contains(old(self)@, epoch, dealer@),
        ensures
            final(self)@ == old(self)@.push((epoch, dealer@, commitment@)),
            final(self).wf(),
    {
        let ghost pre = self@;
        let ghost kv = (epoch, dealer@, commitment@);
        self.entries.push((epoch, dealer, commitment));
        proof {
            assert(self@ =~= pre.push(kv));
            assert forall|i: int, j: int| 0 <= i < j < self@.len() implies !(self@[i].0 == self@[j].0
                && self@[i].1 == self@[j].1) by {
                if j < pre.len() {
                    assert(!(pre[i].0 == pre[j].0 && pre[i].1 == pre[j].1));
                } else {
                    if self@[i].0 == kv.0 && self@[i].1 == kv.1 {
                        assert(dl_contains(pre, kv.0, kv.1));
                    }
                }
            }
        }
    }

    /// Removes every commitment.
    pub fn clear(&mut self)
        ensures
            final(self)@ == Seq::<(EpochId, Seq<char>, Seq<u8>)>::empty(),
            final(self).wf(),
    {
        self.entries.clear();
        proof {
            assert(self@ =~= Seq::<(EpochId, Seq<char>, Seq<u8>)>::empty());
        }
    }

    /// The commitments of one epoch, as a table keyed by dealer.
    pub fn commitments_for_epoch(&self, epoch: EpochId) -> (t: Table<Vec<u8>>)
        requires
            self.wf(),
        ensures
            t.wf(),
            t@ == epoch_entries(self@, epoch),
            forall|k: Seq<char>| #![auto]
                tbl_contains_key(t@, k) == dl_contains(self@, epoch, k),
            forall|k: Seq<char>| #![auto]
                dl_contains(self@, epoch, k) ==> crate::table::tbl_value_of(t@, k) == dl_value_of(
                    self@,
                    epoch,
                    k,
                ),
    {
        let n = self.entries.len();
        let mut t: Table<Vec<u8>> = Table::new();
        let mut i: usize = 0;
        proof {
            assert(t@ =~= epoch_entries(self@.subrange(0, 0), epoch)) by {
                assert(self@.subrange(0, 0) =~= Seq::<(EpochId, Seq<char>, Seq<u8>)>::empty());
            }
        }
        while i < n
            invariant
                self.wf(),
                n == self@.len(),
                i <= n,
                t.wf(),
                t@ == epoch_entries(self@.subrange(0, i as int), epoch),
                forall|k: Seq<char>| #![auto]
                    tbl_contains_key(t@, k) == (exists|j: int|
                        0 <= j < i && self@[j].0 == epoch && self@[j].1 == k),
                forall|j: int| #![auto]
                    0 <= j < i && self@[j].0 == epoch ==> crate::table::tbl_value_of(t@, self@[j].1)
                        == self@[j].2,
            decreases n - i,
        {
            proof {
                assert(self@.subrange(0, i + 1) =~= self@.subrange(0, i as int).push(
                    self@[i as int],
                ));
                lemma_epoch_entries_push(self@.subrange(0, i as int), epoch, self@[i as int]);
            }
            let entry = &self.entries[i];
            proof {
                assert(self@[i as int] == (entry.0, entry.1@, entry.2@));
            }
            if entry.0 == epoch {
                let ghost pre = t@;
                proof {
                    if tbl_contains_key(t@, self@[i as int].1) {
                        let j = choose|j: int|
                            0 <= j < i && self@[j].0 == epoch && self@[j].1 == self@[i as int].1;
                        assert(!(self@[j].0 == self@[i as int].0 && self@[j].1 == self@[
                            i as int].1));
                    }
                    crate::table::lemma_tbl_push(t@, self@[i as int].1, self@[i as int].2);
                }
                let k = entry.1.clone();
                let v = entry.2.clone();
                proof {
                    assert(k@ == self@[i as int].1);
                    assert(v@ == self@[i as int].2);
                }
                t.insert(k, v);
                proof {
                    assert(t@ == pre.push((self@[i as int].1, self@[i as int].2)));
                    assert forall|k2: Seq<char>| #![auto]
                        tbl_contains_key(t@, k2) == (exists|j: int|
                            0 <= j < i + 1 && self@[j].0 == epoch && self@[j].1 == k2) by {
                        if tbl_contains_key(t@, k2) {
                            if tbl_contains_key(pre, k2) {
                                let j = choose|j: int|
                                    0 <= j < i && self@[j].0 == epoch && self@[j].1 == k2;
                                assert(0 <= j < i + 1 && self@[j].0 == epoch && self@[j].1 == k2);
                            } else {
                                assert(k2 == self@[i as int].1);
                                assert(0 <= i < i + 1 && self@[i as int].0 == epoch);
                            }
                        } else {
                            if exists|j: int| 0 <= j < i + 1 && self@[j].0 == epoch && self@[j].1
                                == k2 {
                                let j = choose|j: int|
                                    0 <= j < i + 1 && self@[j].0 == epoch && self@[j].1 == k2;
                                if j < i {
                                    assert(tbl_contains_key(pre, k2));
                                    assert(tbl_contains_key(t@, k2));
                                } else {
                                    assert(k2 == self@[i as int].1);
                                    assert(tbl_contains_key(t@, k2));
                                }
                            }
                        }
                    }
                }
            } else {
                proof {
                    assert forall|k2: Seq<char>| #![auto]
                        tbl_contains_key(t@, k2) == (exists|j: int|
                            0 <= j < i + 1 && self@[j].0 == epoch && self@[j].1 == k2) by {
                        if exists|j: int| 0 <= j < i + 1 && self@[j].0 == epoch && self@[j].1
                            == k2 {
                            let j = choose|j: int|
                                0 <= j < i + 1 && self@[j].0 == epoch && self@[j].1 == k2;
                            assert(j < i);
                        }
                    }
                }
            }
            i += 1;
        }
        proof {
            assert(self@.subrange(0, n as int) =~= self@);
            assert forall|k: Seq<char>| #![auto]
                dl_contains(self@, epoch, k) implies crate::table::tbl_value_of(t@, k)
                == dl_value_of(self@, epoch, k) by {
                let j = dl_index_of(self@, epoch, k);
                assert(0 <= j < self@.len() && self@[j].0 == epoch && self@[j].1 == k);
            }
        }
        t
    }
}

/// The ledger state all operations are transactionally scoped to.
pub struct Store {
    pub current_epoch: Option<Epoch>,
    pub current_dealers: Table<DealerDetails>,
    pub past_dealers: Table<DealerDetails>,
    pub blacklisted_dealers: Table<Blacklisting>,
    pub dealing_commitments: Dealings,
    pub node_index_counter: NodeIndex,
}

impl Store {
    pub open spec fn wf(&self) -> bool {
        &&& self.current_dealers.wf()
        &&& self.past_dealers.wf()
        &&& self.blacklisted_dealers.wf()
        &&& self.dealing_commitments.wf()
    }

    /// A store with no epoch, no dealers, no blacklistings, no commitments
    /// and the node-index counter at zero.
    pub fn new() -> (s: Store)
        ensures
            s.wf(),
            s.current_epoch is None,
            s.current_dealers@.len() == 0,
            s.past_dealers@.len() == 0,
            s.blacklisted_dealers@.len() == 0,
            s.dealing_commitments@.len() == 0,
            s.node_index_counter == 0,
    {
        Store {
            current_epoch: Option::None,
            current_dealers: Table::new(),
            past_dealers: Table::new(),
            blacklisted_dealers: Table::new(),
            dealing_commitments: Dealings::new(),
            node_index_counter: 0,
        }
    }
}

} // verus!
