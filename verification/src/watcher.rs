//! The reconciliation engine: on each poll it diffs ledger truth against the
//! local state accessor and emits the events that drive this participant's
//! next actions. All ledger reads are handed in as arguments; the watcher
//! itself is pure bookkeeping.

use crate::accessor::{commitment_submission_pushed, key_submission_pushed, StateAccessor};
use crate::addr::Addr;
use crate::dealers::active_blacklisting;
use crate::error::DkgError;
use crate::events::{CommitmentChange, DealerChange, Event, EventType};
use crate::table::{tbl_contains_key, tbl_value_of, Table};
use crate::types::{Blacklisting, BlockHeight, DealerDetails, DealerDetailsV, Epoch, EpochState};
use vstd::prelude::*;

verus! {

/// Whether the local state knows the dealer `a`, as good or as bad.
pub open spec fn local_dealer_known(
    known: Seq<(Seq<char>, DealerDetailsV)>,
    bad: Seq<(Seq<char>, Blacklisting)>,
    a: Seq<char>,
) -> bool {
    tbl_contains_key(known, a) || tbl_contains_key(bad, a)
}

/// `a` is known locally but gone from the ledger.
pub open spec fn dealer_removal_needed(
    known: Seq<(Seq<char>, DealerDetailsV)>,
    bad: Seq<(Seq<char>, Blacklisting)>,
    ledger: Seq<(Seq<char>, DealerDetailsV)>,
    a: Seq<char>,
) -> bool {
    local_dealer_known(known, bad, a) && !tbl_contains_key(ledger, a)
}

/// `a` is on the ledger but locally unknown.
pub open spec fn dealer_addition_needed(
    known: Seq<(Seq<char>, DealerDetailsV)>,
    bad: Seq<(Seq<char>, Blacklisting)>,
    ledger: Seq<(Seq<char>, DealerDetailsV)>,
    a: Seq<char>,
) -> bool {
    tbl_contains_key(ledger, a) && !local_dealer_known(known, bad, a)
}

/// Whether the ledger's dealer set differs at all from local knowledge.
pub open spec fn has_dealer_diff(
    known: Seq<(Seq<char>, DealerDetailsV)>,
    bad: Seq<(Seq<char>, Blacklisting)>,
    ledger: Seq<(Seq<char>, DealerDetailsV)>,
) -> bool {
    exists|a: Seq<char>| #![auto]
        dealer_removal_needed(known, bad, ledger, a) || dealer_addition_needed(
            known,
            bad,
            ledger,
            a,
        )
}

/// The address a dealer change speaks of.
pub open spec fn dealer_change_addr(c: DealerChange) -> Seq<char> {
    match c {
        DealerChange::Addition { details } => details.address@,
        DealerChange::Removal { address } => address@,
    }
}

/// A single dealer change is warranted by the diff, and an addition carries
/// the ledger's record.
pub open spec fn dealer_change_valid(
    c: DealerChange,
    known: Seq<(Seq<char>, DealerDetailsV)>,
    bad: Seq<(Seq<char>, Blacklisting)>,
    ledger: Seq<(Seq<char>, DealerDetailsV)>,
) -> bool {
    match c {
        DealerChange::Removal { address } => dealer_removal_needed(known, bad, ledger, address@),
        DealerChange::Addition { details } => dealer_addition_needed(
            known,
            bad,
            ledger,
            details.address@,
        ) && details@ == tbl_value_of(ledger, details.address@),
    }
}

/// `changes` is exactly the dealer diff: every change is warranted, every
/// warranted change appears, and no address appears twice.
pub open spec fn dealer_changes_ok(
    changes: Seq<DealerChange>,
    known: Seq<(Seq<char>, DealerDetailsV)>,
    bad: Seq<(Seq<char>, Blacklisting)>,
    ledger: Seq<(Seq<char>, DealerDetailsV)>,
) -> bool {
    &&& (forall|j: int|
        0 <= j < changes.len() ==> dealer_change_valid(#[trigger] changes[j], known, bad, ledger))
    &&& (forall|a: Seq<char>| #![auto]
        dealer_removal_needed(known, bad, ledger, a) ==> exists|j: int|
            0 <= j < changes.len() && changes[j] is Removal && dealer_change_addr(
                #[trigger] changes[j],
            ) == a)
    &&& (forall|a: Seq<char>| #![auto]
        dealer_addition_needed(known, bad, ledger, a) ==> exists|j: int|
            0 <= j < changes.len() && changes[j] is Addition && dealer_change_addr(
                #[trigger] changes[j],
            ) == a)
    &&& (forall|j1: int, j2: int|
        0 <= j1 < j2 < changes.len() ==> dealer_change_addr(#[trigger] changes[j1])
            != dealer_change_addr(#[trigger] changes[j2]))
}

/// Every entry of a ledger dealer snapshot is keyed by its own record's
/// address, the way the snapshot is built from the ledger's dealer list.
pub open spec fn self_keyed(s: Seq<(Seq<char>, DealerDetailsV)>) -> bool {
    forall|x: int| 0 <= x < s.len() ==> (#[trigger] s[x]).0 == s[x].1.address
}

/// A removal warranted by the diff.
pub open spec fn removal_item(
    c: DealerChange,
    known: Seq<(Seq<char>, DealerDetailsV)>,
    bad: Seq<(Seq<char>, Blacklisting)>,
    ledger: Seq<(Seq<char>, DealerDetailsV)>,
) -> bool {
    c is Removal && dealer_change_valid(c, known, bad, ledger)
}

/// No two changes speak of the same address.
pub open spec fn nodup_changes(cs: Seq<DealerChange>) -> bool {
    forall|j1: int, j2: int|
        0 <= j1 < j2 < cs.len() ==> dealer_change_addr(#[trigger] cs[j1]) != dealer_change_addr(
            #[trigger] cs[j2],
        )
}

/// The off-chain reconciliation engine of one participant.
#[derive(Debug)]
pub struct Watcher {
    pub own_address: Addr,
    pub state_accessor: StateAccessor,
}

/// How one dealer-set reconciliation step relates the watcher before and
/// after, for the ledger dealer set `ledger` read at height `h`: when there
/// is no diff nothing changes, otherwise exactly one batched event is
/// appended.
pub open spec fn dealers_change_rel(
    pre: Watcher,
    post: Watcher,
    ledger: Seq<(Seq<char>, DealerDetailsV)>,
    h: BlockHeight,
) -> bool {
    let known = pre.state_accessor.known_dealers@;
    let bad = pre.state_accessor.bad_dealers@;
    &&& post.own_address@ == pre.own_address@
    &&& post.state_accessor.known_dealers@ == known
    &&& post.state_accessor.bad_dealers@ == bad
    &&& post.state_accessor.known_commitments@ == pre.state_accessor.known_commitments@
    &&& post.state_accessor.has_submitted_keys == pre.state_accessor.has_submitted_keys
    &&& post.state_accessor.has_submitted_dealings_commitment
        == pre.state_accessor.has_submitted_dealings_commitment
    &&& post.state_accessor.current_epoch == pre.state_accessor.current_epoch
    &&& (!has_dealer_diff(known, bad, ledger) ==> post == pre)
    &&& (has_dealer_diff(known, bad, ledger) ==> {
        let pre_events = pre.state_accessor.events@;
        let post_events = post.state_accessor.events@;
        &&& post_events.len() == pre_events.len() + 1
        &&& post_events.subrange(0, pre_events.len() as int) == pre_events
        &&& (post_events.last() matches Event {
            height: eh,
            event_type: EventType::DealerSetChange { changes },
        } && eh == h && dealer_changes_ok(changes@, known, bad, ledger))
    })
}

impl Watcher {
    pub open spec fn wf(&self) -> bool {
        self.state_accessor.wf()
    }

    pub fn new(own_address: Addr, state_accessor: StateAccessor) -> (w: Watcher)
        ensures
            w == (Watcher { own_address, state_accessor }),
    {
        Watcher { own_address, state_accessor }
    }

    /// This participant's own chain address.
    pub fn self_addr(&self) -> (a: &Addr)
        ensures
            a@ == self.own_address@,
    {
        &self.own_address
    }

    /// Diffs the ledger's dealer set against the locally known good and bad
    /// dealers and, when anything differs, queues one batched
    /// dealer-set-change event.
    pub fn check_for_dealers_change(
        &mut self,
        contract_dealers: &Table<DealerDetails>,
        current_height: BlockHeight,
    )
        requires
            old(self).wf(),
            contract_dealers.wf(),
            self_keyed(contract_dealers@),
        ensures
            final(self).wf(),
            dealers_change_rel(*old(self), *final(self), contract_dealers@, current_height),
    {
        let ghost kq = self.state_accessor.known_dealers@;
        let ghost bq = self.state_accessor.bad_dealers@;
        let ghost lq = contract_dealers@;
        let mut changes: Vec<DealerChange> = Vec::new();
        collect_removals_from_bad(
            &self.state_accessor.known_dealers,
            &self.state_accessor.bad_dealers,
            contract_dealers,
            &mut changes,
        );
        collect_removals_from_known(
            &self.state_accessor.known_dealers,
            &self.state_accessor.bad_dealers,
            contract_dealers,
            &mut changes,
        );
        collect_additions(
            &self.state_accessor.known_dealers,
            &self.state_accessor.bad_dealers,
            contract_dealers,
            &mut changes,
        );
        if changes.len() > 0 {
            proof {
                assert(dealer_change_valid(changes@[0], kq, bq, lq));
                match changes@[0] {
                    DealerChange::Removal { address } => {
                        assert(dealer_removal_needed(kq, bq, lq, address@));
                        assert(has_dealer_diff(kq, bq, lq));
                    },
                    DealerChange::Addition { details } => {
                        assert(dealer_addition_needed(kq, bq, lq, details.address@));
                        assert(has_dealer_diff(kq, bq, lq));
                    },
                }
            }
            let ghost pre_events = self.state_accessor.events@;
            let event = Event::new(current_height, EventType::DealerSetChange { changes });
            self.state_accessor.push_contract_change_event(event);
            proof {
                assert(self.state_accessor.events@.subrange(0, pre_events.len() as int)
                    =~= pre_events);
            }
        } else {
            proof {
                if has_dealer_diff(kq, bq, lq) {
                    let a = choose|a: Seq<char>| #![auto]
                        dealer_removal_needed(kq, bq, lq, a) || dealer_addition_needed(
                            kq,
                            bq,
                            lq,
                            a,
                        );
                    assert(changes@.len() > 0);
                }
            }
        }
    }

    /// The self-check of the public-key-submission phase: when our address is
    /// absent from the ledger's dealer set, queue an own-key-submission
    /// event — unless we believe we already submitted and the ledger says we
    /// are actively blacklisted, in which case nothing can be done this
    /// epoch. `own_blacklisting` is the ledger's blacklisting entry for our
    /// own address.
    pub fn check_for_own_key_submission(
        &mut self,
        contract_dealers: &Table<DealerDetails>,
        current_height: BlockHeight,
        own_blacklisting: &Option<Blacklisting>,
    )
        requires
            old(self).wf(),
        ensures
            final(self).wf(),
            own_key_check_rel(
                *old(self),
                *final(self),
                contract_dealers@,
                *own_blacklisting,
                current_height,
            ),
    {
        if contract_dealers.contains_key(&self.own_address) {
            return ;
        }
        if !self.state_accessor.has_submitted_keys() {
            self.state_accessor.push_new_key_submission_event(current_height);
            return ;
        }
        let actively_blacklisted = match own_blacklisting {
            Option::Some(b) => !b.has_expired(current_height),
            Option::None => false,
        };
        if actively_blacklisted {
            // we cannot participate in this round of the ceremony; the
            // caller logs it and the loop continues on schedule
            return ;
        }
        self.state_accessor.push_new_key_submission_event(current_height);
    }

    /// One full poll step in the public-key-submission phase: the own-key
    /// self-check, then the dealer-set diff.
    pub fn public_key_submission_actions(
        &mut self,
        contract_dealers: &Table<DealerDetails>,
        current_height: BlockHeight,
        own_blacklisting: &Option<Blacklisting>,
    )
        requires
            old(self).wf(),
            contract_dealers.wf(),
            self_keyed(contract_dealers@),
        ensures
            final(self).wf(),
            pks_rel(
                *old(self),
                *final(self),
                contract_dealers@,
                *own_blacklisting,
                current_height,
            ),
    {
        self.check_for_own_key_submission(contract_dealers, current_height, own_blacklisting);
        let ghost mid = *self;
        self.check_for_dealers_change(contract_dealers, current_height);
        proof {
            assert(own_key_check_rel(
                *old(self),
                mid,
                contract_dealers@,
                *own_blacklisting,
                current_height,
            ) && dealers_change_rel(mid, *self, contract_dealers@, current_height));
        }
    }
}

/// How one own-key self-check relates the watcher before and after, for the
/// ledger dealer set `ledger` and this participant's ledger blacklisting
/// entry `bl`, read at height `h`: nothing changes when our key is already on
/// the ledger, or when we believe we submitted and are actively blacklisted;
/// otherwise the own-key-submission event is queued.
pub open spec fn own_key_check_rel(
    pre: Watcher,
    post: Watcher,
    ledger: Seq<(Seq<char>, DealerDetailsV)>,
    bl: Option<Blacklisting>,
    h: BlockHeight,
) -> bool {
    let quiet = tbl_contains_key(ledger, pre.own_address@) || (pre.state_accessor.has_submitted_keys
        && active_blacklisting(bl, h) is Some);
    &&& (quiet ==> post == pre)
    &&& (!quiet ==> post.own_address == pre.own_address && key_submission_pushed(
        pre.state_accessor,
        post.state_accessor,
        h,
    ))
}

/// How one full poll step in the public-key-submission phase relates the
/// watcher before and after: the own-key self-check followed by the
/// dealer-set diff, both against the same snapshot.
pub open spec fn pks_rel(
    pre: Watcher,
    post: Watcher,
    ledger: Seq<(Seq<char>, DealerDetailsV)>,
    bl: Option<Blacklisting>,
    h: BlockHeight,
) -> bool {
    exists|mid: Watcher| #![auto]
        own_key_check_rel(pre, mid, ledger, bl, h) && dealers_change_rel(mid, post, ledger, h)
}

/// An unchanged, already-synchronised world yields no events: when this
/// participant is on the ledger's dealer set and local dealer knowledge
/// matches the ledger, a public-key-submission poll changes nothing at all.
pub proof fn law_pks_tick_quiet(
    pre: Watcher,
    post: Watcher,
    ledger: Seq<(Seq<char>, DealerDetailsV)>,
    bl: Option<Blacklisting>,
    h: BlockHeight,
)
    requires
        pks_rel(pre, post, ledger, bl, h),
        tbl_contains_key(ledger, pre.own_address@),
        !has_dealer_diff(pre.state_accessor.known_dealers@, pre.state_accessor.bad_dealers@, ledger),
    ensures
        post == pre,
{
    let mid = choose|mid: Watcher| #![auto]
        own_key_check_rel(pre, mid, ledger, bl, h) && dealers_change_rel(mid, post, ledger, h);
    assert(mid == pre);
}

/// With no change to the ledger or to local state between two consecutive
/// polls of a synchronised world, the second poll emits zero events: both
/// leave the watcher exactly as it was.
pub proof fn law_pks_second_tick_quiet(
    s0: Watcher,
    s1: Watcher,
    s2: Watcher,
    ledger: Seq<(Seq<char>, DealerDetailsV)>,
    bl: Option<Blacklisting>,
    h1: BlockHeight,
    h2: BlockHeight,
)
    requires
        pks_rel(s0, s1, ledger, bl, h1),
        pks_rel(s1, s2, ledger, bl, h2),
        tbl_contains_key(ledger, s0.own_address@),
        !has_dealer_diff(s0.state_accessor.known_dealers@, s0.state_accessor.bad_dealers@, ledger),
    ensures
        s1 == s0,
        s2 == s0,
{
    law_pks_tick_quiet(s0, s1, ledger, bl, h1);
    law_pks_tick_quiet(s1, s2, ledger, bl, h2);
}

/// A removal witness for `a` survives appending a change.
proof fn lemma_push_keeps_removal_witness(
    pre: Seq<DealerChange>,
    post: Seq<DealerChange>,
    a: Seq<char>,
)
    requires
        post.len() == pre.len() + 1,
        forall|j: int| 0 <= j < pre.len() ==> post[j] == pre[j],
        exists|j: int| #![trigger pre[j]]
            0 <= j < pre.len() && pre[j] is Removal && dealer_change_addr(pre[j]) == a,
    ensures
        exists|j: int| #![trigger post[j]]
            0 <= j < post.len() && post[j] is Removal && dealer_change_addr(post[j]) == a,
{
    let j0 = choose|j: int| #![trigger pre[j]]
        0 <= j < pre.len() && pre[j] is Removal && dealer_change_addr(pre[j]) == a;
    assert(post[j0] == pre[j0]);
    assert(0 <= j0 < post.len() && post[j0] is Removal && dealer_change_addr(post[j0]) == a);
}

/// An addition witness for `a` survives appending a change.
proof fn lemma_push_keeps_addition_witness(
    pre: Seq<DealerChange>,
    post: Seq<DealerChange>,
    a: Seq<char>,
)
    requires
        post.len() == pre.len() + 1,
        forall|j: int| 0 <= j < pre.len() ==> post[j] == pre[j],
        exists|j: int| #![trigger pre[j]]
            0 <= j < pre.len() && pre[j] is Addition && dealer_change_addr(pre[j]) == a,
    ensures
        exists|j: int| #![trigger post[j]]
            0 <= j < post.len() && post[j] is Addition && dealer_change_addr(post[j]) == a,
{
    let j0 = choose|j: int| #![trigger pre[j]]
        0 <= j < pre.len() && pre[j] is Addition && dealer_change_addr(pre[j]) == a;
    assert(post[j0] == pre[j0]);
    assert(0 <= j0 < post.len() && post[j0] is Addition && dealer_change_addr(post[j0]) == a);
}

/// Queues a removal for every locally bad dealer the ledger no longer holds.
fn collect_removals_from_bad(
    known: &Table<DealerDetails>,
    bad: &Table<Blacklisting>,
    ledger: &Table<DealerDetails>,
    changes: &mut Vec<DealerChange>,
)
    requires
        bad.wf(),
        old(changes)@.len() == 0,
    ensures
        forall|j: int| #![trigger final(changes)@[j]]
            0 <= j < final(changes)@.len() ==> removal_item(final(changes)@[j], known@, bad@, ledger@)
                && tbl_contains_key(bad@, dealer_change_addr(final(changes)@[j])),
        forall|a: Seq<char>| #![trigger tbl_contains_key(bad@, a)]
            tbl_contains_key(bad@, a) && !tbl_contains_key(ledger@, a) ==> exists|j: int|
                #![trigger final(changes)@[j]]
                0 <= j < final(changes)@.len() && final(changes)@[j] is Removal
                    && dealer_change_addr(final(changes)@[j]) == a,
        nodup_changes(final(changes)@),
{
    let ghost kq = known@;
    let ghost bq = bad@;
    let ghost lq = ledger@;
    let nb = bad.len();
    let mut i: usize = 0;
    while i < nb
        invariant
            bad.wf(),
            kq == known@,
            bq == bad@,
            lq == ledger@,
            nb == bq.len(),
            i <= nb,
            forall|j: int| #![trigger changes@[j]]
                0 <= j < changes@.len() ==> removal_item(changes@[j], kq, bq, lq)
                    && tbl_contains_key(bq, dealer_change_addr(changes@[j])),
            forall|j: int| #![trigger changes@[j]]
                0 <= j < changes@.len() ==> exists|x: int| #![trigger bq[x]]
                    0 <= x < i && dealer_change_addr(changes@[j]) == bq[x].0,
            forall|x: int| #![trigger bq[x]]
                0 <= x < i && !tbl_contains_key(lq, bq[x].0) ==> exists|j: int|
                    #![trigger changes@[j]]
                    0 <= j < changes@.len() && changes@[j] is Removal && dealer_change_addr(
                        changes@[j],
                    ) == bq[x].0,
            nodup_changes(changes@),
        decreases nb - i,
    {
        let entry = bad.entry_at(i);
        if !ledger.contains_key(&entry.0) {
            let ghost pre_changes = changes@;
            let address = entry.0.clone();
            proof {
                assert(tbl_contains_key(bq, bq[i as int].0));
            }
            changes.push(DealerChange::Removal { address });
            proof {
                let last = changes@.len() - 1;
                assert forall|j: int| 0 <= j < pre_changes.len() implies #[trigger] changes@[j]
                    == pre_changes[j] by {
                    assert(changes@[j] == pre_changes.push(changes@[last])[j]);
                }
                assert(dealer_change_addr(changes@[last]) == bq[i as int].0);
                assert forall|j: int| #![trigger changes@[j]]
                    0 <= j < changes@.len() implies removal_item(changes@[j], kq, bq, lq)
                    && tbl_contains_key(bq, dealer_change_addr(changes@[j])) by {
                    if j < last {
                        assert(changes@[j] == pre_changes[j]);
                    }
                }
                assert forall|j: int| #![trigger changes@[j]]
                    0 <= j < changes@.len() implies exists|x: int| #![trigger bq[x]]
                    0 <= x < i + 1 && dealer_change_addr(changes@[j]) == bq[x].0 by {
                    if j < last {
                        assert(changes@[j] == pre_changes[j]);
                        let x = choose|x: int| #![trigger bq[x]]
                            0 <= x < i && dealer_change_addr(pre_changes[j]) == bq[x].0;
                        assert(0 <= x < i + 1 && dealer_change_addr(changes@[j]) == bq[x].0);
                    } else {
                        assert(0 <= i < i + 1 && dealer_change_addr(changes@[j]) == bq[
                            i as int].0);
                    }
                }
                assert forall|x: int| #![trigger bq[x]]
                    0 <= x < i + 1 && !tbl_contains_key(lq, bq[x].0) implies exists|j: int|
                    #![trigger changes@[j]]
                    0 <= j < changes@.len() && changes@[j] is Removal && dealer_change_addr(
                        changes@[j],
                    ) == bq[x].0 by {
                    if x == i {
                        assert(changes@[last] is Removal && dealer_change_addr(changes@[last])
                            == bq[x].0);
                    } else {
                        lemma_push_keeps_removal_witness(pre_changes, changes@, bq[x].0);
                    }
                }
                assert forall|j1: int, j2: int|
                    0 <= j1 < j2 < changes@.len() implies dealer_change_addr(
                    #[trigger] changes@[j1],
                ) != dealer_change_addr(#[trigger] changes@[j2]) by {
                    if j2 == last {
                        assert(changes@[j1] == pre_changes[j1]);
                        let x = choose|x: int| #![trigger bq[x]]
                            0 <= x < i && dealer_change_addr(pre_changes[j1]) == bq[x].0;
                        assert(bq[x].0 != bq[i as int].0);
                    } else {
                        assert(changes@[j1] == pre_changes[j1]);
                        assert(changes@[j2] == pre_changes[j2]);
                    }
                }
            }
        } else {
            proof {
                assert forall|x: int| #![trigger bq[x]]
                    0 <= x < i + 1 && !tbl_contains_key(lq, bq[x].0) implies exists|j: int|
                    #![trigger changes@[j]]
                    0 <= j < changes@.len() && changes@[j] is Removal && dealer_change_addr(
                        changes@[j],
                    ) == bq[x].0 by {
                }
            }
        }
        i += 1;
    }
    proof {
        assert forall|a: Seq<char>| #![trigger tbl_contains_key(bq, a)]
            tbl_contains_key(bq, a) && !tbl_contains_key(lq, a) implies exists|j: int|
            #![trigger changes@[j]]
            0 <= j < changes@.len() && changes@[j] is Removal && dealer_change_addr(changes@[j])
                == a by {
            let x = crate::table::tbl_index_of(bq, a);
            assert(0 <= x < bq.len() && bq[x].0 == a);
        }
    }
}

/// Queues a removal for every locally known good dealer the ledger no longer
/// holds, skipping those already covered as bad.
fn collect_removals_from_known(
    known: &Table<DealerDetails>,
    bad: &Table<Blacklisting>,
    ledger: &Table<DealerDetails>,
    changes: &mut Vec<DealerChange>,
)
    requires
        known.wf(),
        forall|j: int| #![trigger old(changes)@[j]]
            0 <= j < old(changes)@.len() ==> removal_item(old(changes)@[j], known@, bad@, ledger@)
                && tbl_contains_key(bad@, dealer_change_addr(old(changes)@[j])),
        forall|a: Seq<char>| #![trigger tbl_contains_key(bad@, a)]
            tbl_contains_key(bad@, a) && !tbl_contains_key(ledger@, a) ==> exists|j: int|
                #![trigger old(changes)@[j]]
                0 <= j < old(changes)@.len() && old(changes)@[j] is Removal && dealer_change_addr(
                    old(changes)@[j],
                ) == a,
        nodup_changes(old(changes)@),
    ensures
        forall|j: int| #![trigger final(changes)@[j]]
            0 <= j < final(changes)@.len() ==> removal_item(
                final(changes)@[j],
                known@,
                bad@,
                ledger@,
            ),
        forall|a: Seq<char>| #![trigger dealer_removal_needed(known@, bad@, ledger@, a)]
            dealer_removal_needed(known@, bad@, ledger@, a) ==> exists|j: int|
                #![trigger final(changes)@[j]]
                0 <= j < final(changes)@.len() && final(changes)@[j] is Removal
                    && dealer_change_addr(final(changes)@[j]) == a,
        nodup_changes(final(changes)@),
{
    let ghost kq = known@;
    let ghost bq = bad@;
    let ghost lq = ledger@;
    let nk = known.len();
    let mut i: usize = 0;
    while i < nk
        invariant
            known.wf(),
            kq == known@,
            bq == bad@,
            lq == ledger@,
            nk == kq.len(),
            i <= nk,
            forall|j: int| #![trigger changes@[j]]
                0 <= j < changes@.len() ==> removal_item(changes@[j], kq, bq, lq),
            forall|j: int| #![trigger changes@[j]]
                0 <= j < changes@.len() ==> tbl_contains_key(bq, dealer_change_addr(changes@[j]))
                    || (exists|x: int| #![trigger kq[x]]
                    0 <= x < i && dealer_change_addr(changes@[j]) == kq[x].0 && !tbl_contains_key(
                        bq,
                        dealer_change_addr(changes@[j]),
                    )),
            forall|a: Seq<char>| #![trigger tbl_contains_key(bq, a)]
                tbl_contains_key(bq, a) && !tbl_contains_key(lq, a) ==> exists|j: int|
                    #![trigger changes@[j]]
                    0 <= j < changes@.len() && changes@[j] is Removal && dealer_change_addr(
                        changes@[j],
                    ) == a,
            forall|x: int| #![trigger kq[x]]
                0 <= x < i && !tbl_contains_key(lq, kq[x].0) ==> exists|j: int|
                    #![trigger changes@[j]]
                    0 <= j < changes@.len() && changes@[j] is Removal && dealer_change_addr(
                        changes@[j],
                    ) == kq[x].0,
            nodup_changes(changes@),
        decreases nk - i,
    {
        let entry = known.entry_at(i);
        let in_bad = bad.contains_key(&entry.0);
        let in_ledger = ledger.contains_key(&entry.0);
        if !in_bad && !in_ledger {
            let ghost pre_changes = changes@;
            let address = entry.0.clone();
            proof {
                assert(tbl_contains_key(kq, kq[i as int].0));
            }
            changes.push(DealerChange::Removal { address });
            proof {
                let last = changes@.len() - 1;
                assert forall|j: int| 0 <= j < pre_changes.len() implies #[trigger] changes@[j]
                    == pre_changes[j] by {
                    assert(changes@[j] == pre_changes.push(changes@[last])[j]);
                }
                assert(dealer_change_addr(changes@[last]) == kq[i as int].0);
                assert forall|j: int| #![trigger changes@[j]]
                    0 <= j < changes@.len() implies removal_item(changes@[j], kq, bq, lq) by {
                    if j < last {
                        assert(changes@[j] == pre_changes[j]);
                    }
                }
                assert forall|j: int| #![trigger changes@[j]]
                    0 <= j < changes@.len() implies tbl_contains_key(
                    bq,
                    dealer_change_addr(changes@[j]),
                ) || (exists|x: int| #![trigger kq[x]]
                    0 <= x < i + 1 && dealer_change_addr(changes@[j]) == kq[x].0
                        && !tbl_contains_key(bq, dealer_change_addr(changes@[j]))) by {
                    if j < last {
                        assert(changes@[j] == pre_changes[j]);
                        if !tbl_contains_key(bq, dealer_change_addr(pre_changes[j])) {
                            let x = choose|x: int| #![trigger kq[x]]
                                0 <= x < i && dealer_change_addr(pre_changes[j]) == kq[x].0
                                    && !tbl_contains_key(
                                    bq,
                                    dealer_change_addr(pre_changes[j]),
                                );
                            assert(0 <= x < i + 1 && dealer_change_addr(changes@[j]) == kq[x].0);
                        }
                    } else {
                        assert(0 <= i < i + 1 && dealer_change_addr(changes@[j]) == kq[
                            i as int].0);
                    }
                }
                assert forall|a: Seq<char>| #![trigger tbl_contains_key(bq, a)]
                    tbl_contains_key(bq, a) && !tbl_contains_key(lq, a) implies exists|j: int|
                    #![trigger changes@[j]]
                    0 <= j < changes@.len() && changes@[j] is Removal && dealer_change_addr(
                        changes@[j],
                    ) == a by {
                    lemma_push_keeps_removal_witness(pre_changes, changes@, a);
                }
                assert forall|x: int| #![trigger kq[x]]
                    0 <= x < i + 1 && !tbl_contains_key(lq, kq[x].0) implies exists|j: int|
                    #![trigger changes@[j]]
                    0 <= j < changes@.len() && changes@[j] is Removal && dealer_change_addr(
                        changes@[j],
                    ) == kq[x].0 by {
                    if x == i {
                        assert(changes@[last] is Removal && dealer_change_addr(changes@[last])
                            == kq[x].0);
                    } else {
                        lemma_push_keeps_removal_witness(pre_changes, changes@, kq[x].0);
                    }
                }
                assert forall|j1: int, j2: int|
                    0 <= j1 < j2 < changes@.len() implies dealer_change_addr(
                    #[trigger] changes@[j1],
                ) != dealer_change_addr(#[trigger] changes@[j2]) by {
                    if j2 == last {
                        assert(changes@[j1] == pre_changes[j1]);
                        let aj = dealer_change_addr(pre_changes[j1]);
                        if !tbl_contains_key(bq, aj) {
                            let x = choose|x: int| #![trigger kq[x]]
                                0 <= x < i && dealer_change_addr(pre_changes[j1]) == kq[x].0
                                    && !tbl_contains_key(
                                    bq,
                                    dealer_change_addr(pre_changes[j1]),
                                );
                            assert(kq[x].0 != kq[i as int].0);
                        }
                    } else {
                        assert(changes@[j1] == pre_changes[j1]);
                        assert(changes@[j2] == pre_changes[j2]);
                    }
                }
            }
        } else {
            proof {
                assert forall|x: int| #![trigger kq[x]]
                    0 <= x < i + 1 && !tbl_contains_key(lq, kq[x].0) implies exists|j: int|
                    #![trigger changes@[j]]
                    0 <= j < changes@.len() && changes@[j] is Removal && dealer_change_addr(
                        changes@[j],
                    ) == kq[x].0 by {
                    if x == i {
                        assert(tbl_contains_key(bq, kq[i as int].0));
                    }
                }
            }
        }
        i += 1;
    }
    proof {
        assert forall|a: Seq<char>| #![trigger dealer_removal_needed(kq, bq, lq, a)]
            dealer_removal_needed(kq, bq, lq, a) implies exists|j: int| #![trigger changes@[j]]
            0 <= j < changes@.len() && changes@[j] is Removal && dealer_change_addr(changes@[j])
                == a by {
            if !tbl_contains_key(bq, a) {
                let x = crate::table::tbl_index_of(kq, a);
                assert(0 <= x < kq.len() && kq[x].0 == a);
            }
        }
    }
}

/// Queues an addition, carrying the ledger's record, for every ledger dealer
/// not yet known locally.
fn collect_additions(
    known: &Table<DealerDetails>,
    bad: &Table<Blacklisting>,
    ledger: &Table<DealerDetails>,
    changes: &mut Vec<DealerChange>,
)
    requires
        ledger.wf(),
        self_keyed(ledger@),
        forall|j: int| #![trigger old(changes)@[j]]
            0 <= j < old(changes)@.len() ==> removal_item(old(changes)@[j], known@, bad@, ledger@),
        forall|a: Seq<char>| #![trigger dealer_removal_needed(known@, bad@, ledger@, a)]
            dealer_removal_needed(known@, bad@, ledger@, a) ==> exists|j: int|
                #![trigger old(changes)@[j]]
                0 <= j < old(changes)@.len() && old(changes)@[j] is Removal && dealer_change_addr(
                    old(changes)@[j],
                ) == a,
        nodup_changes(old(changes)@),
    ensures
        dealer_changes_ok(final(changes)@, known@, bad@, ledger@),
{
    let ghost kq = known@;
    let ghost bq = bad@;
    let ghost lq = ledger@;
    let nl = ledger.len();
    let mut i: usize = 0;
    while i < nl
        invariant
            ledger.wf(),
            self_keyed(lq),
            kq == known@,
            bq == bad@,
            lq == ledger@,
            nl == lq.len(),
            i <= nl,
            forall|j: int| #![trigger changes@[j]]
                0 <= j < changes@.len() ==> dealer_change_valid(changes@[j], kq, bq, lq),
            forall|j: int| #![trigger changes@[j]]
                0 <= j < changes@.len() && changes@[j] is Addition ==> exists|x: int|
                    #![trigger lq[x]]
                    0 <= x < i && dealer_change_addr(changes@[j]) == lq[x].0,
            forall|a: Seq<char>| #![trigger dealer_removal_needed(kq, bq, lq, a)]
                dealer_removal_needed(kq, bq, lq, a) ==> exists|j: int| #![trigger changes@[j]]
                    0 <= j < changes@.len() && changes@[j] is Removal && dealer_change_addr(
                        changes@[j],
                    ) == a,
            forall|x: int| #![trigger lq[x]]
                0 <= x < i && dealer_addition_needed(kq, bq, lq, lq[x].0) ==> exists|j: int|
                    #![trigger changes@[j]]
                    0 <= j < changes@.len() && changes@[j] is Addition && dealer_change_addr(
                        changes@[j],
                    ) == lq[x].0,
            nodup_changes(changes@),
        decreases nl - i,
    {
        let entry = ledger.entry_at(i);
        let in_bad = bad.contains_key(&entry.0);
        let in_known = known.contains_key(&entry.0);
        if !in_bad && !in_known {
            let ghost pre_changes = changes@;
            let details = entry.1.clone();
            proof {
                assert(tbl_contains_key(lq, lq[i as int].0));
                crate::table::lemma_tbl_index_unique(lq, lq[i as int].0, i as int);
                assert(details@ == lq[i as int].1);
                assert(details.address@ == lq[i as int].1.address);
                assert(lq[i as int].0 == lq[i as int].1.address);
            }
            changes.push(DealerChange::Addition { details });
            proof {
                let last = changes@.len() - 1;
                assert forall|j: int| 0 <= j < pre_changes.len() implies #[trigger] changes@[j]
                    == pre_changes[j] by {
                    assert(changes@[j] == pre_changes.push(changes@[last])[j]);
                }
                assert(dealer_change_addr(changes@[last]) == lq[i as int].0);
                assert(dealer_change_valid(changes@[last], kq, bq, lq));
                assert forall|j: int| #![trigger changes@[j]]
                    0 <= j < changes@.len() implies dealer_change_valid(changes@[j], kq, bq, lq) by {
                    if j < last {
                        assert(changes@[j] == pre_changes[j]);
                    }
                }
                assert forall|j: int| #![trigger changes@[j]]
                    0 <= j < changes@.len() && changes@[j] is Addition implies exists|x: int|
                    #![trigger lq[x]]
                    0 <= x < i + 1 && dealer_change_addr(changes@[j]) == lq[x].0 by {
                    if j < last {
                        assert(changes@[j] == pre_changes[j]);
                        if pre_changes[j] is Addition {
                            let x = choose|x: int| #![trigger lq[x]]
                                0 <= x < i && dealer_change_addr(pre_changes[j]) == lq[x].0;
                            assert(0 <= x < i + 1 && dealer_change_addr(changes@[j]) == lq[x].0);
                        }
                    } else {
                        assert(0 <= i < i + 1 && dealer_change_addr(changes@[j]) == lq[
                            i as int].0);
                    }
                }
                assert forall|a: Seq<char>| #![trigger dealer_removal_needed(kq, bq, lq, a)]
                    dealer_removal_needed(kq, bq, lq, a) implies exists|j: int|
                    #![trigger changes@[j]]
                    0 <= j < changes@.len() && changes@[j] is Removal && dealer_change_addr(
                        changes@[j],
                    ) == a by {
                    lemma_push_keeps_removal_witness(pre_changes, changes@, a);
                }
                assert forall|x: int| #![trigger lq[x]]
                    0 <= x < i + 1 && dealer_addition_needed(kq, bq, lq, lq[x].0) implies exists|
                    j: int,
                |
                    #![trigger changes@[j]]
                    0 <= j < changes@.len() && changes@[j] is Addition && dealer_change_addr(
                        changes@[j],
                    ) == lq[x].0 by {
                    if x == i {
                        assert(changes@[last] is Addition && dealer_change_addr(changes@[last])
                            == lq[x].0);
                    } else {
                        lemma_push_keeps_addition_witness(pre_changes, changes@, lq[x].0);
                    }
                }
                assert forall|j1: int, j2: int|
                    0 <= j1 < j2 < changes@.len() implies dealer_change_addr(
                    #[trigger] changes@[j1],
                ) != dealer_change_addr(#[trigger] changes@[j2]) by {
                    if j2 == last {
                        assert(changes@[j1] == pre_changes[j1]);
                        if pre_changes[j1] is Addition {
                            let x = choose|x: int| #![trigger lq[x]]
                                0 <= x < i && dealer_change_addr(pre_changes[j1]) == lq[x].0;
                            assert(lq[x].0 != lq[i as int].0);
                        } else {
                            assert(dealer_change_valid(pre_changes[j1], kq, bq, lq));
                            assert(local_dealer_known(kq, bq, dealer_change_addr(pre_changes[j1])));
                        }
                    } else {
                        assert(changes@[j1] == pre_changes[j1]);
                        assert(changes@[j2] == pre_changes[j2]);
                    }
                }
            }
        } else {
            proof {
                assert forall|x: int| #![trigger lq[x]]
                    0 <= x < i + 1 && dealer_addition_needed(kq, bq, lq, lq[x].0) implies exists|
                    j: int,
                |
                    #![trigger changes@[j]]
                    0 <= j < changes@.len() && changes@[j] is Addition && dealer_change_addr(
                        changes@[j],
                    ) == lq[x].0 by {
                    if x == i {
                        assert(local_dealer_known(kq, bq, lq[i as int].0));
                    }
                }
            }
        }
        i += 1;
    }
    proof {
        assert forall|a: Seq<char>| #![auto]
            dealer_addition_needed(kq, bq, lq, a) implies exists|j: int| #![trigger changes@[j]]
            0 <= j < changes@.len() && changes@[j] is Addition && dealer_change_addr(changes@[j])
                == a by {
            let x = crate::table::tbl_index_of(lq, a);
            assert(0 <= x < lq.len() && lq[x].0 == a);
        }
    }
}

/// The address a commitment change speaks of.
pub open spec fn commitment_change_addr(c: CommitmentChange) -> Seq<char> {
    match c {
        CommitmentChange::Addition { address, .. } => address@,
        CommitmentChange::Removal { address } => address@,
        CommitmentChange::Update { address, .. } => address@,
    }
}

/// `a`'s commitment is known locally but gone from the ledger.
pub open spec fn commitment_removal_needed(
    known: Seq<(Seq<char>, Seq<u8>)>,
    ledger: Seq<(Seq<char>, Seq<u8>)>,
    a: Seq<char>,
) -> bool {
    tbl_contains_key(known, a) && !tbl_contains_key(ledger, a)
}

/// `a`'s commitment is known on both sides but its content changed.
pub open spec fn commitment_update_needed(
    known: Seq<(Seq<char>, Seq<u8>)>,
    ledger: Seq<(Seq<char>, Seq<u8>)>,
    a: Seq<char>,
) -> bool {
    tbl_contains_key(known, a) && tbl_contains_key(ledger, a) && tbl_value_of(ledger, a)
        != tbl_value_of(known, a)
}

/// `a`'s commitment is on the ledger but locally unknown.
pub open spec fn commitment_addition_needed(
    known: Seq<(Seq<char>, Seq<u8>)>,
    ledger: Seq<(Seq<char>, Seq<u8>)>,
    a: Seq<char>,
) -> bool {
    tbl_contains_key(ledger, a) && !tbl_contains_key(known, a)
}

/// Whether the ledger's commitments differ at all from local knowledge.
pub open spec fn has_commitment_diff(
    known: Seq<(Seq<char>, Seq<u8>)>,
    ledger: Seq<(Seq<char>, Seq<u8>)>,
) -> bool {
    exists|a: Seq<char>| #![auto]
        commitment_removal_needed(known, ledger, a) || commitment_update_needed(known, ledger, a)
            || commitment_addition_needed(known, ledger, a)
}

/// A single commitment change is warranted by the diff, and additions and
/// updates carry the ledger's content.
pub open spec fn commitment_change_valid(
    c: CommitmentChange,
    known: Seq<(Seq<char>, Seq<u8>)>,
    ledger: Seq<(Seq<char>, Seq<u8>)>,
) -> bool {
    match c {
        CommitmentChange::Removal { address } => commitment_removal_needed(
            known,
            ledger,
            address@,
        ),
        CommitmentChange::Update { address, commitment } => commitment_update_needed(
            known,
            ledger,
            address@,
        ) && commitment@ == tbl_value_of(ledger, address@),
        CommitmentChange::Addition { address, commitment } => commitment_addition_needed(
            known,
            ledger,
            address@,
        ) && commitment@ == tbl_value_of(ledger, address@),
    }
}

/// `changes` is exactly the commitment diff: every change is warranted,
/// every warranted change appears, and no address appears twice.
pub open spec fn commitment_changes_ok(
    changes: Seq<CommitmentChange>,
    known: Seq<(Seq<char>, Seq<u8>)>,
    ledger: Seq<(Seq<char>, Seq<u8>)>,
) -> bool {
    &&& (forall|j: int|
        0 <= j < changes.len() ==> commitment_change_valid(#[trigger] changes[j], known, ledger))
    &&& (forall|a: Seq<char>| #![trigger commitment_removal_needed(known, ledger, a)]
        commitment_removal_needed(known, ledger, a) ==> exists|j: int| #![trigger changes[j]]
            0 <= j < changes.len() && changes[j] is Removal && commitment_change_addr(changes[j])
                == a)
    &&& (forall|a: Seq<char>| #![trigger commitment_update_needed(known, ledger, a)]
        commitment_update_needed(known, ledger, a) ==> exists|j: int| #![trigger changes[j]]
            0 <= j < changes.len() && changes[j] is Update && commitment_change_addr(changes[j])
                == a)
    &&& (forall|a: Seq<char>| #![trigger commitment_addition_needed(known, ledger, a)]
        commitment_addition_needed(known, ledger, a) ==> exists|j: int| #![trigger changes[j]]
            0 <= j < changes.len() && changes[j] is Addition && commitment_change_addr(changes[j])
                == a)
    &&& (forall|j1: int, j2: int|
        0 <= j1 < j2 < changes.len() ==> commitment_change_addr(#[trigger] changes[j1])
            != commitment_change_addr(#[trigger] changes[j2]))
}

/// How one commitments reconciliation step relates the watcher before and
/// after, for the ledger commitments `ledger` read at height `h`.
pub open spec fn commitments_change_rel(
    pre: Watcher,
    post: Watcher,
    ledger: Seq<(Seq<char>, Seq<u8>)>,
    h: BlockHeight,
) -> bool {
    let known = pre.state_accessor.known_commitments@;
    &&& post.own_address@ == pre.own_address@
    &&& post.state_accessor.known_dealers@ == pre.state_accessor.known_dealers@
    &&& post.state_accessor.bad_dealers@ == pre.state_accessor.bad_dealers@
    &&& post.state_accessor.known_commitments@ == known
    &&& post.state_accessor.has_submitted_keys == pre.state_accessor.has_submitted_keys
    &&& post.state_accessor.has_submitted_dealings_commitment
        == pre.state_accessor.has_submitted_dealings_commitment
    &&& post.state_accessor.current_epoch == pre.state_accessor.current_epoch
    &&& (!has_commitment_diff(known, ledger) ==> post == pre)
    &&& (has_commitment_diff(known, ledger) ==> {
        let pre_events = pre.state_accessor.events@;
        let post_events = post.state_accessor.events@;
        &&& post_events.len() == pre_events.len() + 1
        &&& post_events.subrange(0, pre_events.len() as int) == pre_events
        &&& (post_events.last() matches Event {
            height: eh,
            event_type: EventType::KnownCommitmentsChange { changes },
        } && eh == h && commitment_changes_ok(changes@, known, ledger))
    })
}

/// How one own-commitment self-check relates the watcher before and after:
/// nothing changes when our commitment is already on the ledger, or when we
/// believe we submitted and are actively blacklisted; otherwise the
/// own-dealing-commitment event for `epoch` is queued.
pub open spec fn own_commitment_check_rel(
    pre: Watcher,
    post: Watcher,
    ledger: Seq<(Seq<char>, Seq<u8>)>,
    bl: Option<Blacklisting>,
    h: BlockHeight,
    epoch: Epoch,
) -> bool {
    let quiet = tbl_contains_key(ledger, pre.own_address@) || (
    pre.state_accessor.has_submitted_dealings_commitment && active_blacklisting(bl, h) is Some);
    &&& (quiet ==> post == pre)
    &&& (!quiet ==> post.own_address == pre.own_address && commitment_submission_pushed(
        pre.state_accessor,
        post.state_accessor,
        h,
        epoch,
    ))
}

/// How one full poll step in the dealing-exchange phase relates the watcher
/// before and after: the own-commitment self-check followed by the
/// commitments diff, both against the same snapshot.
pub open spec fn de_rel(
    pre: Watcher,
    post: Watcher,
    ledger: Seq<(Seq<char>, Seq<u8>)>,
    bl: Option<Blacklisting>,
    h: BlockHeight,
    epoch: Epoch,
) -> bool {
    exists|mid: Watcher| #![auto]
        own_commitment_check_rel(pre, mid, ledger, bl, h, epoch) && commitments_change_rel(
            mid,
            post,
            ledger,
            h,
        )
}

/// An unchanged, already-synchronised world yields no events in the
/// dealing-exchange phase either: when our commitment is on the ledger and
/// the locally known commitments match the ledger's, content included, a
/// poll changes nothing at all.
pub proof fn law_de_tick_quiet(
    pre: Watcher,
    post: Watcher,
    ledger: Seq<(Seq<char>, Seq<u8>)>,
    bl: Option<Blacklisting>,
    h: BlockHeight,
    epoch: Epoch,
)
    requires
        de_rel(pre, post, ledger, bl, h, epoch),
        tbl_contains_key(ledger, pre.own_address@),
        !has_commitment_diff(pre.state_accessor.known_commitments@, ledger),
    ensures
        post == pre,
{
    let mid = choose|mid: Watcher| #![auto]
        own_commitment_check_rel(pre, mid, ledger, bl, h, epoch) && commitments_change_rel(
            mid,
            post,
            ledger,
            h,
        );
    assert(mid == pre);
}

/// With no change to the ledger or to local state between two consecutive
/// dealing-exchange polls of a synchronised world, the second poll emits
/// zero events: both leave the watcher exactly as it was.
pub proof fn law_de_second_tick_quiet(
    s0: Watcher,
    s1: Watcher,
    s2: Watcher,
    ledger: Seq<(Seq<char>, Seq<u8>)>,
    bl: Option<Blacklisting>,
    h1: BlockHeight,
    h2: BlockHeight,
    epoch: Epoch,
)
    requires
        de_rel(s0, s1, ledger, bl, h1, epoch),
        de_rel(s1, s2, ledger, bl, h2, epoch),
        tbl_contains_key(ledger, s0.own_address@),
        !has_commitment_diff(s0.state_accessor.known_commitments@, ledger),
    ensures
        s1 == s0,
        s2 == s0,
{
    law_de_tick_quiet(s0, s1, ledger, bl, h1, epoch);
    law_de_tick_quiet(s1, s2, ledger, bl, h2, epoch);
}

/// A removal witness for `a` survives appending a commitment change.
proof fn lemma_push_keeps_cremoval_witness(
    pre: Seq<CommitmentChange>,
    post: Seq<CommitmentChange>,
    a: Seq<char>,
)
    requires
        post.len() == pre.len() + 1,
        forall|j: int| 0 <= j < pre.len() ==> post[j] == pre[j],
        exists|j: int| #![trigger pre[j]]
            0 <= j < pre.len() && pre[j] is Removal && commitment_change_addr(pre[j]) == a,
    ensures
        exists|j: int| #![trigger post[j]]
            0 <= j < post.len() && post[j] is Removal && commitment_change_addr(post[j]) == a,
{
    let j0 = choose|j: int| #![trigger pre[j]]
        0 <= j < pre.len() && pre[j] is Removal && commitment_change_addr(pre[j]) == a;
    assert(post[j0] == pre[j0]);
    assert(0 <= j0 < post.len() && post[j0] is Removal && commitment_change_addr(post[j0]) == a);
}

/// An update witness for `a` survives appending a commitment change.
proof fn lemma_push_keeps_cupdate_witness(
    pre: Seq<CommitmentChange>,
    post: Seq<CommitmentChange>,
    a: Seq<char>,
)
    requires
        post.len() == pre.len() + 1,
        forall|j: int| 0 <= j < pre.len() ==> post[j] == pre[j],
        exists|j: int| #![trigger pre[j]]
            0 <= j < pre.len() && pre[j] is Update && commitment_change_addr(pre[j]) == a,
    ensures
        exists|j: int| #![trigger post[j]]
            0 <= j < post.len() && post[j] is Update && commitment_change_addr(post[j]) == a,
{
    let j0 = choose|j: int| #![trigger pre[j]]
        0 <= j < pre.len() && pre[j] is Update && commitment_change_addr(pre[j]) == a;
    assert(post[j0] == pre[j0]);
    assert(0 <= j0 < post.len() && post[j0] is Update && commitment_change_addr(post[j0]) == a);
}

/// Queues a removal or an update for every locally known commitment the
/// ledger dropped or replaced.
#[verifier::rlimit(60)]
fn collect_commitment_changes_from_known(
    known: &Table<Vec<u8>>,
    ledger: &Table<Vec<u8>>,
    changes: &mut Vec<CommitmentChange>,
)
    requires
        known.wf(),
        ledger.wf(),
        old(changes)@.len() == 0,
    ensures
        forall|j: int| #![trigger final(changes)@[j]]
            0 <= j < final(changes)@.len() ==> commitment_change_valid(
                final(changes)@[j],
                known@,
                ledger@,
            ) && !(final(changes)@[j] is Addition) && tbl_contains_key(
                known@,
                commitment_change_addr(final(changes)@[j]),
            ),
        forall|a: Seq<char>| #![trigger commitment_removal_needed(known@, ledger@, a)]
            commitment_removal_needed(known@, ledger@, a) ==> exists|j: int|
                #![trigger final(changes)@[j]]
                0 <= j < final(changes)@.len() && final(changes)@[j] is Removal
                    && commitment_change_addr(final(changes)@[j]) == a,
        forall|a: Seq<char>| #![trigger commitment_update_needed(known@, ledger@, a)]
            commitment_update_needed(known@, ledger@, a) ==> exists|j: int|
                #![trigger final(changes)@[j]]
                0 <= j < final(changes)@.len() && final(changes)@[j] is Update
                    && commitment_change_addr(final(changes)@[j]) == a,
        forall|j1: int, j2: int|
            0 <= j1 < j2 < final(changes)@.len() ==> commitment_change_addr(
                #[trigger] final(changes)@[j1],
            ) != commitment_change_addr(#[trigger] final(changes)@[j2]),
{
    let ghost kq = known@;
    let ghost lq = ledger@;
    let nk = known.len();
    let mut i: usize = 0;
    while i < nk
        invariant
            known.wf(),
            ledger.wf(),
            kq == known@,
            lq == ledger@,
            nk == kq.len(),
            i <= nk,
            forall|j: int| #![trigger changes@[j]]
                0 <= j < changes@.len() ==> commitment_change_valid(changes@[j], kq, lq) && !(
                changes@[j] is Addition) && tbl_contains_key(
                    kq,
                    commitment_change_addr(changes@[j]),
                ),
            forall|j: int| #![trigger changes@[j]]
                0 <= j < changes@.len() ==> exists|x: int| #![trigger kq[x]]
                    0 <= x < i && commitment_change_addr(changes@[j]) == kq[x].0,
            forall|x: int| #![trigger kq[x]]
                0 <= x < i && commitment_removal_needed(kq, lq, kq[x].0) ==> exists|j: int|
                    #![trigger changes@[j]]
                    0 <= j < changes@.len() && changes@[j] is Removal && commitment_change_addr(
                        changes@[j],
                    ) == kq[x].0,
            forall|x: int| #![trigger kq[x]]
                0 <= x < i && commitment_update_needed(kq, lq, kq[x].0) ==> exists|j: int|
                    #![trigger changes@[j]]
                    0 <= j < changes@.len() && changes@[j] is Update && commitment_change_addr(
                        changes@[j],
                    ) == kq[x].0,
            forall|j1: int, j2: int|
                0 <= j1 < j2 < changes@.len() ==> commitment_change_addr(#[trigger] changes@[j1])
                    != commitment_change_addr(#[trigger] changes@[j2]),
        decreases nk - i,
    {
        let entry = known.entry_at(i);
        proof {
            crate::table::lemma_tbl_index_unique(kq, kq[i as int].0, i as int);
        }
        let pushed: Option<CommitmentChange> = match ledger.get(&entry.0) {
            Option::None => Option::Some(CommitmentChange::Removal { address: entry.0.clone() }),
            Option::Some(ledger_commitment) => {
                if !crate::types::bytes_eq(&entry.1, ledger_commitment) {
                    Option::Some(
                        CommitmentChange::Update {
                            address: entry.0.clone(),
                            commitment: crate::types::clone_bytes(ledger_commitment),
                        },
                    )
                } else {
                    Option::None
                }
            },
        };
        match pushed {
            Option::Some(change) => {
                let ghost pre_changes = changes@;
                proof {
                    assert(commitment_change_addr(change) == kq[i as int].0);
                    assert(commitment_change_valid(change, kq, lq));
                }
                changes.push(change);
                proof {
                    let last = changes@.len() - 1;
                    assert forall|j: int| 0 <= j < pre_changes.len() implies #[trigger] changes@[j]
                        == pre_changes[j] by {
                        assert(changes@[j] == pre_changes.push(changes@[last])[j]);
                    }
                    assert forall|j: int| #![trigger changes@[j]]
                        0 <= j < changes@.len() implies commitment_change_valid(
                        changes@[j],
                        kq,
                        lq,
                    ) && !(changes@[j] is Addition) && tbl_contains_key(
                        kq,
                        commitment_change_addr(changes@[j]),
                    ) by {
                        if j < last {
                            assert(changes@[j] == pre_changes[j]);
                        }
                    }
                    assert forall|j: int| #![trigger changes@[j]]
                        0 <= j < changes@.len() implies exists|x: int| #![trigger kq[x]]
                        0 <= x < i + 1 && commitment_change_addr(changes@[j]) == kq[x].0 by {
                        if j < last {
                            assert(changes@[j] == pre_changes[j]);
                            let x = choose|x: int| #![trigger kq[x]]
                                0 <= x < i && commitment_change_addr(pre_changes[j]) == kq[x].0;
                            assert(0 <= x < i + 1 && commitment_change_addr(changes@[j]) == kq[
                                x].0);
                        } else {
                            assert(0 <= i < i + 1 && commitment_change_addr(changes@[j]) == kq[
                                i as int].0);
                        }
                    }
                    assert forall|x: int| #![trigger kq[x]]
                        0 <= x < i + 1 && commitment_removal_needed(kq, lq, kq[x].0) implies exists|
                        j: int,
                    |
                        #![trigger changes@[j]]
                        0 <= j < changes@.len() && changes@[j] is Removal && commitment_change_addr(
                            changes@[j],
                        ) == kq[x].0 by {
                        if x == i {
                            assert(changes@[last] is Removal && commitment_change_addr(
                                changes@[last],
                            ) == kq[x].0);
                        } else {
                            lemma_push_keeps_cremoval_witness(pre_changes, changes@, kq[x].0);
                        }
                    }
                    assert forall|x: int| #![trigger kq[x]]
                        0 <= x < i + 1 && commitment_update_needed(kq, lq, kq[x].0) implies exists|
                        j: int,
                    |
                        #![trigger changes@[j]]
                        0 <= j < changes@.len() && changes@[j] is Update && commitment_change_addr(
                            changes@[j],
                        ) == kq[x].0 by {
                        if x == i {
                            assert(changes@[last] is Update && commitment_change_addr(
                                changes@[last],
                            ) == kq[x].0);
                        } else {
                            lemma_push_keeps_cupdate_witness(pre_changes, changes@, kq[x].0);
                        }
                    }
                    assert forall|j1: int, j2: int|
                        0 <= j1 < j2 < changes@.len() implies commitment_change_addr(
                        #[trigger] changes@[j1],
                    ) != commitment_change_addr(#[trigger] changes@[j2]) by {
                        if j2 == last {
                            assert(changes@[j1] == pre_changes[j1]);
                            let x = choose|x: int| #![trigger kq[x]]
                                0 <= x < i && commitment_change_addr(pre_changes[j1]) == kq[x].0;
                            assert(kq[x].0 != kq[i as int].0);
                        } else {
                            assert(changes@[j1] == pre_changes[j1]);
                            assert(changes@[j2] == pre_changes[j2]);
                        }
                    }
                }
            },
            Option::None => {
                proof {
                    assert forall|x: int| #![trigger kq[x]]
                        0 <= x < i + 1 && commitment_removal_needed(kq, lq, kq[x].0) implies exists|
                        j: int,
                    |
                        #![trigger changes@[j]]
                        0 <= j < changes@.len() && changes@[j] is Removal && commitment_change_addr(
                            changes@[j],
                        ) == kq[x].0 by {
                        if x == i {
                            assert(tbl_contains_key(lq, kq[i as int].0));
                        }
                    }
                    assert forall|x: int| #![trigger kq[x]]
                        0 <= x < i + 1 && commitment_update_needed(kq, lq, kq[x].0) implies exists|
                        j: int,
                    |
                        #![trigger changes@[j]]
                        0 <= j < changes@.len() && changes@[j] is Update && commitment_change_addr(
                            changes@[j],
                        ) == kq[x].0 by {
                        if x == i {
                            assert(tbl_value_of(lq, kq[i as int].0) == tbl_value_of(
                                kq,
                                kq[i as int].0,
                            ));
                        }
                    }
                }
            },
        }
        i += 1;
    }
    proof {
        assert forall|a: Seq<char>| #![trigger commitment_removal_needed(kq, lq, a)]
            commitment_removal_needed(kq, lq, a) implies exists|j: int| #![trigger changes@[j]]
            0 <= j < changes@.len() && changes@[j] is Removal && commitment_change_addr(
                changes@[j],
            ) == a by {
            let x = crate::table::tbl_index_of(kq, a);
            assert(0 <= x < kq.len() && kq[x].0 == a);
        }
        assert forall|a: Seq<char>| #![trigger commitment_update_needed(kq, lq, a)]
            commitment_update_needed(kq, lq, a) implies exists|j: int| #![trigger changes@[j]]
            0 <= j < changes@.len() && changes@[j] is Update && commitment_change_addr(changes@[j])
                == a by {
            let x = crate::table::tbl_index_of(kq, a);
            assert(0 <= x < kq.len() && kq[x].0 == a);
        }
    }
}

/// Queues an addition, carrying the ledger's content, for every ledger
/// commitment not yet known locally.
fn collect_commitment_additions(
    known: &Table<Vec<u8>>,
    ledger: &Table<Vec<u8>>,
    changes: &mut Vec<CommitmentChange>,
)
    requires
        known.wf(),
        ledger.wf(),
        forall|j: int| #![trigger old(changes)@[j]]
            0 <= j < old(changes)@.len() ==> commitment_change_valid(
                old(changes)@[j],
                known@,
                ledger@,
            ) && !(old(changes)@[j] is Addition) && tbl_contains_key(
                known@,
                commitment_change_addr(old(changes)@[j]),
            ),
        forall|a: Seq<char>| #![trigger commitment_removal_needed(known@, ledger@, a)]
            commitment_removal_needed(known@, ledger@, a) ==> exists|j: int|
                #![trigger old(changes)@[j]]
                0 <= j < old(changes)@.len() && old(changes)@[j] is Removal
                    && commitment_change_addr(old(changes)@[j]) == a,
        forall|a: Seq<char>| #![trigger commitment_update_needed(known@, ledger@, a)]
            commitment_update_needed(known@, ledger@, a) ==> exists|j: int|
                #![trigger old(changes)@[j]]
                0 <= j < old(changes)@.len() && old(changes)@[j] is Update
                    && commitment_change_addr(old(changes)@[j]) == a,
        forall|j1: int, j2: int|
            0 <= j1 < j2 < old(changes)@.len() ==> commitment_change_addr(
                #[trigger] old(changes)@[j1],
            ) != commitment_change_addr(#[trigger] old(changes)@[j2]),
    ensures
        commitment_changes_ok(final(changes)@, known@, ledger@),
{
    let ghost kq = known@;
    let ghost lq = ledger@;
    let nl = ledger.len();
    let mut i: usize = 0;
    while i < nl
        invariant
            known.wf(),
            ledger.wf(),
            kq == known@,
            lq == ledger@,
            nl == lq.len(),
            i <= nl,
            forall|j: int| #![trigger changes@[j]]
                0 <= j < changes@.len() ==> commitment_change_valid(changes@[j], kq, lq),
            forall|j: int| #![trigger changes@[j]]
                0 <= j < changes@.len() && !(changes@[j] is Addition) ==> tbl_contains_key(
                    kq,
                    commitment_change_addr(changes@[j]),
                ),
            forall|j: int| #![trigger changes@[j]]
                0 <= j < changes@.len() && changes@[j] is Addition ==> exists|x: int|
                    #![trigger lq[x]]
                    0 <= x < i && commitment_change_addr(changes@[j]) == lq[x].0,
            forall|a: Seq<char>| #![trigger commitment_removal_needed(kq, lq, a)]
                commitment_removal_needed(kq, lq, a) ==> exists|j: int| #![trigger changes@[j]]
                    0 <= j < changes@.len() && changes@[j] is Removal && commitment_change_addr(
                        changes@[j],
                    ) == a,
            forall|a: Seq<char>| #![trigger commitment_update_needed(kq, lq, a)]
                commitment_update_needed(kq, lq, a) ==> exists|j: int| #![trigger changes@[j]]
                    0 <= j < changes@.len() && changes@[j] is Update && commitment_change_addr(
                        changes@[j],
                    ) == a,
            forall|x: int| #![trigger lq[x]]
                0 <= x < i && commitment_addition_needed(kq, lq, lq[x].0) ==> exists|j: int|
                    #![trigger changes@[j]]
                    0 <= j < changes@.len() && changes@[j] is Addition && commitment_change_addr(
                        changes@[j],
                    ) == lq[x].0,
            forall|j1: int, j2: int|
                0 <= j1 < j2 < changes@.len() ==> commitment_change_addr(#[trigger] changes@[j1])
                    != commitment_change_addr(#[trigger] changes@[j2]),
        decreases nl - i,
    {
        let entry = ledger.entry_at(i);
        if !known.contains_key(&entry.0) {
            let ghost pre_changes = changes@;
            proof {
                crate::table::lemma_tbl_index_unique(lq, lq[i as int].0, i as int);
            }
            let change = CommitmentChange::Addition {
                address: entry.0.clone(),
                commitment: crate::types::clone_bytes(&entry.1),
            };
            proof {
                assert(commitment_change_addr(change) == lq[i as int].0);
                assert(commitment_change_valid(change, kq, lq));
            }
            changes.push(change);
            proof {
                let last = changes@.len() - 1;
                assert forall|j: int| 0 <= j < pre_changes.len() implies #[trigger] changes@[j]
                    == pre_changes[j] by {
                    assert(changes@[j] == pre_changes.push(changes@[last])[j]);
                }
                assert forall|j: int| #![trigger changes@[j]]
                    0 <= j < changes@.len() implies commitment_change_valid(
                    changes@[j],
                    kq,
                    lq,
                ) by {
                    if j < last {
                        assert(changes@[j] == pre_changes[j]);
                    }
                }
                assert forall|j: int| #![trigger changes@[j]]
                    0 <= j < changes@.len() && changes@[j] is Addition implies exists|x: int|
                    #![trigger lq[x]]
                    0 <= x < i + 1 && commitment_change_addr(changes@[j]) == lq[x].0 by {
                    if j < last {
                        assert(changes@[j] == pre_changes[j]);
                        if pre_changes[j] is Addition {
                            let x = choose|x: int| #![trigger lq[x]]
                                0 <= x < i && commitment_change_addr(pre_changes[j]) == lq[x].0;
                            assert(0 <= x < i + 1 && commitment_change_addr(changes@[j]) == lq[
                                x].0);
                        }
                    } else {
                        assert(0 <= i < i + 1 && commitment_change_addr(changes@[j]) == lq[
                            i as int].0);
                    }
                }
                assert forall|a: Seq<char>| #![trigger commitment_removal_needed(kq, lq, a)]
                    commitment_removal_needed(kq, lq, a) implies exists|j: int|
                    #![trigger changes@[j]]
                    0 <= j < changes@.len() && changes@[j] is Removal && commitment_change_addr(
                        changes@[j],
                    ) == a by {
                    lemma_push_keeps_cremoval_witness(pre_changes, changes@, a);
                }
                assert forall|a: Seq<char>| #![trigger commitment_update_needed(kq, lq, a)]
                    commitment_update_needed(kq, lq, a) implies exists|j: int|
                    #![trigger changes@[j]]
                    0 <= j < changes@.len() && changes@[j] is Update && commitment_change_addr(
                        changes@[j],
                    ) == a by {
                    lemma_push_keeps_cupdate_witness(pre_changes, changes@, a);
                }
                assert forall|x: int| #![trigger lq[x]]
                    0 <= x < i + 1 && commitment_addition_needed(kq, lq, lq[x].0) implies exists|
                    j: int,
                |
                    #![trigger changes@[j]]
                    0 <= j < changes@.len() && changes@[j] is Addition && commitment_change_addr(
                        changes@[j],
                    ) == lq[x].0 by {
                    if x == i {
                        assert(changes@[last] is Addition && commitment_change_addr(changes@[last])
                            == lq[x].0);
                    } else {
                        let j0 = choose|j: int| #![trigger pre_changes[j]]
                            0 <= j < pre_changes.len() && pre_changes[j] is Addition
                                && commitment_change_addr(pre_changes[j]) == lq[x].0;
                        assert(changes@[j0] == pre_changes[j0]);
                    }
                }
                assert forall|j1: int, j2: int|
                    0 <= j1 < j2 < changes@.len() implies commitment_change_addr(
                    #[trigger] changes@[j1],
                ) != commitment_change_addr(#[trigger] changes@[j2]) by {
                    if j2 == last {
                        assert(changes@[j1] == pre_changes[j1]);
                        if pre_changes[j1] is Addition {
                            let x = choose|x: int| #![trigger lq[x]]
                                0 <= x < i && commitment_change_addr(pre_changes[j1]) == lq[x].0;
                            assert(lq[x].0 != lq[i as int].0);
                        } else {
                            assert(tbl_contains_key(
                                kq,
                                commitment_change_addr(pre_changes[j1]),
                            ));
                        }
                    } else {
                        assert(changes@[j1] == pre_changes[j1]);
                        assert(changes@[j2] == pre_changes[j2]);
                    }
                }
            }
        } else {
            proof {
                assert forall|x: int| #![trigger lq[x]]
                    0 <= x < i + 1 && commitment_addition_needed(kq, lq, lq[x].0) implies exists|
                    j: int,
                |
                    #![trigger changes@[j]]
                    0 <= j < changes@.len() && changes@[j] is Addition && commitment_change_addr(
                        changes@[j],
                    ) == lq[x].0 by {
                    if x == i {
                        assert(tbl_contains_key(kq, lq[i as int].0));
                    }
                }
            }
        }
        i += 1;
    }
    proof {
        assert forall|a: Seq<char>| #![trigger commitment_addition_needed(kq, lq, a)]
            commitment_addition_needed(kq, lq, a) implies exists|j: int| #![trigger changes@[j]]
            0 <= j < changes@.len() && changes@[j] is Addition && commitment_change_addr(
                changes@[j],
            ) == a by {
            let x = crate::table::tbl_index_of(lq, a);
            assert(0 <= x < lq.len() && lq[x].0 == a);
        }
    }
}

impl Watcher {
    /// The self-check of the dealing-exchange phase: when our commitment is
    /// absent from the ledger for the current epoch, queue an
    /// own-dealing-commitment event — unless we believe we already submitted
    /// and the ledger says we are actively blacklisted. `own_blacklisting` is
    /// the ledger's blacklisting entry for our own address.
    pub fn check_for_own_dealing_commitment(
        &mut self,
        contract_commitments: &Table<Vec<u8>>,
        current_height: BlockHeight,
        current_epoch: Epoch,
        own_blacklisting: &Option<Blacklisting>,
    )
        requires
            old(self).wf(),
        ensures
            final(self).wf(),
            own_commitment_check_rel(
                *old(self),
                *final(self),
                contract_commitments@,
                *own_blacklisting,
                current_height,
                current_epoch,
            ),
    {
        if contract_commitments.contains_key(&self.own_address) {
            return ;
        }
        if !self.state_accessor.has_submitted_dealings_commitment() {
            self.state_accessor.push_new_dealing_commitment_submission_event(
                current_height,
                current_epoch,
            );
            return ;
        }
        let actively_blacklisted = match own_blacklisting {
            Option::Some(b) => !b.has_expired(current_height),
            Option::None => false,
        };
        if actively_blacklisted {
            // we cannot participate in this round of the ceremony; the
            // caller logs it and the loop continues on schedule
            return ;
        }
        self.state_accessor.push_new_dealing_commitment_submission_event(
            current_height,
            current_epoch,
        );
    }

    /// Diffs the ledger's commitments for the current epoch against the
    /// locally known ones — detecting changed content as well as additions
    /// and removals — and, when anything differs, queues one batched
    /// commitments-change event.
    pub fn check_for_commitments_change(
        &mut self,
        contract_commitments: &Table<Vec<u8>>,
        current_height: BlockHeight,
    )
        requires
            old(self).wf(),
            contract_commitments.wf(),
        ensures
            final(self).wf(),
            commitments_change_rel(
                *old(self),
                *final(self),
                contract_commitments@,
                current_height,
            ),
    {
        let ghost kq = self.state_accessor.known_commitments@;
        let ghost lq = contract_commitments@;
        let mut changes: Vec<CommitmentChange> = Vec::new();
        collect_commitment_changes_from_known(
            &self.state_accessor.known_commitments,
            contract_commitments,
            &mut changes,
        );
        collect_commitment_additions(
            &self.state_accessor.known_commitments,
            contract_commitments,
            &mut changes,
        );
        if changes.len() > 0 {
            proof {
                assert(commitment_change_valid(changes@[0], kq, lq));
                match changes@[0] {
                    CommitmentChange::Removal { address } => {
                        assert(commitment_removal_needed(kq, lq, address@));
                        assert(has_commitment_diff(kq, lq));
                    },
                    CommitmentChange::Update { address, .. } => {
                        assert(commitment_update_needed(kq, lq, address@));
                        assert(has_commitment_diff(kq, lq));
                    },
                    CommitmentChange::Addition { address, .. } => {
                        assert(commitment_addition_needed(kq, lq, address@));
                        assert(has_commitment_diff(kq, lq));
                    },
                }
            }
            let ghost pre_events = self.state_accessor.events@;
            let event = Event::new(current_height, EventType::KnownCommitmentsChange { changes });
            self.state_accessor.push_contract_change_event(event);
            proof {
                assert(self.state_accessor.events@.subrange(0, pre_events.len() as int)
                    =~= pre_events);
            }
        } else {
            proof {
                if has_commitment_diff(kq, lq) {
                    let a = choose|a: Seq<char>| #![auto]
                        commitment_removal_needed(kq, lq, a) || commitment_update_needed(kq, lq, a)
                            || commitment_addition_needed(kq, lq, a);
                    assert(changes@.len() > 0);
                }
            }
        }
    }

    /// One full poll step in the dealing-exchange phase: the own-commitment
    /// self-check, then the commitments diff.
    pub fn dealing_exchange_actions(
        &mut self,
        contract_commitments: &Table<Vec<u8>>,
        current_height: BlockHeight,
        epoch: Epoch,
        own_blacklisting: &Option<Blacklisting>,
    )
        requires
            old(self).wf(),
            contract_commitments.wf(),
        ensures
            final(self).wf(),
            de_rel(
                *old(self),
                *final(self),
                contract_commitments@,
                *own_blacklisting,
                current_height,
                epoch,
            ),
    {
        self.check_for_own_dealing_commitment(
            contract_commitments,
            current_height,
            epoch,
            own_blacklisting,
        );
        let ghost mid = *self;
        self.check_for_commitments_change(contract_commitments, current_height);
        proof {
            assert(own_commitment_check_rel(
                *old(self),
                mid,
                contract_commitments@,
                *own_blacklisting,
                current_height,
                epoch,
            ) && commitments_change_rel(mid, *self, contract_commitments@, current_height));
        }
    }

    /// Dispatches one poll on the phase the ledger reports. Only the
    /// public-key-submission and dealing-exchange phases are handled in this
    /// revision; every other phase raises the unhandled-phase error rather
    /// than silently doing nothing.
    pub fn perform_epoch_state_based_actions(
        &mut self,
        epoch: Epoch,
        contract_dealers: &Table<DealerDetails>,
        contract_commitments: &Table<Vec<u8>>,
        own_blacklisting: &Option<Blacklisting>,
        current_height: BlockHeight,
    ) -> (r: Result<(), DkgError>)
        requires
            old(self).wf(),
            contract_dealers.wf(),
            self_keyed(contract_dealers@),
            contract_commitments.wf(),
        ensures
            final(self).wf(),
            match epoch.state {
                EpochState::PublicKeySubmission { .. } => r is Ok && pks_rel(
                    *old(self),
                    *final(self),
                    contract_dealers@,
                    *own_blacklisting,
                    current_height,
                ),
                EpochState::DealingExchange { .. } => r is Ok && de_rel(
                    *old(self),
                    *final(self),
                    contract_commitments@,
                    *own_blacklisting,
                    current_height,
                    epoch,
                ),
                _ => r == Result::<(), DkgError>::Err(
                    DkgError::UnhandledEpochState { state: epoch.state },
                ) && *final(self) == *old(self),
            },
    {
        match epoch.state {
            EpochState::PublicKeySubmission { .. } => {
                self.public_key_submission_actions(
                    contract_dealers,
                    current_height,
                    own_blacklisting,
                );
                Result::Ok(())
            },
            EpochState::DealingExchange { .. } => {
                self.dealing_exchange_actions(
                    contract_commitments,
                    current_height,
                    epoch,
                    own_blacklisting,
                );
                Result::Ok(())
            },
            _ => Result::Err(DkgError::UnhandledEpochState { state: epoch.state }),
        }
    }

    /// One poll of the ledger: performs the phase-based actions for the
    /// epoch the ledger reports, and returns whether the locally remembered
    /// phase disagrees with the ledger's. A disagreement is only reported —
    /// the local belief is deliberately not overwritten.
    pub fn poll_contract(
        &mut self,
        ledger_epoch: Epoch,
        contract_dealers: &Table<DealerDetails>,
        contract_commitments: &Table<Vec<u8>>,
        own_blacklisting: &Option<Blacklisting>,
        current_height: BlockHeight,
    ) -> (r: Result<bool, DkgError>)
        requires
            old(self).wf(),
            contract_dealers.wf(),
            self_keyed(contract_dealers@),
            contract_commitments.wf(),
        ensures
            final(self).wf(),
            final(self).state_accessor.current_epoch == old(self).state_accessor.current_epoch,
            match ledger_epoch.state {
                EpochState::PublicKeySubmission { .. } => r == Result::<bool, DkgError>::Ok(
                    old(self).state_accessor.current_epoch.state != ledger_epoch.state,
                ) && pks_rel(
                    *old(self),
                    *final(self),
                    contract_dealers@,
                    *own_blacklisting,
                    current_height,
                ),
                EpochState::DealingExchange { .. } => r == Result::<bool, DkgError>::Ok(
                    old(self).state_accessor.current_epoch.state != ledger_epoch.state,
                ) && de_rel(
                    *old(self),
                    *final(self),
                    contract_commitments@,
                    *own_blacklisting,
                    current_height,
                    ledger_epoch,
                ),
                _ => r == Result::<bool, DkgError>::Err(
                    DkgError::UnhandledEpochState { state: ledger_epoch.state },
                ) && *final(self) == *old(self),
            },
    {
        let prior_epoch = self.state_accessor.current_epoch();
        match self.perform_epoch_state_based_actions(
            ledger_epoch,
            contract_dealers,
            contract_commitments,
            own_blacklisting,
            current_height,
        ) {
            Result::Ok(()) => {
                let mismatch = !(prior_epoch.state == ledger_epoch.state);
                proof {
                    match ledger_epoch.state {
                        EpochState::PublicKeySubmission { .. } => {
                            let mid = choose|mid: Watcher| #![auto]
                                own_key_check_rel(
                                    *old(self),
                                    mid,
                                    contract_dealers@,
                                    *own_blacklisting,
                                    current_height,
                                ) && dealers_change_rel(
                                    mid,
                                    *self,
                                    contract_dealers@,
                                    current_height,
                                );
                            assert(self.state_accessor.current_epoch
                                == old(self).state_accessor.current_epoch);
                        },
                        EpochState::DealingExchange { .. } => {
                            let mid = choose|mid: Watcher| #![auto]
                                own_commitment_check_rel(
                                    *old(self),
                                    mid,
                                    contract_commitments@,
                                    *own_blacklisting,
                                    current_height,
                                    ledger_epoch,
                                ) && commitments_change_rel(
                                    mid,
                                    *self,
                                    contract_commitments@,
                                    current_height,
                                );
                            assert(self.state_accessor.current_epoch
                                == old(self).state_accessor.current_epoch);
                        },
                        _ => {},
                    }
                }
                Result::Ok(mismatch)
            },
            Result::Err(e) => Result::Err(e),
        }
    }
}

/// A ledger dealer snapshot: the dealer records keyed by their own
/// addresses, the way the watcher's checks consume them. A later record for
/// an address already seen is ignored.
pub fn dealer_snapshot(dealers: &Vec<DealerDetails>) -> (t: Table<DealerDetails>)
    ensures
        t.wf(),
        self_keyed(t@),
        forall|a: Seq<char>| #![trigger tbl_contains_key(t@, a)]
            tbl_contains_key(t@, a) == exists|x: int|
                0 <= x < dealers@.len() && (#[trigger] dealers@[x]).address@ == a,
{
    let n = dealers.len();
    let mut t: Table<DealerDetails> = Table::new();
    let mut i: usize = 0;
    while i < n
        invariant
            n == dealers@.len(),
            i <= n,
            t.wf(),
            self_keyed(t@),
            forall|a: Seq<char>| #![trigger tbl_contains_key(t@, a)]
                tbl_contains_key(t@, a) == exists|x: int|
                    0 <= x < i && (#[trigger] dealers@[x]).address@ == a,
        decreases n - i,
    {
        let d = &dealers[i];
        let ghost pre = t@;
        if !t.contains_key(&d.address) {
            proof {
                crate::table::lemma_tbl_push(t@, d.address@, d@);
            }
            t.insert(d.address.clone(), d.clone());
            proof {
                assert forall|a: Seq<char>| #![trigger tbl_contains_key(t@, a)]
                    tbl_contains_key(t@, a) == exists|x: int|
                        0 <= x < i + 1 && (#[trigger] dealers@[x]).address@ == a by {
                    if tbl_contains_key(t@, a) {
                        if tbl_contains_key(pre, a) {
                            let x = choose|x: int|
                                0 <= x < i && (#[trigger] dealers@[x]).address@ == a;
                            assert(0 <= x < i + 1 && dealers@[x].address@ == a);
                        } else {
                            assert(dealers@[i as int].address@ == a);
                        }
                    } else {
                        if exists|x: int| 0 <= x < i + 1 && (#[trigger] dealers@[x]).address@
                            == a {
                            let x = choose|x: int|
                                0 <= x < i + 1 && (#[trigger] dealers@[x]).address@ == a;
                            if x < i {
                                assert(tbl_contains_key(pre, a));
                            }
                            assert(tbl_contains_key(t@, a));
                        }
                    }
                }
                assert forall|x: int|
                    0 <= x < t@.len() implies (#[trigger] t@[x]).0 == t@[x].1.address by {
                    if x < pre.len() {
                        assert(t@[x] == pre[x]);
                    }
                }
            }
        } else {
            proof {
                assert forall|a: Seq<char>| #![trigger tbl_contains_key(t@, a)]
                    tbl_contains_key(t@, a) == exists|x: int|
                        0 <= x < i + 1 && (#[trigger] dealers@[x]).address@ == a by {
                    if tbl_contains_key(t@, a) {
                        let x = choose|x: int| 0 <= x < i && (#[trigger] dealers@[x]).address@
                            == a;
                        assert(0 <= x < i + 1 && dealers@[x].address@ == a);
                    } else {
                        if exists|x: int| 0 <= x < i + 1 && (#[trigger] dealers@[x]).address@
                            == a {
                            let x = choose|x: int|
                                0 <= x < i + 1 && (#[trigger] dealers@[x]).address@ == a;
                            if x == i {
                                assert(tbl_contains_key(t@, dealers@[i as int].address@));
                            }
                            assert(tbl_contains_key(t@, a));
                        }
                    }
                }
            }
        }
        i += 1;
    }
    t
}

/// A ledger commitments snapshot: `(dealer, commitment)` pairs keyed by the
/// dealer, the way the watcher's checks consume them. A later pair for an
/// address already seen is ignored.
pub fn commitment_snapshot(pairs: &Vec<(Addr, Vec<u8>)>) -> (t: Table<Vec<u8>>)
    ensures
        t.wf(),
        forall|a: Seq<char>| #![trigger tbl_contains_key(t@, a)]
            tbl_contains_key(t@, a) == exists|x: int|
                0 <= x < pairs@.len() && (#[trigger] pairs@[x]).0@ == a,
{
    let n = pairs.len();
    let mut t: Table<Vec<u8>> = Table::new();
    let mut i: usize = 0;
    while i < n
        invariant
            n == pairs@.len(),
            i <= n,
            t.wf(),
            forall|a: Seq<char>| #![trigger tbl_contains_key(t@, a)]
                tbl_contains_key(t@, a) == exists|x: int|
                    0 <= x < i && (#[trigger] pairs@[x]).0@ == a,
        decreases n - i,
    {
        let p = &pairs[i];
        let ghost pre = t@;
        if !t.contains_key(&p.0) {
            proof {
                crate::table::lemma_tbl_push(t@, p.0@, p.1@);
            }
            t.insert(p.0.clone(), crate::types::clone_bytes(&p.1));
            proof {
                assert forall|a: Seq<char>| #![trigger tbl_contains_key(t@, a)]
                    tbl_contains_key(t@, a) == exists|x: int|
                        0 <= x < i + 1 && (#[trigger] pairs@[x]).0@ == a by {
                    if tbl_contains_key(t@, a) {
                        if tbl_contains_key(pre, a) {
                            let x = choose|x: int| 0 <= x < i && (#[trigger] pairs@[x]).0@ == a;
                            assert(0 <= x < i + 1 && pairs@[x].0@ == a);
                        } else {
                            assert(pairs@[i as int].0@ == a);
                        }
                    } else {
                        if exists|x: int| 0 <= x < i + 1 && (#[trigger] pairs@[x]).0@ == a {
                            let x = choose|x: int| 0 <= x < i + 1 && (#[trigger] pairs@[x]).0@
                                == a;
                            if x < i {
                                assert(tbl_contains_key(pre, a));
                            }
                            assert(tbl_contains_key(t@, a));
                        }
                    }
                }
            }
        } else {
            proof {
                assert forall|a: Seq<char>| #![trigger tbl_contains_key(t@, a)]
                    tbl_contains_key(t@, a) == exists|x: int|
                        0 <= x < i + 1 && (#[trigger] pairs@[x]).0@ == a by {
                    if tbl_contains_key(t@, a) {
                        let x = choose|x: int| 0 <= x < i && (#[trigger] pairs@[x]).0@ == a;
                        assert(0 <= x < i + 1 && pairs@[x].0@ == a);
                    } else {
                        if exists|x: int| 0 <= x < i + 1 && (#[trigger] pairs@[x]).0@ == a {
                            let x = choose|x: int| 0 <= x < i + 1 && (#[trigger] pairs@[x]).0@
                                == a;
                            if x == i {
                                assert(tbl_contains_key(t@, pairs@[i as int].0@));
                            }
                            assert(tbl_contains_key(t@, a));
                        }
                    }
                }
            }
        }
        i += 1;
    }
    t
}

} // verus!
