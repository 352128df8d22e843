//! The local, per-participant cache of ceremony progress: what this process
//! believes has happened, plus the ordered queue of outgoing events.

use crate::events::{Event, EventType};
use crate::table::Table;
use crate::types::{Blacklisting, BlockHeight, DealerDetails, Epoch};
use vstd::prelude::*;

verus! {

/// What one participant believes about ceremony progress. Mutated only by
/// the watcher after a successful poll; the executor drains the event queue.
#[derive(Debug)]
pub struct StateAccessor {
    pub known_dealers: Table<DealerDetails>,
    pub bad_dealers: Table<Blacklisting>,
    pub known_commitments: Table<Vec<u8>>,
    pub has_submitted_keys: bool,
    pub has_submitted_dealings_commitment: bool,
    pub current_epoch: Epoch,
    pub events: Vec<Event>,
}

/// `post` is `pre` with one event appended for a key submission owed at
/// height `h`: the event is queued and the submission is optimistically
/// marked as done, everything else untouched.
pub open spec fn key_submission_pushed(pre: StateAccessor, post: StateAccessor, h: BlockHeight) -> bool {
    &&& post.events@ == pre.events@.push(
        Event { height: h, event_type: EventType::OwnKeySubmissionRequired },
    )
    &&& post.has_submitted_keys == true
    &&& post.has_submitted_dealings_commitment == pre.has_submitted_dealings_commitment
    &&& post.known_dealers@ == pre.known_dealers@
    &&& post.bad_dealers@ == pre.bad_dealers@
    &&& post.known_commitments@ == pre.known_commitments@
    &&& post.current_epoch == pre.current_epoch
}

/// `post` is `pre` with one event appended for a dealing commitment owed at
/// height `h` in `epoch`, the submission optimistically marked as done.
pub open spec fn commitment_submission_pushed(
    pre: StateAccessor,
    post: StateAccessor,
    h: BlockHeight,
    epoch: Epoch,
) -> bool {
    &&& post.events@ == pre.events@.push(
        Event {
            height: h,
            event_type: EventType::OwnDealingCommitmentSubmissionRequired { epoch },
        },
    )
    &&& post.has_submitted_keys == pre.has_submitted_keys
    &&& post.has_submitted_dealings_commitment == true
    &&& post.known_dealers@ == pre.known_dealers@
    &&& post.bad_dealers@ == pre.bad_dealers@
    &&& post.known_commitments@ == pre.known_commitments@
    &&& post.current_epoch == pre.current_epoch
}

impl StateAccessor {
    /// The local tables never hold two records for one address.
    pub open spec fn wf(&self) -> bool {
        &&& self.known_dealers.wf()
        &&& self.bad_dealers.wf()
        &&& self.known_commitments.wf()
    }

    /// A fresh cache: nothing known, nothing submitted, no pending events.
    pub fn new(current_epoch: Epoch) -> (acc: StateAccessor)
        ensures
            acc.wf(),
            acc.known_dealers@.len() == 0,
            acc.bad_dealers@.len() == 0,
            acc.known_commitments@.len() == 0,
            !acc.has_submitted_keys,
            !acc.has_submitted_dealings_commitment,
            acc.current_epoch == current_epoch,
            acc.events@.len() == 0,
    {
        StateAccessor {
            known_dealers: Table::new(),
            bad_dealers: Table::new(),
            known_commitments: Table::new(),
            has_submitted_keys: false,
            has_submitted_dealings_commitment: false,
            current_epoch,
            events: Vec::new(),
        }
    }

    pub fn get_known_dealers(&self) -> (t: &Table<DealerDetails>)
        ensures
            t@ == self.known_dealers@,
    {
        &self.known_dealers
    }

    pub fn get_malformed_dealers(&self) -> (t: &Table<Blacklisting>)
        ensures
            t@ == self.bad_dealers@,
    {
        &self.bad_dealers
    }

    pub fn get_known_commitments(&self) -> (t: &Table<Vec<u8>>)
        ensures
            t@ == self.known_commitments@,
    {
        &self.known_commitments
    }

    pub fn has_submitted_keys(&self) -> (b: bool)
        ensures
            b == self.has_submitted_keys,
    {
        self.has_submitted_keys
    }

    pub fn has_submitted_dealings_commitment(&self) -> (b: bool)
        ensures
            b == self.has_submitted_dealings_commitment,
    {
        self.has_submitted_dealings_commitment
    }

    pub fn current_epoch(&self) -> (e: Epoch)
        ensures
            e == self.current_epoch,
    {
        self.current_epoch
    }

    /// Queues a batched contract-change event.
    pub fn push_contract_change_event(&mut self, event: Event)
        ensures
            final(self).events@ == old(self).events@.push(event),
            final(self).known_dealers@ == old(self).known_dealers@,
            final(self).bad_dealers@ == old(self).bad_dealers@,
            final(self).known_commitments@ == old(self).known_commitments@,
            final(self).has_submitted_keys == old(self).has_submitted_keys,
            final(self).has_submitted_dealings_commitment == old(
                self,
            ).has_submitted_dealings_commitment,
            final(self).current_epoch == old(self).current_epoch,
    {
        self.events.push(event);
    }

    /// Queues the own-key-submission event and optimistically marks the
    /// submission as done, without waiting for ledger confirmation.
    pub fn push_new_key_submission_event(&mut self, height: BlockHeight)
        ensures
            key_submission_pushed(*old(self), *final(self), height),
    {
        self.events.push(Event { height, event_type: EventType::OwnKeySubmissionRequired });
        self.has_submitted_keys = true;
    }

    /// Queues the own-dealing-commitment event and optimistically marks the
    /// submission as done, without waiting for ledger confirmation.
    pub fn push_new_dealing_commitment_submission_event(&mut self, height: BlockHeight, epoch: Epoch)
        ensures
            commitment_submission_pushed(*old(self), *final(self), height, epoch),
    {
        self.events.push(
            Event {
                height,
                event_type: EventType::OwnDealingCommitmentSubmissionRequired { epoch },
            },
        );
        self.has_submitted_dealings_commitment = true;
    }

    /// Hands the queued events to the executor and empties the queue.
    pub fn drain_events(&mut self) -> (evs: Vec<Event>)
        ensures
            evs@ == old(self).events@,
            final(self).events@.len() == 0,
            final(self).known_dealers@ == old(self).known_dealers@,
            final(self).bad_dealers@ == old(self).bad_dealers@,
            final(self).known_commitments@ == old(self).known_commitments@,
            final(self).has_submitted_keys == old(self).has_submitted_keys,
            final(self).has_submitted_dealings_commitment == old(
                self,
            ).has_submitted_dealings_commitment,
            final(self).current_epoch == old(self).current_epoch,
    {
        let mut evs: Vec<Event> = Vec::new();
        core::mem::swap(&mut evs, &mut self.events);
        evs
    }
}

} // verus!
