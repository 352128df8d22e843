//! The semantic events the watcher emits for the executor to act on.

use crate::addr::Addr;
use crate::types::{BlockHeight, DealerDetails, Epoch};
use vstd::prelude::*;

verus! {

/// One change to the ledger's dealer set relative to local knowledge.
#[derive(Debug)]
pub enum DealerChange {
    Addition { details: DealerDetails },
    Removal { address: Addr },
}

/// One change to the ledger's dealing commitments relative to local
/// knowledge.
#[derive(Debug)]
pub enum CommitmentChange {
    Addition { address: Addr, commitment: Vec<u8> },
    Removal { address: Addr },
    Update { address: Addr, commitment: Vec<u8> },
}

/// What a poll found, batched per tick.
#[allow(inconsistent_fields)]
#[derive(Debug)]
pub enum EventType {
    /// This participant still has to submit its own keys.
    OwnKeySubmissionRequired,
    /// This participant still has to submit its dealing commitment for the
    /// given epoch.
    OwnDealingCommitmentSubmissionRequired { epoch: Epoch },
    /// The ledger's dealer set differs from local knowledge.
    DealerSetChange { changes: Vec<DealerChange> },
    /// The ledger's commitments differ from local knowledge.
    KnownCommitmentsChange { changes: Vec<CommitmentChange> },
}

/// An event, stamped with the block height of the poll that produced it.
#[derive(Debug)]
pub struct Event {
    pub height: BlockHeight,
    pub event_type: EventType,
}

impl Event {
    pub fn new(height: BlockHeight, event_type: EventType) -> (ev: Event)
        ensures
            ev == (Event { height, event_type }),
    {
        Event { height, event_type }
    }
}

} // verus!
