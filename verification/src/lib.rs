//! Ledger-side state machine and off-chain reconciliation engine for a
//! multi-party distributed key generation (DKG) ceremony.
//!
//! The ledger side consists of an epoch state machine, a dealer registry with
//! blacklisting and stable node-index assignment, and a per-epoch registry of
//! dealing commitments, all operating on an explicit store handle. The
//! off-chain side is a watcher that diffs ledger truth against a local
//! state-accessor snapshot and emits the events that drive a participant's
//! next actions.

pub mod accessor;
pub mod addr;
pub mod contract;
pub mod dealers;
pub mod dealings;
pub mod error;
pub mod events;
pub mod explorer;
pub mod ext;
pub mod recipient;
pub mod store;
pub mod table;
pub mod types;
pub mod watcher;

use vstd::prelude::*;

verus! {

} // verus!
