//! The failure taxonomy of the ledger operations and of the watcher.

use crate::types::{Blacklisting, EpochId, EpochState};
use vstd::prelude::*;

verus! {

/// Why a ledger operation was rejected.
#[derive(Clone, Copy, PartialEq, Eq, Structural, Debug)]
pub enum ContractError {
    /// No coin was sent for the deposit.
    NoDepositFound,
    /// More than one coin type was sent.
    MultipleDenoms,
    /// The deposit uses the wrong coin denomination.
    WrongDenom,
    /// Not enough funds were sent for the deposit.
    InsufficientDeposit { received: u128, minimum: u128 },
    /// The declared ed25519 public key is not valid base58 of at most 32 bytes.
    MalformedEd25519PublicKey,
    /// The key-possession signature is not valid base58 of at most 64 bytes.
    MalformedEd25519Signature,
    /// The key-possession signature did not verify over the sender's address.
    InvalidEd25519Signature,
    /// The sender is excluded from admission by an unexpired blacklisting.
    BlacklistedDealer { reason: Blacklisting },
    /// The sender is not a member of the active validator set.
    NotAValidator,
    /// The sender is already a dealer for the epoch.
    AlreadyADealer,
    /// No epoch record exists yet.
    EpochNotInitialised,
    /// The requested epoch would finish before it begins.
    EpochStateFinishInPast,
    /// The request names an epoch other than the current one.
    MismatchedEpoch { current: EpochId, request_for: EpochId },
    /// The sender already committed a dealing for this epoch.
    AlreadyCommitted,
}

/// Why a watcher poll step could not be carried out.
#[derive(Clone, Copy, PartialEq, Eq, Structural, Debug)]
pub enum DkgError {
    /// The ledger reports an epoch phase this watcher revision does not
    /// handle; raised loudly rather than silently skipped.
    UnhandledEpochState { state: EpochState },
}

} // verus!
