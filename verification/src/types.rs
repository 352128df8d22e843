//! Plain data carried by the ledger: heights, blacklistings, dealer records,
//! coins and epochs.

use crate::addr::Addr;
use vstd::prelude::*;

verus! {

pub type BlockHeight = u64;

/// The mathematical values of a sequence of values, element by element.
pub open spec fn views_of<T: View>(s: Seq<T>) -> Seq<<T as View>::V> {
    s.map_values(|x: T| x@)
}

pub type EpochId = u64;

pub type NodeIndex = u64;

/// Why an address was barred from dealer admission.
#[derive(Clone, Copy, PartialEq, Eq, Structural, Debug)]
pub enum BlacklistingReason {
    Ed25519PossessionVerificationFailure,
}

/// A temporary or permanent exclusion of an address from dealer admission.
/// `expiration == None` means the exclusion is permanent.
#[derive(Clone, Copy, PartialEq, Eq, Structural, Debug)]
pub struct Blacklisting {
    pub reason: BlacklistingReason,
    pub height: BlockHeight,
    pub expiration: Option<BlockHeight>,
}

impl View for Blacklisting {
    type V = Blacklisting;

    open spec fn view(&self) -> Blacklisting {
        *self
    }
}

impl Blacklisting {
    /// A blacklisting with an expiration height is expired once the evaluated
    /// height is strictly past it; one without an expiration never expires.
    pub open spec fn spec_has_expired(self, height: BlockHeight) -> bool {
        match self.expiration {
            Option::Some(e) => height > e,
            Option::None => false,
        }
    }

    pub fn has_expired(&self, height: BlockHeight) -> (expired: bool)
        ensures
            expired == self.spec_has_expired(height),
    {
        match self.expiration {
            Option::Some(e) => height > e,
            Option::None => false,
        }
    }
}

/// The record the ledger keeps for an admitted dealer.
#[derive(Debug)]
pub struct DealerDetails {
    pub address: Addr,
    pub joined_at: BlockHeight,
    pub left_at: Option<BlockHeight>,
    pub blacklisting: Option<Blacklisting>,
    pub ed25519_public_key: String,
    pub bte_public_key_with_proof: String,
    pub assigned_index: NodeIndex,
}

/// The mathematical value of a [`DealerDetails`] record.
pub struct DealerDetailsV {
    pub address: Seq<char>,
    pub joined_at: BlockHeight,
    pub left_at: Option<BlockHeight>,
    pub blacklisting: Option<Blacklisting>,
    pub ed25519_public_key: Seq<char>,
    pub bte_public_key_with_proof: Seq<char>,
    pub assigned_index: NodeIndex,
}

impl View for DealerDetails {
    type V = DealerDetailsV;

    open spec fn view(&self) -> DealerDetailsV {
        DealerDetailsV {
            address: self.address@,
            joined_at: self.joined_at,
            left_at: self.left_at,
            blacklisting: self.blacklisting,
            ed25519_public_key: self.ed25519_public_key@,
            bte_public_key_with_proof: self.bte_public_key_with_proof@,
            assigned_index: self.assigned_index,
        }
    }
}

impl Clone for DealerDetails {
    fn clone(&self) -> (d: DealerDetails)
        ensures
            d@ == self@,
    {
        DealerDetails {
            address: self.address.clone(),
            joined_at: self.joined_at,
            left_at: self.left_at,
            blacklisting: self.blacklisting,
            ed25519_public_key: self.ed25519_public_key.clone(),
            bte_public_key_with_proof: self.bte_public_key_with_proof.clone(),
            assigned_index: self.assigned_index,
        }
    }
}

/// A single denomination of funds attached to a message.
#[derive(Debug)]
pub struct Coin {
    pub denom: String,
    pub amount: u128,
}

/// The mathematical value of a [`Coin`].
pub struct CoinV {
    pub denom: Seq<char>,
    pub amount: u128,
}

impl View for Coin {
    type V = CoinV;

    open spec fn view(&self) -> CoinV {
        CoinV { denom: self.denom@, amount: self.amount }
    }
}

impl Clone for Coin {
    fn clone(&self) -> (c: Coin)
        ensures
            c@ == self@,
    {
        Coin { denom: self.denom.clone(), amount: self.amount }
    }
}

/// The phase an epoch is in, with the block heights bounding it.
#[derive(Clone, Copy, PartialEq, Eq, Structural, Debug)]
pub enum EpochState {
    PublicKeySubmission { begun_at: BlockHeight, finish_by: BlockHeight },
    DealingExchange { begun_at: BlockHeight, finish_by: BlockHeight },
    ComplaintSubmission { begun_at: BlockHeight, finish_by: BlockHeight },
    ComplaintVoting { begun_at: BlockHeight, finish_by: BlockHeight },
    VerificationKeySubmission { begun_at: BlockHeight, finish_by: BlockHeight },
    VerificationKeyMismatchSubmission { begun_at: BlockHeight, finish_by: BlockHeight },
    VerificationKeyMismatchVoting { begun_at: BlockHeight, finish_by: BlockHeight },
    InProgress { begun_at: BlockHeight, finish_by: BlockHeight },
}

/// One complete run of the ceremony, partitioned into ordered phases.
#[derive(Clone, Copy, PartialEq, Eq, Structural, Debug)]
pub struct Epoch {
    pub id: EpochId,
    pub state: EpochState,
    pub system_threshold: u64,
}

impl Epoch {
    /// The epoch after this one in the fixed cyclic phase ordering, or `None`
    /// if a time bound is missing or the bounds are inverted. Reaching
    /// `PublicKeySubmission` again starts the next ceremony run, so the id
    /// increases by one there (and the cycle stops at the largest id).
    pub open spec fn spec_next_state(
        self,
        begun_at: Option<BlockHeight>,
        finish_by: Option<BlockHeight>,
    ) -> Option<Epoch> {
        if begun_at matches Option::Some(b) && finish_by matches Option::Some(f) && b <= f {
            let b = begun_at->Some_0;
            let f = finish_by->Some_0;
            match self.state {
                EpochState::PublicKeySubmission { .. } => Option::Some(
                    Epoch { state: EpochState::DealingExchange { begun_at: b, finish_by: f }, ..self },
                ),
                EpochState::DealingExchange { .. } => Option::Some(
                    Epoch { state: EpochState::ComplaintSubmission { begun_at: b, finish_by: f }, ..self },
                ),
                EpochState::ComplaintSubmission { .. } => Option::Some(
                    Epoch { state: EpochState::ComplaintVoting { begun_at: b, finish_by: f }, ..self },
                ),
                EpochState::ComplaintVoting { .. } => Option::Some(
                    Epoch {
                        state: EpochState::VerificationKeySubmission { begun_at: b, finish_by: f },
                        ..self
                    },
                ),
                EpochState::VerificationKeySubmission { .. } => Option::Some(
                    Epoch {
                        state: EpochState::VerificationKeyMismatchSubmission {
                            begun_at: b,
                            finish_by: f,
                        },
                        ..self
                    },
                ),
                EpochState::VerificationKeyMismatchSubmission { .. } => Option::Some(
                    Epoch {
                        state: EpochState::VerificationKeyMismatchVoting { begun_at: b, finish_by: f },
                        ..self
                    },
                ),
                EpochState::VerificationKeyMismatchVoting { .. } => Option::Some(
                    Epoch { state: EpochState::InProgress { begun_at: b, finish_by: f }, ..self },
                ),
                EpochState::InProgress { .. } => if self.id < u64::MAX {
                    Option::Some(
                        Epoch {
                            id: (self.id + 1) as u64,
                            state: EpochState::PublicKeySubmission { begun_at: b, finish_by: f },
                            ..self
                        },
                    )
                } else {
                    Option::None
                },
            }
        } else {
            Option::None
        }
    }

    pub fn next_state(
        &self,
        begun_at: Option<BlockHeight>,
        finish_by: Option<BlockHeight>,
    ) -> (next: Option<Epoch>)
        ensures
            next == self.spec_next_state(begun_at, finish_by),
    {
        let (b, f) = match (begun_at, finish_by) {
            (Option::Some(b), Option::Some(f)) => {
                if b <= f {
                    (b, f)
                } else {
                    return Option::None;
                }
            },
            _ => {
                return Option::None;
            },
        };
        let next_state = match self.state {
            EpochState::PublicKeySubmission { .. } => EpochState::DealingExchange {
                begun_at: b,
                finish_by: f,
            },
            EpochState::DealingExchange { .. } => EpochState::ComplaintSubmission {
                begun_at: b,
                finish_by: f,
            },
            EpochState::ComplaintSubmission { .. } => EpochState::ComplaintVoting {
                begun_at: b,
                finish_by: f,
            },
            EpochState::ComplaintVoting { .. } => EpochState::VerificationKeySubmission {
                begun_at: b,
                finish_by: f,
            },
            EpochState::VerificationKeySubmission { .. } => {
                EpochState::VerificationKeyMismatchSubmission { begun_at: b, finish_by: f }
            },
            EpochState::VerificationKeyMismatchSubmission { .. } => {
                EpochState::VerificationKeyMismatchVoting { begun_at: b, finish_by: f }
            },
            EpochState::VerificationKeyMismatchVoting { .. } => EpochState::InProgress {
                begun_at: b,
                finish_by: f,
            },
            EpochState::InProgress { .. } => {
                if self.id < u64::MAX {
                    return Option::Some(
                        Epoch {
                            id: self.id + 1,
                            state: EpochState::PublicKeySubmission { begun_at: b, finish_by: f },
                            system_threshold: self.system_threshold,
                        },
                    );
                } else {
                    return Option::None;
                }
            },
        };
        Option::Some(Epoch { id: self.id, state: next_state, system_threshold: self.system_threshold })
    }
}

/// A fresh byte vector holding the same bytes.
pub fn clone_bytes(v: &Vec<u8>) -> (r: Vec<u8>)
    ensures
        r@ == v@,
{
    let n = v.len();
    let mut out: Vec<u8> = Vec::new();
    let mut i: usize = 0;
    while i < n
        invariant
            n == v@.len(),
            i <= n,
            out@ == v@.subrange(0, i as int),
        decreases n - i,
    {
        out.push(v[i]);
        proof {
            assert(out@ =~= v@.subrange(0, i + 1));
        }
        i += 1;
    }
    proof {
        assert(v@.subrange(0, n as int) =~= v@);
    }
    out
}

/// Whether two byte vectors hold the same bytes.
pub fn bytes_eq(a: &Vec<u8>, b: &Vec<u8>) -> (r: bool)
    ensures
        r == (a@ == b@),
{
    let n = a.len();
    if n != b.len() {
        proof {
            assert(a@ != b@);
        }
        return false;
    }
    let mut i: usize = 0;
    while i < n
        invariant
            n == a@.len() == b@.len(),
            i <= n,
            forall|j: int| 0 <= j < i ==> a@[j] == b@[j],
        decreases n - i,
    {
        if a[i] != b[i] {
            proof {
                assert(a@[i as int] != b@[i as int]);
            }
            return false;
        }
        i += 1;
    }
    proof {
        assert(a@ =~= b@);
    }
    true
}

} // verus!
