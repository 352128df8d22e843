//! Dealer admission: blacklist handling, eligibility, key-possession
//! verification, deposit validation and stable node-index assignment.

use crate::addr::Addr;
use crate::error::ContractError;
use crate::ext::{bs58_decoded, ed25519_verdict};
use crate::store::Store;
use crate::table::{
    lemma_tbl_remove, tbl_contains_key, tbl_opt_value, tbl_remove_key, tbl_value_of,
};
use crate::types::{
    views_of, BlacklistingReason, Blacklisting, BlockHeight, Coin, CoinV, DealerDetails,
    DealerDetailsV, NodeIndex,
};
use vstd::prelude::*;

verus! {

/// The smallest deposit an admission must carry.
pub const MINIMUM_DEPOSIT: u128 = 100;

/// How many blocks a blacklisting for a failed key-possession check lasts.
pub const INVALID_ED25519_BLACKLISTING_EXPIRATION: u64 = 1000;

/// The denomination deposits must be paid in.
pub open spec fn stake_denom() -> Seq<char> {
    "unym"@
}

pub fn stake_denom_string() -> (s: String)
    ensures
        s@ == stake_denom(),
{
    "unym".to_owned()
}

/// The blacklisting that still bars `sender` at height `h`, if any.
pub open spec fn active_blacklisting(bl: Option<Blacklisting>, h: BlockHeight) -> Option<
    Blacklisting,
> {
    match bl {
        Option::Some(b) => if !b.spec_has_expired(h) {
            Option::Some(b)
        } else {
            Option::None
        },
        Option::None => Option::None,
    }
}

/// Whether `a` is a member of the active validator set.
pub open spec fn is_validator(vs: Seq<Addr>, a: Seq<char>) -> bool {
    exists|i: int| 0 <= i < vs.len() && vs[i]@ == a
}

/// The error the eligibility checks raise, if any: an unexpired blacklisting,
/// then current-dealer membership, then validator membership, in that order.
pub open spec fn eligibility_verdict(
    bl: Option<Blacklisting>,
    already_dealer: bool,
    validator: bool,
    h: BlockHeight,
) -> Option<ContractError> {
    if let Option::Some(b) = active_blacklisting(bl, h) {
        Option::Some(ContractError::BlacklistedDealer { reason: b })
    } else if already_dealer {
        Option::Some(ContractError::AlreadyADealer)
    } else if !validator {
        Option::Some(ContractError::NotAValidator)
    } else {
        Option::None
    }
}

/// The error the deposit checks raise, if any, in their fixed order: no coin,
/// several coin types, a wrong denomination, too small an amount.
pub open spec fn deposit_verdict(funds: Seq<CoinV>) -> Option<ContractError> {
    if funds.len() == 0 {
        Option::Some(ContractError::NoDepositFound)
    } else if funds.len() > 1 {
        Option::Some(ContractError::MultipleDenoms)
    } else if funds[0].denom != stake_denom() {
        Option::Some(ContractError::WrongDenom)
    } else if funds[0].amount < MINIMUM_DEPOSIT {
        Option::Some(
            ContractError::InsufficientDeposit {
                received: funds[0].amount,
                minimum: MINIMUM_DEPOSIT,
            },
        )
    } else {
        Option::None
    }
}

/// `b` extended with zero bytes up to length `n` (meaningful for
/// `b.len() <= n`): decoding into a fixed zeroed buffer leaves the tail zero.
pub open spec fn padded(b: Seq<u8>, n: int) -> Seq<u8> {
    b + Seq::new((n - b.len()) as nat, |i: int| 0u8)
}

/// What decoding `s` into a zeroed buffer of `n` bytes yields: the decoded
/// bytes padded with zeros, or `None` when `s` is not base58 or decodes to
/// more than `n` bytes.
pub open spec fn decoded_fixed(s: Seq<char>, n: int) -> Option<Seq<u8>> {
    match bs58_decoded(s) {
        Option::Some(b) => if b.len() <= n {
            Option::Some(padded(b, n))
        } else {
            Option::None
        },
        Option::None => Option::None,
    }
}

/// The error the key-possession check raises, if any: an undecodable key,
/// an undecodable signature, or a signature that does not verify over the
/// owner's address.
pub open spec fn possession_verdict(
    owner: Seq<char>,
    signature: Seq<char>,
    key: Seq<char>,
) -> Option<ContractError> {
    match decoded_fixed(key, 32) {
        Option::None => Option::Some(ContractError::MalformedEd25519PublicKey),
        Option::Some(kb) => match decoded_fixed(signature, 64) {
            Option::None => Option::Some(ContractError::MalformedEd25519Signature),
            Option::Some(sb) => if ed25519_verdict(owner, sb, kb) {
                Option::None
            } else {
                Option::Some(ContractError::InvalidEd25519Signature)
            },
        },
    }
}

/// Decodes base58 into a zeroed buffer of `n` bytes.
fn decode_fixed(s: &str, n: usize) -> (r: Option<Vec<u8>>)
    ensures
        match r {
            Option::Some(v) => decoded_fixed(s@, n as int) == Option::Some(v@) && v@.len() == n,
            Option::None => decoded_fixed(s@, n as int) is None,
        },
{
    match crate::ext::bs58_decode(s) {
        Option::Some(mut v) => {
            if v.len() > n {
                return Option::None;
            }
            let ghost decoded = v@;
            while v.len() < n
                invariant
                    decoded.len() <= v@.len() <= n,
                    v@.subrange(0, decoded.len() as int) == decoded,
                    forall|i: int| decoded.len() <= i < v@.len() ==> v@[i] == 0u8,
                decreases n - v.len(),
            {
                let ghost pre = v@;
                v.push(0u8);
                proof {
                    assert(v@.subrange(0, decoded.len() as int) =~= pre.subrange(
                        0,
                        decoded.len() as int,
                    ));
                }
            }
            proof {
                assert(v@ =~= padded(decoded, n as int));
            }
            Option::Some(v)
        },
        Option::None => Option::None,
    }
}

/// Checks that the candidate controls the declared ed25519 key: decodes the
/// key and the signature from base58 and verifies the signature over the
/// candidate's own chain address.
pub fn validate_key_possession_signature(owner: &Addr, signature: &str, encoded_key: &str) -> (r:
    Result<(), ContractError>)
    ensures
        r is Ok <==> possession_verdict(owner@, signature@, encoded_key@) is None,
        r matches Err(e) ==> possession_verdict(owner@, signature@, encoded_key@)
            == Option::Some(e),
{
    let key_bytes = match decode_fixed(encoded_key, 32) {
        Option::Some(v) => v,
        Option::None => {
            return Result::Err(ContractError::MalformedEd25519PublicKey);
        },
    };
    let signature_bytes = match decode_fixed(signature, 64) {
        Option::Some(v) => v,
        Option::None => {
            return Result::Err(ContractError::MalformedEd25519Signature);
        },
    };
    if crate::ext::ed25519_verify(owner.as_str(), &signature_bytes, &key_bytes) {
        Result::Ok(())
    } else {
        Result::Err(ContractError::InvalidEd25519Signature)
    }
}

/// Everything of `post` but the blacklist table equals `pre`.
pub open spec fn unchanged_but_blacklist(pre: Store, post: Store) -> bool {
    &&& post.current_epoch == pre.current_epoch
    &&& post.current_dealers@ == pre.current_dealers@
    &&& post.past_dealers@ == pre.past_dealers@
    &&& post.dealing_commitments@ == pre.dealing_commitments@
    &&& post.node_index_counter == pre.node_index_counter
}

fn contains_addr(vs: &Vec<Addr>, a: &Addr) -> (r: bool)
    ensures
        r == is_validator(vs@, a@),
{
    let n = vs.len();
    let mut i: usize = 0;
    while i < n
        invariant
            n == vs@.len(),
            i <= n,
            forall|j: int| 0 <= j < i ==> vs@[j]@ != a@,
        decreases n - i,
    {
        if vs[i].equals(a) {
            proof {
                assert(is_validator(vs@, a@));
            }
            return true;
        }
        i += 1;
    }
    false
}

/// The eligibility gate of admission. An expired blacklisting found on the
/// way is purged, and that purge persists even when a later check fails.
pub fn verify_dealer(
    store: &mut Store,
    current_height: BlockHeight,
    dealer: &Addr,
    validators: &Vec<Addr>,
) -> (r: Result<(), ContractError>)
    requires
        old(store).wf(),
    ensures
        final(store).wf(),
        ({
            let verdict = eligibility_verdict(
                tbl_opt_value(old(store).blacklisted_dealers@, dealer@),
                tbl_contains_key(old(store).current_dealers@, dealer@),
                is_validator(validators@, dealer@),
                current_height,
            );
            &&& (r is Ok <==> verdict is None)
            &&& (r matches Err(e) ==> verdict == Option::Some(e))
        }),
        ({
            let active = active_blacklisting(
                tbl_opt_value(old(store).blacklisted_dealers@, dealer@),
                current_height,
            );
            &&& (active is Some ==> *final(store) == *old(store))
            &&& (active is None ==> unchanged_but_blacklist(*old(store), *final(store))
                && final(store).blacklisted_dealers@ == tbl_remove_key(
                old(store).blacklisted_dealers@,
                dealer@,
            ))
        }),
{
    let blacklisting: Option<Blacklisting> = match store.blacklisted_dealers.get(dealer) {
        Option::Some(b) => Option::Some(*b),
        Option::None => Option::None,
    };
    match blacklisting {
        Option::Some(b) => {
            if !b.has_expired(current_height) {
                return Result::Err(ContractError::BlacklistedDealer { reason: b });
            } else {
                store.blacklisted_dealers.remove(dealer);
            }
        },
        Option::None => {
            proof {
                assert(tbl_remove_key(store.blacklisted_dealers@, dealer@)
                    == store.blacklisted_dealers@);
            }
        },
    }
    if store.current_dealers.contains_key(dealer) {
        return Result::Err(ContractError::AlreadyADealer);
    }
    if !contains_addr(validators, dealer) {
        return Result::Err(ContractError::NotAValidator);
    }
    Result::Ok(())
}

/// Validates the funds sent as deposit and extracts the single coin.
pub fn validate_dealer_deposit(funds: &Vec<Coin>) -> (r: Result<Coin, ContractError>)
    ensures
        r is Ok <==> deposit_verdict(views_of(funds@)) is None,
        r matches Err(e) ==> deposit_verdict(views_of(funds@)) == Option::Some(e),
        r matches Ok(c) ==> funds@.len() == 1 && c@ == funds@[0]@,
{
    if funds.len() == 0 {
        return Result::Err(ContractError::NoDepositFound);
    }
    if funds.len() > 1 {
        return Result::Err(ContractError::MultipleDenoms);
    }
    let coin = &funds[0];
    let expected = stake_denom_string();
    if !(coin.denom == expected) {
        return Result::Err(ContractError::WrongDenom);
    }
    if coin.amount < MINIMUM_DEPOSIT {
        return Result::Err(
            ContractError::InsufficientDeposit { received: coin.amount, minimum: MINIMUM_DEPOSIT },
        );
    }
    Result::Ok(coin.clone())
}

/// How one admission call relates the store before (`pre`) and after
/// (`post`) and its result, for the given arguments.
pub open spec fn register_rel(
    pre: Store,
    post: Store,
    r: Result<NodeIndex, ContractError>,
    h: BlockHeight,
    sender: Seq<char>,
    key: Seq<char>,
    bte: Seq<char>,
    sig: Seq<char>,
    funds: Seq<CoinV>,
    validators: Seq<Addr>,
) -> bool {
    let bl = tbl_opt_value(pre.blacklisted_dealers@, sender);
    let elig = eligibility_verdict(
        bl,
        tbl_contains_key(pre.current_dealers@, sender),
        is_validator(validators, sender),
        h,
    );
    let purged = tbl_remove_key(pre.blacklisted_dealers@, sender);
    let poss = possession_verdict(sender, sig, key);
    let dep = deposit_verdict(funds);
    if let Option::Some(e) = elig {
        &&& r == Result::<NodeIndex, ContractError>::Err(e)
        &&& if active_blacklisting(bl, h) is Some {
            post == pre
        } else {
            unchanged_but_blacklist(pre, post) && post.blacklisted_dealers@ == purged
        }
    } else if let Option::Some(e) = poss {
        &&& r == Result::<NodeIndex, ContractError>::Err(e)
        &&& unchanged_but_blacklist(pre, post)
        &&& post.blacklisted_dealers@ == purged.push(
            (
                sender,
                Blacklisting {
                    reason: BlacklistingReason::Ed25519PossessionVerificationFailure,
                    height: h,
                    expiration: Option::Some((h + INVALID_ED25519_BLACKLISTING_EXPIRATION) as u64),
                },
            ),
        )
    } else if let Option::Some(e) = dep {
        &&& r == Result::<NodeIndex, ContractError>::Err(e)
        &&& unchanged_but_blacklist(pre, post)
        &&& post.blacklisted_dealers@ == purged
    } else {
        let had_past = tbl_contains_key(pre.past_dealers@, sender);
        let idx = if had_past {
            tbl_value_of(pre.past_dealers@, sender).assigned_index
        } else {
            pre.node_index_counter
        };
        &&& r == Result::<NodeIndex, ContractError>::Ok(idx)
        &&& post.blacklisted_dealers@ == purged
        &&& post.past_dealers@ == if had_past {
            tbl_remove_key(pre.past_dealers@, sender)
        } else {
            pre.past_dealers@
        }
        &&& post.node_index_counter == if had_past {
            pre.node_index_counter
        } else {
            (pre.node_index_counter + 1) as u64
        }
        &&& post.current_dealers@ == pre.current_dealers@.push(
            (
                sender,
                DealerDetailsV {
                    address: sender,
                    joined_at: h,
                    left_at: Option::None,
                    blacklisting: Option::None,
                    ed25519_public_key: key,
                    bte_public_key_with_proof: bte,
                    assigned_index: idx,
                },
            ),
        )
        &&& post.current_epoch == pre.current_epoch
        &&& post.dealing_commitments@ == pre.dealing_commitments@
    }
}

/// The composite admission operation: eligibility, key possession (with the
/// deliberate blacklist-then-fail side effect), deposit validation,
/// node-index assignment and persistence of the dealer record.
pub fn try_add_dealer(
    store: &mut Store,
    current_height: BlockHeight,
    sender: &Addr,
    ed25519_key: String,
    bte_key_with_proof: String,
    owner_signature: String,
    funds: &Vec<Coin>,
    validators: &Vec<Addr>,
) -> (r: Result<NodeIndex, ContractError>)
    requires
        old(store).wf(),
        current_height + INVALID_ED25519_BLACKLISTING_EXPIRATION <= u64::MAX,
        old(store).node_index_counter < u64::MAX,
    ensures
        final(store).wf(),
        register_rel(
            *old(store),
            *final(store),
            r,
            current_height,
            sender@,
            ed25519_key@,
            bte_key_with_proof@,
            owner_signature@,
            views_of(funds@),
            validators@,
        ),
{
    match verify_dealer(store, current_height, sender, validators) {
        Result::Err(e) => {
            return Result::Err(e);
        },
        Result::Ok(()) => {},
    }
    match validate_key_possession_signature(
        sender,
        owner_signature.as_str(),
        ed25519_key.as_str(),
    ) {
        Result::Err(e) => {
            let blacklisting = Blacklisting {
                reason: BlacklistingReason::Ed25519PossessionVerificationFailure,
                height: current_height,
                expiration: Option::Some(current_height + INVALID_ED25519_BLACKLISTING_EXPIRATION),
            };
            proof {
                lemma_tbl_remove(old(store).blacklisted_dealers@, sender@);
            }
            store.blacklisted_dealers.insert(sender.clone(), blacklisting);
            return Result::Err(e);
        },
        Result::Ok(()) => {},
    }
    match validate_dealer_deposit(funds) {
        Result::Err(e) => {
            return Result::Err(e);
        },
        Result::Ok(_deposit) => {},
    }
    let node_index: NodeIndex = match store.past_dealers.get(sender) {
        Option::Some(prior_details) => {
            let idx = prior_details.assigned_index;
            store.past_dealers.remove(sender);
            idx
        },
        Option::None => {
            let idx = store.node_index_counter;
            store.node_index_counter = idx + 1;
            idx
        },
    };
    let dealer_details = DealerDetails {
        address: sender.clone(),
        joined_at: current_height,
        left_at: Option::None,
        blacklisting: Option::None,
        ed25519_public_key: ed25519_key,
        bte_public_key_with_proof: bte_key_with_proof,
        assigned_index: node_index,
    };
    store.current_dealers.insert(sender.clone(), dealer_details);
    Result::Ok(node_index)
}

/// A dealer admitted, departed and re-admitted receives the same node index:
/// whenever an admission of a candidate with a past record succeeds, the
/// returned index is the one recorded there, and the counter does not move.
pub proof fn law_readmission_reuses_index(
    pre: Store,
    post: Store,
    r: Result<NodeIndex, ContractError>,
    h: BlockHeight,
    sender: Seq<char>,
    key: Seq<char>,
    bte: Seq<char>,
    sig: Seq<char>,
    funds: Seq<CoinV>,
    validators: Seq<Addr>,
)
    requires
        register_rel(pre, post, r, h, sender, key, bte, sig, funds, validators),
        tbl_contains_key(pre.past_dealers@, sender),
    ensures
        r is Ok ==> r == Result::<NodeIndex, ContractError>::Ok(
            tbl_value_of(pre.past_dealers@, sender).assigned_index,
        ),
        r is Ok ==> post.node_index_counter == pre.node_index_counter,
{
}

/// An admission with an empty deposit fails with the no-deposit error and
/// persists neither dealer details nor a blacklisting for the candidate.
pub proof fn law_empty_deposit_changes_nothing(
    pre: Store,
    post: Store,
    r: Result<NodeIndex, ContractError>,
    h: BlockHeight,
    sender: Seq<char>,
    key: Seq<char>,
    bte: Seq<char>,
    sig: Seq<char>,
    funds: Seq<CoinV>,
    validators: Seq<Addr>,
)
    requires
        register_rel(pre, post, r, h, sender, key, bte, sig, funds, validators),
        funds.len() == 0,
    ensures
        ({
            let elig = eligibility_verdict(
                tbl_opt_value(pre.blacklisted_dealers@, sender),
                tbl_contains_key(pre.current_dealers@, sender),
                is_validator(validators, sender),
                h,
            );
            let poss = possession_verdict(sender, sig, key);
            elig is None && poss is None ==> {
                &&& r == Result::<NodeIndex, ContractError>::Err(ContractError::NoDepositFound)
                &&& post.current_dealers@ == pre.current_dealers@
                &&& post.blacklisted_dealers@ == tbl_remove_key(pre.blacklisted_dealers@, sender)
                &&& (!tbl_contains_key(pre.blacklisted_dealers@, sender)
                    ==> post.blacklisted_dealers@ == pre.blacklisted_dealers@)
            }
        }),
{
}

/// A failing key-possession check persists a blacklisting with the
/// documented reason, the current height and the fixed expiration window,
/// even though the call itself still fails with the verification error.
pub proof fn law_possession_failure_blacklists(
    pre: Store,
    post: Store,
    r: Result<NodeIndex, ContractError>,
    h: BlockHeight,
    sender: Seq<char>,
    key: Seq<char>,
    bte: Seq<char>,
    sig: Seq<char>,
    funds: Seq<CoinV>,
    validators: Seq<Addr>,
)
    requires
        pre.wf(),
        register_rel(pre, post, r, h, sender, key, bte, sig, funds, validators),
        h + INVALID_ED25519_BLACKLISTING_EXPIRATION <= u64::MAX,
    ensures
        ({
            let elig = eligibility_verdict(
                tbl_opt_value(pre.blacklisted_dealers@, sender),
                tbl_contains_key(pre.current_dealers@, sender),
                is_validator(validators, sender),
                h,
            );
            let poss = possession_verdict(sender, sig, key);
            elig is None && poss is Some ==> {
                &&& r == Result::<NodeIndex, ContractError>::Err(poss->Some_0)
                &&& tbl_contains_key(post.blacklisted_dealers@, sender)
                &&& tbl_value_of(post.blacklisted_dealers@, sender) == Blacklisting {
                    reason: BlacklistingReason::Ed25519PossessionVerificationFailure,
                    height: h,
                    expiration: Option::Some((h + INVALID_ED25519_BLACKLISTING_EXPIRATION) as u64),
                }
                &&& post.current_dealers@ == pre.current_dealers@
            }
        }),
{
    let purged = tbl_remove_key(pre.blacklisted_dealers@, sender);
    let elig = eligibility_verdict(
        tbl_opt_value(pre.blacklisted_dealers@, sender),
        tbl_contains_key(pre.current_dealers@, sender),
        is_validator(validators, sender),
        h,
    );
    let poss = possession_verdict(sender, sig, key);
    if elig is None && poss is Some {
        lemma_tbl_remove(pre.blacklisted_dealers@, sender);
        let entry = Blacklisting {
            reason: BlacklistingReason::Ed25519PossessionVerificationFailure,
            height: h,
            expiration: Option::Some((h + INVALID_ED25519_BLACKLISTING_EXPIRATION) as u64),
        };
        crate::table::lemma_tbl_push(purged, sender, entry);
    }
}

/// A single coin of the right denomination but below the minimum fails with
/// the insufficient-deposit error carrying both amounts; a sufficient one
/// (all other checks passing) is admitted and assigned an index.
pub proof fn law_deposit_threshold(
    pre: Store,
    post: Store,
    r: Result<NodeIndex, ContractError>,
    h: BlockHeight,
    sender: Seq<char>,
    key: Seq<char>,
    bte: Seq<char>,
    sig: Seq<char>,
    funds: Seq<CoinV>,
    validators: Seq<Addr>,
)
    requires
        register_rel(pre, post, r, h, sender, key, bte, sig, funds, validators),
        funds.len() == 1,
        funds[0].denom == stake_denom(),
    ensures
        ({
            let elig = eligibility_verdict(
                tbl_opt_value(pre.blacklisted_dealers@, sender),
                tbl_contains_key(pre.current_dealers@, sender),
                is_validator(validators, sender),
                h,
            );
            let poss = possession_verdict(sender, sig, key);
            elig is None && poss is None ==> {
                &&& funds[0].amount < MINIMUM_DEPOSIT ==> r == Result::<
                    NodeIndex,
                    ContractError,
                >::Err(
                    ContractError::InsufficientDeposit {
                        received: funds[0].amount,
                        minimum: MINIMUM_DEPOSIT,
                    },
                )
                &&& funds[0].amount >= MINIMUM_DEPOSIT ==> r is Ok && tbl_contains_key(
                    post.current_dealers@,
                    sender,
                ) && tbl_value_of(post.current_dealers@, sender).assigned_index == r->Ok_0
            }
        }),
{
    let elig = eligibility_verdict(
        tbl_opt_value(pre.blacklisted_dealers@, sender),
        tbl_contains_key(pre.current_dealers@, sender),
        is_validator(validators, sender),
        h,
    );
    let poss = possession_verdict(sender, sig, key);
    if elig is None && poss is None && funds[0].amount >= MINIMUM_DEPOSIT {
        // the appended dealer entry is the one lookup finds: admission only
        // appends for a key the current-dealer set did not hold
        let s2 = post.current_dealers@;
        let n = pre.current_dealers@.len() as int;
        assert(s2[n].0 == sender);
        assert(tbl_contains_key(s2, sender));
        let i = crate::table::tbl_index_of(s2, sender);
        assert(0 <= i < s2.len() && s2[i].0 == sender);
        if i < n {
            assert(pre.current_dealers@[i].0 == sender);
            assert(tbl_contains_key(pre.current_dealers@, sender));
        }
        assert(tbl_value_of(s2, sender) == s2[n].1);
    }
}

/// The first admission of a fresh candidate after the counter was reset to
/// zero is assigned index zero, and the counter moves to one.
pub proof fn law_first_admission_after_reset(
    pre: Store,
    post: Store,
    r: Result<NodeIndex, ContractError>,
    h: BlockHeight,
    sender: Seq<char>,
    key: Seq<char>,
    bte: Seq<char>,
    sig: Seq<char>,
    funds: Seq<CoinV>,
    validators: Seq<Addr>,
)
    requires
        register_rel(pre, post, r, h, sender, key, bte, sig, funds, validators),
        pre.node_index_counter == 0,
        !tbl_contains_key(pre.past_dealers@, sender),
    ensures
        r is Ok ==> r == Result::<NodeIndex, ContractError>::Ok(0) && post.node_index_counter
            == 1,
{
}

} // verus!
