//! The dealing-commitment registry: one opaque commitment per
//! `(epoch, dealer)` key, immutable once stored.

use crate::addr::Addr;
use crate::error::ContractError;
use crate::store::{dl_contains, Store};
use crate::types::EpochId;
use vstd::prelude::*;

verus! {

/// How one commit call relates the store before and after and its result.
pub open spec fn commit_rel(
    pre: Store,
    post: Store,
    r: Result<(), ContractError>,
    sender: Seq<char>,
    epoch_id: EpochId,
    commitment: Seq<u8>,
) -> bool {
    match pre.current_epoch {
        Option::None => r == Result::<(), ContractError>::Err(ContractError::EpochNotInitialised)
            && post == pre,
        Option::Some(epoch) => if epoch_id != epoch.id {
            &&& r == Result::<(), ContractError>::Err(
                ContractError::MismatchedEpoch { current: epoch.id, request_for: epoch_id },
            )
            &&& post == pre
        } else if dl_contains(pre.dealing_commitments@, epoch_id, sender) {
            &&& r == Result::<(), ContractError>::Err(ContractError::AlreadyCommitted)
            &&& post == pre
        } else {
            &&& r == Result::<(), ContractError>::Ok(())
            &&& post.dealing_commitments@ == pre.dealing_commitments@.push(
                (epoch_id, sender, commitment),
            )
            &&& post.current_epoch == pre.current_epoch
            &&& post.current_dealers@ == pre.current_dealers@
            &&& post.past_dealers@ == pre.past_dealers@
            &&& post.blacklisted_dealers@ == pre.blacklisted_dealers@
            &&& post.node_index_counter == pre.node_index_counter
        },
    }
}

/// Stores the sender's dealing commitment for the current epoch: fails when
/// no epoch exists, when the request names another epoch, or when the sender
/// already committed for this epoch.
pub fn try_commit_dealing(
    store: &mut Store,
    sender: &Addr,
    epoch_id: EpochId,
    commitment: Vec<u8>,
) -> (r: Result<(), ContractError>)
    requires
        old(store).wf(),
    ensures
        final(store).wf(),
        commit_rel(*old(store), *final(store), r, sender@, epoch_id, commitment@),
{
    let epoch = match &store.current_epoch {
        Option::Some(e) => *e,
        Option::None => {
            return Result::Err(ContractError::EpochNotInitialised);
        },
    };
    if epoch_id != epoch.id {
        return Result::Err(
            ContractError::MismatchedEpoch { current: epoch.id, request_for: epoch_id },
        );
    }
    if store.dealing_commitments.contains(epoch_id, sender) {
        return Result::Err(ContractError::AlreadyCommitted);
    }
    store.dealing_commitments.insert(epoch_id, sender.clone(), commitment);
    Result::Ok(())
}

} // verus!
