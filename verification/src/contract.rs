//! The ledger-facing entry points: ceremony initialization, the message
//! dispatcher, the queries, the debug phase advance and the full reset.

use crate::addr::Addr;
use crate::dealers::{
    register_rel, try_add_dealer, INVALID_ED25519_BLACKLISTING_EXPIRATION, MINIMUM_DEPOSIT,
};
use crate::dealings::{commit_rel, try_commit_dealing};
use crate::error::ContractError;
use crate::store::Store;
use crate::table::{tbl_contains_key, tbl_index_of, tbl_opt_value, tbl_value_of, Table};
use crate::types::{
    views_of, Blacklisting, BlockHeight, Coin, DealerDetails, Epoch, EpochId, EpochState,
    NodeIndex,
};
use vstd::prelude::*;

verus! {

/// How many blocks a phase entered through the debug advance lasts.
pub const STATE_LENGTH: u64 = 1000;

/// How many entries a paged query returns when no limit is given.
pub const DEFAULT_PAGE_LIMIT: u32 = 100;

/// The largest page a paged query returns.
pub const MAX_PAGE_LIMIT: u32 = 100;

/// The ceremony initialization message.
#[derive(Debug)]
pub struct InstantiateMsg {
    pub public_key_submission_end_height: BlockHeight,
    pub system_threshold: Option<u64>,
}

/// A transaction against the ledger.
#[derive(Debug)]
pub enum ExecuteMsg {
    RegisterDealer {
        ed25519_key: String,
        bte_key_with_proof: String,
        owner_signature: String,
        host: String,
    },
    CommitDealing { epoch_id: EpochId, commitment: Vec<u8> },
    DebugUnsafeResetAll { init_msg: InstantiateMsg },
    DebugAdvanceEpochState,
}

/// A read against the ledger.
#[derive(Debug)]
pub enum QueryMsg {
    GetCurrentEpoch,
    GetDealerDetails { dealer_address: Addr },
    GetCurrentDealers { start_after: Option<Addr>, limit: Option<u32> },
    GetPastDealers { start_after: Option<Addr>, limit: Option<u32> },
    GetBlacklistedDealers { start_after: Option<Addr>, limit: Option<u32> },
    GetBlacklisting { dealer: Addr },
    GetDepositAmount,
    GetEpochDealingsCommitments { epoch: EpochId, start_after: Option<Addr>, limit: Option<u32> },
}

/// The answer to a [`QueryMsg`].
#[derive(Debug)]
pub enum QueryResponse {
    CurrentEpoch { epoch: Epoch },
    DealerDetails { details: Option<DealerDetails> },
    CurrentDealers { dealers: Vec<DealerDetails> },
    PastDealers { dealers: Vec<DealerDetails> },
    BlacklistedDealers { blacklistings: Vec<(Addr, Blacklisting)> },
    Blacklisting { blacklisting: Option<Blacklisting> },
    DepositAmount { amount: Coin },
    EpochDealingsCommitments { commitments: Vec<(Addr, Vec<u8>)> },
}

/// The sender of a transaction and the funds attached to it.
#[derive(Debug)]
pub struct MessageInfo {
    pub sender: Addr,
    pub funds: Vec<Coin>,
}

/// What a successful transaction hands back.
#[derive(Debug)]
pub struct Response {
    pub data: Option<Vec<u8>>,
}

/// The big-endian bytes of `x`.
pub open spec fn u64_be(x: u64) -> Seq<u8> {
    seq![
        ((x / 0x100000000000000) % 0x100) as u8,
        ((x / 0x1000000000000) % 0x100) as u8,
        ((x / 0x10000000000) % 0x100) as u8,
        ((x / 0x100000000) % 0x100) as u8,
        ((x / 0x1000000) % 0x100) as u8,
        ((x / 0x10000) % 0x100) as u8,
        ((x / 0x100) % 0x100) as u8,
        (x % 0x100) as u8,
    ]
}

pub fn u64_be_bytes(x: u64) -> (r: Vec<u8>)
    ensures
        r@ == u64_be(x),
{
    let mut v: Vec<u8> = Vec::new();
    v.push(((x / 0x100000000000000) % 0x100) as u8);
    v.push(((x / 0x1000000000000) % 0x100) as u8);
    v.push(((x / 0x10000000000) % 0x100) as u8);
    v.push(((x / 0x100000000) % 0x100) as u8);
    v.push(((x / 0x1000000) % 0x100) as u8);
    v.push(((x / 0x10000) % 0x100) as u8);
    v.push(((x / 0x100) % 0x100) as u8);
    v.push((x % 0x100) as u8);
    proof {
        assert(v@ =~= u64_be(x));
    }
    v
}

/// The system threshold used when none is given explicitly: the integer
/// ceiling of two thirds of the validator count.
pub open spec fn default_threshold(validators: u64) -> u64 {
    ((2 * (validators as int) + 2) / 3) as u64
}

/// The default threshold really is the ceiling of `2 * validators / 3`: it is
/// the least `t` with `3 * t >= 2 * validators`.
pub proof fn law_default_threshold_is_ceiling(validators: u64)
    ensures
        3 * default_threshold(validators) >= 2 * validators,
        default_threshold(validators) > 0 ==> 3 * (default_threshold(validators) - 1) < 2
            * validators,
{
    let x: int = 2 * (validators as int) + 2;
    vstd::arithmetic::div_mod::lemma_fundamental_div_mod(x, 3);
    vstd::arithmetic::div_mod::lemma_mod_bound(x, 3);
    assert(3 * (x / 3) == x - x % 3);
    assert(0 <= x / 3 < 0x10000000000000000);
}

fn compute_default_threshold(validators: u64) -> (t: u64)
    ensures
        t == default_threshold(validators),
{
    proof {
        law_default_threshold_is_ceiling(validators);
    }
    let wide: u128 = (2 * (validators as u128) + 2) / 3;
    wide as u64
}

/// Initializes the ceremony: rejects a submission deadline already in the
/// past, computes the system threshold (the explicit one, or the two-thirds
/// ceiling of the validator count), and installs epoch zero in the
/// public-key-submission phase. Nothing else in the store is touched.
pub fn instantiate(
    store: &mut Store,
    current_height: BlockHeight,
    msg: &InstantiateMsg,
    validator_count: u64,
) -> (r: Result<Response, ContractError>)
    requires
        old(store).wf(),
    ensures
        final(store).wf(),
        msg.public_key_submission_end_height < current_height ==> r == Result::<
            Response,
            ContractError,
        >::Err(ContractError::EpochStateFinishInPast) && *final(store) == *old(store),
        msg.public_key_submission_end_height >= current_height ==> r is Ok && *final(store) == (
        Store {
            current_epoch: Option::Some(
                Epoch {
                    id: 0,
                    state: EpochState::PublicKeySubmission {
                        begun_at: current_height,
                        finish_by: msg.public_key_submission_end_height,
                    },
                    system_threshold: match msg.system_threshold {
                        Option::Some(t) => t,
                        Option::None => default_threshold(validator_count),
                    },
                },
            ),
            ..*old(store)
        }),
{
    if msg.public_key_submission_end_height < current_height {
        return Result::Err(ContractError::EpochStateFinishInPast);
    }
    let system_threshold = match msg.system_threshold {
        Option::Some(t) => t,
        Option::None => compute_default_threshold(validator_count),
    };
    store.current_epoch = Option::Some(
        Epoch {
            id: 0,
            state: EpochState::PublicKeySubmission {
                begun_at: current_height,
                finish_by: msg.public_key_submission_end_height,
            },
            system_threshold,
        },
    );
    Result::Ok(Response { data: Option::None })
}

/// Moves the epoch to the next phase in the fixed cycle, bounded by the
/// current height and the fixed debug phase length.
pub fn advance_epoch_state(store: &mut Store, current_height: BlockHeight) -> (r: Result<
    Response,
    ContractError,
>)
    requires
        old(store).wf(),
        current_height + STATE_LENGTH <= u64::MAX,
        old(store).current_epoch matches Option::Some(e) ==> e.id < u64::MAX,
    ensures
        final(store).wf(),
        old(store).current_epoch is None ==> r == Result::<Response, ContractError>::Err(
            ContractError::EpochNotInitialised,
        ) && *final(store) == *old(store),
        old(store).current_epoch matches Option::Some(e) ==> r is Ok && final(store).current_epoch
            == e.spec_next_state(
            Option::Some(current_height),
            Option::Some((current_height + STATE_LENGTH) as u64),
        ) && final(store).current_epoch is Some && unchanged_but_epoch(*old(store), *final(store)),
{
    let epoch = match &store.current_epoch {
        Option::Some(e) => *e,
        Option::None => {
            return Result::Err(ContractError::EpochNotInitialised);
        },
    };
    let next = epoch.next_state(
        Option::Some(current_height),
        Option::Some(current_height + STATE_LENGTH),
    );
    store.current_epoch = next;
    Result::Ok(Response { data: Option::None })
}

/// Everything of `post` but the epoch record equals `pre`.
pub open spec fn unchanged_but_epoch(pre: Store, post: Store) -> bool {
    &&& post.current_dealers@ == pre.current_dealers@
    &&& post.past_dealers@ == pre.past_dealers@
    &&& post.blacklisted_dealers@ == pre.blacklisted_dealers@
    &&& post.dealing_commitments@ == pre.dealing_commitments@
    &&& post.node_index_counter == pre.node_index_counter
}

/// Re-runs ceremony initialization, then removes every dealer, blacklisting
/// and commitment and resets the node-index counter to zero. When the
/// initialization is rejected, nothing is changed at all.
pub fn reset_contract_state(
    store: &mut Store,
    current_height: BlockHeight,
    init_msg: &InstantiateMsg,
    validator_count: u64,
) -> (r: Result<Response, ContractError>)
    requires
        old(store).wf(),
    ensures
        final(store).wf(),
        init_msg.public_key_submission_end_height < current_height ==> r == Result::<
            Response,
            ContractError,
        >::Err(ContractError::EpochStateFinishInPast) && *final(store) == *old(store),
        init_msg.public_key_submission_end_height >= current_height ==> r is Ok && {
            &&& final(store).current_epoch == Option::Some(
                Epoch {
                    id: 0,
                    state: EpochState::PublicKeySubmission {
                        begun_at: current_height,
                        finish_by: init_msg.public_key_submission_end_height,
                    },
                    system_threshold: match init_msg.system_threshold {
                        Option::Some(t) => t,
                        Option::None => default_threshold(validator_count),
                    },
                },
            )
            &&& final(store).current_dealers@.len() == 0
            &&& final(store).past_dealers@.len() == 0
            &&& final(store).blacklisted_dealers@.len() == 0
            &&& final(store).dealing_commitments@.len() == 0
            &&& final(store).node_index_counter == 0
        },
{
    match instantiate(store, current_height, init_msg, validator_count) {
        Result::Err(e) => {
            return Result::Err(e);
        },
        Result::Ok(_) => {},
    }
    store.current_dealers.clear();
    store.past_dealers.clear();
    store.blacklisted_dealers.clear();
    store.dealing_commitments.clear();
    store.node_index_counter = 0;
    Result::Ok(Response { data: Option::None })
}

/// Handles an incoming transaction by dispatching on the message.
pub fn execute(
    store: &mut Store,
    current_height: BlockHeight,
    info: &MessageInfo,
    msg: ExecuteMsg,
    validators: &Vec<Addr>,
) -> (r: Result<Response, ContractError>)
    requires
        old(store).wf(),
        msg matches ExecuteMsg::RegisterDealer { .. } ==> current_height
            + INVALID_ED25519_BLACKLISTING_EXPIRATION <= u64::MAX
            && old(store).node_index_counter < u64::MAX,
        msg matches ExecuteMsg::DebugAdvanceEpochState ==> current_height + STATE_LENGTH
            <= u64::MAX && (old(store).current_epoch matches Option::Some(e) ==> e.id < u64::MAX),
    ensures
        final(store).wf(),
        match msg {
            ExecuteMsg::RegisterDealer { ed25519_key, bte_key_with_proof, owner_signature, host } => {
                &&& (r matches Err(e) ==> register_rel(
                    *old(store),
                    *final(store),
                    Result::Err(e),
                    current_height,
                    info.sender@,
                    ed25519_key@,
                    bte_key_with_proof@,
                    owner_signature@,
                    views_of(info.funds@),
                    validators@,
                ))
                &&& (r matches Ok(resp) ==> exists|idx: NodeIndex|
                    {
                        &&& #[trigger] register_rel(
                            *old(store),
                            *final(store),
                            Result::Ok(idx),
                            current_height,
                            info.sender@,
                            ed25519_key@,
                            bte_key_with_proof@,
                            owner_signature@,
                            views_of(info.funds@),
                            validators@,
                        )
                        &&& (resp.data matches Option::Some(bytes) && bytes@ == u64_be(idx))
                    })
            },
            ExecuteMsg::CommitDealing { epoch_id, commitment } => {
                &&& (r matches Err(e) ==> commit_rel(
                    *old(store),
                    *final(store),
                    Result::Err(e),
                    info.sender@,
                    epoch_id,
                    commitment@,
                ))
                &&& (r matches Ok(resp) ==> commit_rel(
                    *old(store),
                    *final(store),
                    Result::Ok(()),
                    info.sender@,
                    epoch_id,
                    commitment@,
                ) && resp.data is None)
            },
            ExecuteMsg::DebugUnsafeResetAll { init_msg } => {
                &&& (init_msg.public_key_submission_end_height < current_height ==> (r matches Err(
                    e,
                ) && e == ContractError::EpochStateFinishInPast && *final(store) == *old(store)))
                &&& (init_msg.public_key_submission_end_height >= current_height ==> r is Ok && {
                    &&& final(store).current_epoch == Option::Some(
                        Epoch {
                            id: 0,
                            state: EpochState::PublicKeySubmission {
                                begun_at: current_height,
                                finish_by: init_msg.public_key_submission_end_height,
                            },
                            system_threshold: match init_msg.system_threshold {
                                Option::Some(t) => t,
                                Option::None => default_threshold(validators@.len() as u64),
                            },
                        },
                    )
                    &&& final(store).current_dealers@.len() == 0
                    &&& final(store).past_dealers@.len() == 0
                    &&& final(store).blacklisted_dealers@.len() == 0
                    &&& final(store).dealing_commitments@.len() == 0
                    &&& final(store).node_index_counter == 0
                })
            },
            ExecuteMsg::DebugAdvanceEpochState => {
                &&& (old(store).current_epoch is None ==> (r matches Err(e) && e
                    == ContractError::EpochNotInitialised && *final(store) == *old(store)))
                &&& (old(store).current_epoch matches Option::Some(e) ==> r is Ok
                    && final(store).current_epoch == e.spec_next_state(
                    Option::Some(current_height),
                    Option::Some((current_height + STATE_LENGTH) as u64),
                ) && unchanged_but_epoch(*old(store), *final(store)))
            },
        },
{
    match msg {
        ExecuteMsg::RegisterDealer { ed25519_key, bte_key_with_proof, owner_signature, host: _host } => {
            match try_add_dealer(
                store,
                current_height,
                &info.sender,
                ed25519_key,
                bte_key_with_proof,
                owner_signature,
                &info.funds,
                validators,
            ) {
                Result::Ok(node_index) => Result::Ok(
                    Response { data: Option::Some(u64_be_bytes(node_index)) },
                ),
                Result::Err(e) => Result::Err(e),
            }
        },
        ExecuteMsg::CommitDealing { epoch_id, commitment } => {
            match try_commit_dealing(store, &info.sender, epoch_id, commitment) {
                Result::Ok(()) => Result::Ok(Response { data: Option::None }),
                Result::Err(e) => Result::Err(e),
            }
        },
        ExecuteMsg::DebugUnsafeResetAll { init_msg } => {
            let n = validators.len();
            reset_contract_state(store, current_height, &init_msg, n as u64)
        },
        ExecuteMsg::DebugAdvanceEpochState => advance_epoch_state(store, current_height),
    }
}

/// The view of an optional page-start key.
pub open spec fn opt_addr_view(o: Option<Addr>) -> Option<Seq<char>> {
    match o {
        Option::Some(a) => Option::Some(a@),
        Option::None => Option::None,
    }
}

/// Where a page begins: at the entry after `start_after` when that key is
/// present, at the beginning when no key is given, and past the end (an
/// empty page) when the key is absent.
pub open spec fn page_start<T>(s: Seq<(Seq<char>, T)>, start_after: Option<Seq<char>>) -> int {
    match start_after {
        Option::None => 0,
        Option::Some(k) => if tbl_contains_key(s, k) {
            tbl_index_of(s, k) + 1
        } else {
            s.len() as int
        },
    }
}

/// The page size a request gets: the given limit capped at the maximum, or
/// the default when none is given.
pub open spec fn effective_limit(limit: Option<u32>) -> int {
    match limit {
        Option::Some(l) => if l <= MAX_PAGE_LIMIT {
            l as int
        } else {
            MAX_PAGE_LIMIT as int
        },
        Option::None => DEFAULT_PAGE_LIMIT as int,
    }
}

/// Where a page ends: `limit` entries past `from`, or the end of the table.
pub open spec fn page_end(len: int, from: int, limit: int) -> int {
    if len - from > limit {
        from + limit
    } else {
        len
    }
}

fn effective_limit_exec(limit: &Option<u32>) -> (l: usize)
    ensures
        l == effective_limit(*limit),
{
    match limit {
        Option::Some(l) => if *l > MAX_PAGE_LIMIT {
            MAX_PAGE_LIMIT as usize
        } else {
            *l as usize
        },
        Option::None => DEFAULT_PAGE_LIMIT as usize,
    }
}

fn page_start_dealers(t: &Table<DealerDetails>, start_after: &Option<Addr>) -> (from: usize)
    requires
        t.wf(),
    ensures
        from == page_start(t@, opt_addr_view(*start_after)),
        from <= t@.len(),
{
    let n = t.len();
    match start_after {
        Option::None => 0,
        Option::Some(k) => match t.position_of(k) {
            Option::Some(i) => i + 1,
            Option::None => n,
        },
    }
}

fn page_dealers(t: &Table<DealerDetails>, start_after: &Option<Addr>, limit: &Option<u32>) -> (r:
    Vec<DealerDetails>)
    requires
        t.wf(),
    ensures
        ({
            let from = page_start(t@, opt_addr_view(*start_after));
            let end = page_end(t@.len() as int, from, effective_limit(*limit));
            &&& r@.len() == end - from
            &&& forall|j: int| 0 <= j < r@.len() ==> r@[j]@ == t@[from + j].1
        }),
{
    let from = page_start_dealers(t, start_after);
    let lim = effective_limit_exec(limit);
    let end: usize = if t.len() - from > lim {
        from + lim
    } else {
        t.len()
    };
    let mut out: Vec<DealerDetails> = Vec::new();
    let mut i: usize = from;
    while i < end
        invariant
            from <= i <= end <= t@.len(),
            out@.len() == i - from,
            forall|j: int| 0 <= j < out@.len() ==> out@[j]@ == t@[from + j].1,
        decreases end - i,
    {
        out.push(t.entry_at(i).1.clone());
        i += 1;
    }
    out
}

fn page_blacklistings(
    t: &Table<Blacklisting>,
    start_after: &Option<Addr>,
    limit: &Option<u32>,
) -> (r: Vec<(Addr, Blacklisting)>)
    requires
        t.wf(),
    ensures
        ({
            let from = page_start(t@, opt_addr_view(*start_after));
            let end = page_end(t@.len() as int, from, effective_limit(*limit));
            &&& r@.len() == end - from
            &&& forall|j: int|
                0 <= j < r@.len() ==> r@[j].0@ == t@[from + j].0 && r@[j].1 == t@[from + j].1
        }),
{
    let n = t.len();
    let from: usize = match start_after {
        Option::None => 0,
        Option::Some(k) => match t.position_of(k) {
            Option::Some(i) => i + 1,
            Option::None => n,
        },
    };
    let lim = effective_limit_exec(limit);
    let end: usize = if t.len() - from > lim {
        from + lim
    } else {
        t.len()
    };
    let mut out: Vec<(Addr, Blacklisting)> = Vec::new();
    let mut i: usize = from;
    while i < end
        invariant
            from <= i <= end <= t@.len(),
            out@.len() == i - from,
            forall|j: int|
                0 <= j < out@.len() ==> out@[j].0@ == t@[from + j].0 && out@[j].1 == t@[from
                    + j].1,
        decreases end - i,
    {
        let e = t.entry_at(i);
        out.push((e.0.clone(), e.1));
        i += 1;
    }
    out
}

fn page_commitments(t: &Table<Vec<u8>>, start_after: &Option<Addr>, limit: &Option<u32>) -> (r: Vec<
    (Addr, Vec<u8>),
>)
    requires
        t.wf(),
    ensures
        ({
            let from = page_start(t@, opt_addr_view(*start_after));
            let end = page_end(t@.len() as int, from, effective_limit(*limit));
            &&& r@.len() == end - from
            &&& forall|j: int|
                0 <= j < r@.len() ==> r@[j].0@ == t@[from + j].0 && r@[j].1@ == t@[from + j].1
        }),
{
    let n = t.len();
    let from: usize = match start_after {
        Option::None => 0,
        Option::Some(k) => match t.position_of(k) {
            Option::Some(i) => i + 1,
            Option::None => n,
        },
    };
    let lim = effective_limit_exec(limit);
    let end: usize = if t.len() - from > lim {
        from + lim
    } else {
        t.len()
    };
    let mut out: Vec<(Addr, Vec<u8>)> = Vec::new();
    let mut i: usize = from;
    while i < end
        invariant
            from <= i <= end <= t@.len(),
            out@.len() == i - from,
            forall|j: int|
                0 <= j < out@.len() ==> out@[j].0@ == t@[from + j].0 && out@[j].1@ == t@[from
                    + j].1,
        decreases end - i,
    {
        let e = t.entry_at(i);
        out.push((e.0.clone(), crate::types::clone_bytes(&e.1)));
        i += 1;
    }
    out
}

/// Answers a read against the ledger. Paged reads walk the table in
/// insertion order, starting after the given key.
pub fn query(store: &Store, msg: QueryMsg) -> (r: Result<QueryResponse, ContractError>)
    requires
        store.wf(),
    ensures
        match msg {
            QueryMsg::GetCurrentEpoch => {
                &&& (store.current_epoch is None ==> r == Result::<
                    QueryResponse,
                    ContractError,
                >::Err(ContractError::EpochNotInitialised))
                &&& (store.current_epoch matches Option::Some(e) ==> r == Result::<
                    QueryResponse,
                    ContractError,
                >::Ok(QueryResponse::CurrentEpoch { epoch: e }))
            },
            QueryMsg::GetDealerDetails { dealer_address } => (r matches Ok(resp) && resp matches
                QueryResponse::DealerDetails { details } && match details {
                Option::Some(d) => tbl_contains_key(store.current_dealers@, dealer_address@) && d@
                    == tbl_value_of(store.current_dealers@, dealer_address@),
                Option::None => !tbl_contains_key(store.current_dealers@, dealer_address@),
            }),
            QueryMsg::GetCurrentDealers { start_after, limit } => (r matches Ok(resp)
                && resp matches QueryResponse::CurrentDealers { dealers } && {
                let s = store.current_dealers@;
                let from = page_start(s, opt_addr_view(start_after));
                let end = page_end(s.len() as int, from, effective_limit(limit));
                &&& dealers@.len() == end - from
                &&& forall|j: int| 0 <= j < dealers@.len() ==> dealers@[j]@ == s[from + j].1
            }),
            QueryMsg::GetPastDealers { start_after, limit } => (r matches Ok(resp) && resp matches
                QueryResponse::PastDealers { dealers } && {
                let s = store.past_dealers@;
                let from = page_start(s, opt_addr_view(start_after));
                let end = page_end(s.len() as int, from, effective_limit(limit));
                &&& dealers@.len() == end - from
                &&& forall|j: int| 0 <= j < dealers@.len() ==> dealers@[j]@ == s[from + j].1
            }),
            QueryMsg::GetBlacklistedDealers { start_after, limit } => (r matches Ok(resp)
                && resp matches QueryResponse::BlacklistedDealers { blacklistings } && {
                let s = store.blacklisted_dealers@;
                let from = page_start(s, opt_addr_view(start_after));
                let end = page_end(s.len() as int, from, effective_limit(limit));
                &&& blacklistings@.len() == end - from
                &&& forall|j: int|
                    0 <= j < blacklistings@.len() ==> blacklistings@[j].0@ == s[from + j].0
                        && blacklistings@[j].1 == s[from + j].1
            }),
            QueryMsg::GetBlacklisting { dealer } => (r matches Ok(resp) && resp matches
                QueryResponse::Blacklisting { blacklisting } && blacklisting == tbl_opt_value(
                store.blacklisted_dealers@,
                dealer@,
            )),
            QueryMsg::GetDepositAmount => (r matches Ok(resp) && resp matches
                QueryResponse::DepositAmount { amount } && amount@.denom
                == crate::dealers::stake_denom() && amount@.amount == MINIMUM_DEPOSIT),
            QueryMsg::GetEpochDealingsCommitments { epoch, start_after, limit } => (r matches Ok(
                resp,
            ) && resp matches QueryResponse::EpochDealingsCommitments { commitments } && {
                let s = crate::store::epoch_entries(store.dealing_commitments@, epoch);
                let from = page_start(s, opt_addr_view(start_after));
                let end = page_end(s.len() as int, from, effective_limit(limit));
                &&& commitments@.len() == end - from
                &&& forall|j: int|
                    0 <= j < commitments@.len() ==> commitments@[j].0@ == s[from + j].0
                        && commitments@[j].1@ == s[from + j].1
            }),
        },
{
    match msg {
        QueryMsg::GetCurrentEpoch => {
            match &store.current_epoch {
                Option::Some(e) => Result::Ok(QueryResponse::CurrentEpoch { epoch: *e }),
                Option::None => Result::Err(ContractError::EpochNotInitialised),
            }
        },
        QueryMsg::GetDealerDetails { dealer_address } => {
            let details = match store.current_dealers.get(&dealer_address) {
                Option::Some(d) => Option::Some(d.clone()),
                Option::None => Option::None,
            };
            Result::Ok(QueryResponse::DealerDetails { details })
        },
        QueryMsg::GetCurrentDealers { start_after, limit } => {
            let dealers = page_dealers(&store.current_dealers, &start_after, &limit);
            Result::Ok(QueryResponse::CurrentDealers { dealers })
        },
        QueryMsg::GetPastDealers { start_after, limit } => {
            let dealers = page_dealers(&store.past_dealers, &start_after, &limit);
            Result::Ok(QueryResponse::PastDealers { dealers })
        },
        QueryMsg::GetBlacklistedDealers { start_after, limit } => {
            let blacklistings = page_blacklistings(
                &store.blacklisted_dealers,
                &start_after,
                &limit,
            );
            Result::Ok(QueryResponse::BlacklistedDealers { blacklistings })
        },
        QueryMsg::GetBlacklisting { dealer } => {
            let blacklisting = match store.blacklisted_dealers.get(&dealer) {
                Option::Some(b) => Option::Some(*b),
                Option::None => Option::None,
            };
            Result::Ok(QueryResponse::Blacklisting { blacklisting })
        },
        QueryMsg::GetDepositAmount => {
            let amount = Coin {
                denom: crate::dealers::stake_denom_string(),
                amount: MINIMUM_DEPOSIT,
            };
            Result::Ok(QueryResponse::DepositAmount { amount })
        },
        QueryMsg::GetEpochDealingsCommitments { epoch, start_after, limit } => {
            let per_epoch = store.dealing_commitments.commitments_for_epoch(epoch);
            let commitments = page_commitments(&per_epoch, &start_after, &limit);
            Result::Ok(QueryResponse::EpochDealingsCommitments { commitments })
        },
    }
}

/// A migration is accepted and changes nothing.
pub fn migrate(store: &mut Store) -> (r: Result<Response, ContractError>)
    ensures
        *final(store) == *old(store),
        r is Ok,
{
    Result::Ok(Response { data: Option::None })
}

} // verus!
