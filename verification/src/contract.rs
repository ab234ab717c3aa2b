use vstd::prelude::*;
use vstd::string::*;

use crate::admin::{
    auction_slot, cancel_post, execute_accept_admin, execute_cancel_auction, execute_force_complete,
    execute_propose_admin, execute_set_paused, execute_update_config, force_complete_post,
    accept_admin_post, or_keep, propose_admin_post, set_paused_post, update_config_post,
    UpdateConfigArgs,
};
use crate::auction::{
    create_auction_post, execute_create_auction, execute_finalize_auction, execute_receive_bid,
    execute_withdraw_bid, finalize_post, finalizes, opens_auction, receive_bid_post, winner_escrow,
    withdraw_bid_post,
};
use crate::collections::{find_bid, find_lock};
use crate::env::{attr, attr_str, decimal, u64_to_string, ContractVersion, Env, MessageInfo, Response};
use crate::error::ContractError;
use crate::msg::{Cw721ReceiveMsg, ExecuteMsg, InstantiateMsg, MigrateMsg, ReceiveNftAction};
use crate::state::{AuctionStatus, Config, State};
pub use crate::queries::{query, query_config};
use crate::swap::{
    claim_swap_post, execute_claim_swap, execute_swap_deposit, execute_withdraw_staged,
    swap_deposit_post, withdraw_staged_post,
};

verus! {

/// Reason given when a configured limit falls outside `1..=max`.
pub open spec fn bound_reason(field: Seq<char>, value: u64, max: u64) -> Seq<char> {
    if value == 0 {
        field + " must be >= 1"@
    } else {
        field + " must be <= "@ + decimal(max as nat)
    }
}

/// Checks that `value` lies in `1..=max`; the error names `field`.
pub fn validate_bounded_positive(field: &str, value: u64, max: u64) -> (r: Result<(), ContractError>)
    ensures
        (1 <= value <= max) <==> r is Ok,
        r matches Err(e) ==> e matches ContractError::InvalidConfig { reason }
            && reason@ == bound_reason(field@, value, max),
{
    if value == 0 {
        let reason = String::from_str(field).concat(" must be >= 1");
        return Err(ContractError::InvalidConfig { reason });
    }
    if value > max {
        let reason = String::from_str(field).concat(" must be <= ");
        let max_str = u64_to_string(max);
        let reason = reason.concat(max_str.as_str());
        return Err(ContractError::InvalidConfig { reason });
    }
    Ok(())
}

} // verus!

verus! {

pub const MAX_BIDDERS_PER_AUCTION_CAP: u64 = 1_000;
pub const MAX_STAGING_SIZE_CAP: u64 = 1_000;
pub const MAX_NFTS_PER_BID_CAP: u64 = 1_000;
pub const MAX_ANTI_SNIPE_WINDOW_CAP: u64 = 86_400;
pub const MAX_ANTI_SNIPE_EXTENSION_CAP: u64 = 86_400;
pub const MAX_EXTENSION_CAP: u64 = 604_800;

/// Whether `r` is an `InvalidConfig` error with the given reason.
pub open spec fn is_invalid_config(r: Result<(), ContractError>, reason: Seq<char>) -> bool {
    r matches Err(ContractError::InvalidConfig { reason: rs }) && rs@ == reason
}

/// The reason anti-snipe settings are refused, if they are.
pub open spec fn anti_snipe_problem(window: u64, extension: u64, max_extension: u64) -> Option<Seq<char>> {
    if !(1 <= window <= MAX_ANTI_SNIPE_WINDOW_CAP) {
        Some(bound_reason("anti_snipe_window"@, window, MAX_ANTI_SNIPE_WINDOW_CAP))
    } else if !(1 <= extension <= MAX_ANTI_SNIPE_EXTENSION_CAP) {
        Some(bound_reason("anti_snipe_extension"@, extension, MAX_ANTI_SNIPE_EXTENSION_CAP))
    } else if !(1 <= max_extension <= MAX_EXTENSION_CAP) {
        Some(bound_reason("max_extension"@, max_extension, MAX_EXTENSION_CAP))
    } else if extension > max_extension {
        Some("anti_snipe_extension must be <= max_extension"@)
    } else {
        None
    }
}

/// Checks the anti-snipe settings: each within its bounds, and an extension
/// no longer than the total extension allowed.
pub fn validate_anti_snipe_config(window: u64, extension: u64, max_extension: u64) -> (r: Result<
    (),
    ContractError,
>)
    ensures
        match anti_snipe_problem(window, extension, max_extension) {
            Some(reason) => is_invalid_config(r, reason),
            None => r is Ok,
        },
{
    validate_bounded_positive("anti_snipe_window", window, MAX_ANTI_SNIPE_WINDOW_CAP)?;
    validate_bounded_positive("anti_snipe_extension", extension, MAX_ANTI_SNIPE_EXTENSION_CAP)?;
    validate_bounded_positive("max_extension", max_extension, MAX_EXTENSION_CAP)?;
    if extension > max_extension {
        return Err(
            ContractError::InvalidConfig {
                reason: String::from_str("anti_snipe_extension must be <= max_extension"),
            },
        );
    }
    Ok(())
}

} // verus!

verus! {

/// Name under which the contract records its version.
pub const CONTRACT_NAME: &'static str = "crates.io:mega-mad-scientist";

/// Version the contract records.
pub const CONTRACT_VERSION: &'static str = "0.1.0";

pub const DEFAULT_LIMIT: u32 = 30;

pub const MAX_LIMIT: u32 = 100;

/// Why the settings of `msg` are refused, if they are (defaults filled in).
pub open spec fn instantiate_config_problem(msg: InstantiateMsg) -> Option<Seq<char>> {
    let d = or_keep(msg.default_min_bid, 1);
    let b = or_keep(msg.max_bidders_per_auction, 100);
    let st = or_keep(msg.max_staging_size, 50);
    let n = or_keep(msg.max_nfts_per_bid, 50);
    if d == 0 {
        Some("default_min_bid must be >= 1"@)
    } else if !(1 <= b <= MAX_BIDDERS_PER_AUCTION_CAP) {
        Some(bound_reason("max_bidders_per_auction"@, b, MAX_BIDDERS_PER_AUCTION_CAP))
    } else if !(1 <= st <= MAX_STAGING_SIZE_CAP) {
        Some(bound_reason("max_staging_size"@, st, MAX_STAGING_SIZE_CAP))
    } else if !(1 <= n <= MAX_NFTS_PER_BID_CAP) {
        Some(bound_reason("max_nfts_per_bid"@, n, MAX_NFTS_PER_BID_CAP))
    } else {
        anti_snipe_problem(
            or_keep(msg.anti_snipe_window, 300),
            or_keep(msg.anti_snipe_extension, 300),
            or_keep(msg.max_extension, 86400),
        )
    }
}

/// The configuration a valid `msg` sets up.
pub open spec fn initial_config(admin: String, mad: String, mega: String, msg: InstantiateMsg) -> Config {
    Config {
        admin,
        pending_admin: None,
        paused: false,
        mad_scientist_collection: mad,
        mega_mad_scientist_collection: mega,
        default_min_bid: or_keep(msg.default_min_bid, 1),
        anti_snipe_window: or_keep(msg.anti_snipe_window, 300),
        anti_snipe_extension: or_keep(msg.anti_snipe_extension, 300),
        max_extension: or_keep(msg.max_extension, 86400),
        max_bidders_per_auction: or_keep(msg.max_bidders_per_auction, 100),
        max_staging_size: or_keep(msg.max_staging_size, 50),
        max_nfts_per_bid: or_keep(msg.max_nfts_per_bid, 50),
    }
}

/// A state holding only configuration `c`: no auctions, bids or tokens.
pub open spec fn is_fresh_state(st: State, c: Config) -> bool {
    &&& st.config == c
    &&& st.next_auction_id == 1
    &&& st.auctions@.len() == 0
    &&& st.bids@.len() == 0
    &&& st.pool@.len() == 0
    &&& st.pool_size == 0
    &&& st.escrowed_bid_tokens@.len() == 0
    &&& st.active_mega_auctions@.len() == 0
    &&& st.swap_staging@.len() == 0
}

pub open spec fn instantiate_post(
    info: MessageInfo,
    msg: InstantiateMsg,
    r: Result<(State, Response), ContractError>,
) -> bool {
    match msg.admin {
        Some(Err(e)) => r == Err::<(State, Response), ContractError>(ContractError::Std(e)),
        _ => match instantiate_config_problem(msg) {
            Some(reason) => r matches Err(ContractError::InvalidConfig { reason: rs }) && rs@
                == reason,
            None => match msg.mad_scientist_collection {
                Err(e) => r == Err::<(State, Response), ContractError>(ContractError::Std(e)),
                Ok(mad) => match msg.mega_mad_scientist_collection {
                    Err(e) => r == Err::<(State, Response), ContractError>(ContractError::Std(e)),
                    Ok(mega) => if mad@ == mega@ {
                        r == Err::<(State, Response), ContractError>(
                            ContractError::CollectionAddressCollision {},
                        )
                    } else {
                        let admin = match msg.admin {
                            Some(Ok(a)) => a,
                            _ => info.sender,
                        };
                        r matches Ok((st, res)) && st.wf() && is_fresh_state(
                            st,
                            initial_config(admin, mad, mega, msg),
                        ) && res.messages@.len() == 0 && res.attrs() == seq![
                            ("action"@, "instantiate"@),
                            ("admin"@, admin@),
                            ("mad_scientist_collection"@, mad@),
                            ("mega_mad_scientist_collection"@, mega@),
                        ]
                    },
                },
            },
        },
    }
}

/// Sets the contract up: validates the settings (filling in defaults) and
/// returns the initial state.
pub fn instantiate(env: &Env, info: &MessageInfo, msg: InstantiateMsg) -> (r: Result<
    (State, Response),
    ContractError,
>)
    ensures
        instantiate_post(*info, msg, r),
{
    let ghost m = msg;
    let admin = match msg.admin {
        Some(Ok(a)) => a,
        Some(Err(e)) => {
            return Err(ContractError::Std(e));
        },
        None => info.sender.clone(),
    };
    let default_min_bid = match msg.default_min_bid {
        Some(v) => v,
        None => 1,
    };
    if default_min_bid == 0 {
        return Err(
            ContractError::InvalidConfig { reason: String::from_str("default_min_bid must be >= 1") },
        );
    }
    let max_bidders_per_auction = match msg.max_bidders_per_auction {
        Some(v) => v,
        None => 100,
    };
    validate_bounded_positive(
        "max_bidders_per_auction",
        max_bidders_per_auction,
        MAX_BIDDERS_PER_AUCTION_CAP,
    )?;
    let max_staging_size = match msg.max_staging_size {
        Some(v) => v,
        None => 50,
    };
    validate_bounded_positive("max_staging_size", max_staging_size, MAX_STAGING_SIZE_CAP)?;
    let max_nfts_per_bid = match msg.max_nfts_per_bid {
        Some(v) => v,
        None => 50,
    };
    validate_bounded_positive("max_nfts_per_bid", max_nfts_per_bid, MAX_NFTS_PER_BID_CAP)?;
    let anti_snipe_window = match msg.anti_snipe_window {
        Some(v) => v,
        None => 300,
    };
    let anti_snipe_extension = match msg.anti_snipe_extension {
        Some(v) => v,
        None => 300,
    };
    let max_extension = match msg.max_extension {
        Some(v) => v,
        None => 86400,
    };
    validate_anti_snipe_config(anti_snipe_window, anti_snipe_extension, max_extension)?;
    let mad_collection = match msg.mad_scientist_collection {
        Ok(a) => a,
        Err(e) => {
            return Err(ContractError::Std(e));
        },
    };
    let mega_collection = match msg.mega_mad_scientist_collection {
        Ok(a) => a,
        Err(e) => {
            return Err(ContractError::Std(e));
        },
    };
    if mad_collection == mega_collection {
        return Err(ContractError::CollectionAddressCollision {});
    }
    let config = Config {
        admin: admin.clone(),
        pending_admin: None,
        paused: false,
        mad_scientist_collection: mad_collection.clone(),
        mega_mad_scientist_collection: mega_collection.clone(),
        default_min_bid,
        anti_snipe_window,
        anti_snipe_extension,
        max_extension,
        max_bidders_per_auction,
        max_staging_size,
        max_nfts_per_bid,
    };
    let state = State {
        config,
        next_auction_id: 1,
        auctions: Vec::new(),
        bids: Vec::new(),
        pool: Vec::new(),
        pool_size: 0,
        escrowed_bid_tokens: Vec::new(),
        active_mega_auctions: Vec::new(),
        swap_staging: Vec::new(),
    };
    let mut attributes = Vec::new();
    attributes.push(attr_str("action", "instantiate"));
    attributes.push(attr("admin", admin));
    attributes.push(attr("mad_scientist_collection", mad_collection));
    attributes.push(attr("mega_mad_scientist_collection", mega_collection));
    let res = Response { messages: Vec::new(), attributes };
    assert(res.attrs() =~= seq![
        ("action"@, "instantiate"@),
        ("admin"@, admin@),
        ("mad_scientist_collection"@, mad_collection@),
        ("mega_mad_scientist_collection"@, mega_collection@),
    ]);
    Ok((state, res))
}

/// What the CW721 receive hook does with `m`, sent by collection `info.sender`.
pub open spec fn receive_nft_post(
    old: State,
    new: State,
    now: u64,
    info: MessageInfo,
    m: Cw721ReceiveMsg,
    r: Result<Response, ContractError>,
) -> bool {
    if old.config.paused {
        r == Err::<Response, ContractError>(ContractError::ContractPaused {}) && new == old
    } else {
        match m.sender {
            Err(e) => r == Err::<Response, ContractError>(ContractError::Std(e)) && new == old,
            Ok(nft_sender) => match m.msg {
                None => r == Err::<Response, ContractError>(ContractError::InvalidReceiveMsg {})
                    && new == old,
                Some(ReceiveNftAction::Bid { auction_id }) => if info.sender@
                    != old.config.mad_scientist_collection@ {
                    r == Err::<Response, ContractError>(
                        ContractError::UnexpectedCollection { collection: info.sender },
                    ) && new == old
                } else {
                    receive_bid_post(old, new, now, nft_sender, auction_id, m.token_id, r)
                },
                Some(ReceiveNftAction::DepositMega { start_time, end_time, min_bid }) => if info.sender@
                    != old.config.mega_mad_scientist_collection@ {
                    r == Err::<Response, ContractError>(
                        ContractError::UnexpectedCollection { collection: info.sender },
                    ) && new == old
                } else if nft_sender@ != old.config.admin@ {
                    r == Err::<Response, ContractError>(ContractError::Unauthorized {}) && new
                        == old
                } else {
                    create_auction_post(
                        old,
                        new,
                        nft_sender,
                        m.token_id,
                        start_time,
                        end_time,
                        min_bid,
                        r,
                    )
                },
                Some(ReceiveNftAction::SwapDeposit) => if info.sender@
                    != old.config.mad_scientist_collection@ {
                    r == Err::<Response, ContractError>(
                        ContractError::UnexpectedCollection { collection: info.sender },
                    ) && new == old
                } else {
                    swap_deposit_post(old, new, nft_sender, m.token_id, r)
                },
            },
        }
    }
}

fn execute_receive_nft(s: &mut State, env: &Env, info: &MessageInfo, receive_msg: Cw721ReceiveMsg) -> (r:
    Result<Response, ContractError>)
    requires
        old(s).wf(),
        opens_by_deposit(*old(s), *info, receive_msg) ==> old(s).next_auction_id < u64::MAX,
    ensures
        final(s).wf(),
        receive_nft_post(*old(s), *final(s), env.block_time, *info, receive_msg, r),
{
    if s.config.paused {
        return Err(ContractError::ContractPaused {});
    }
    let nft_sender = match receive_msg.sender {
        Ok(a) => a,
        Err(e) => {
            return Err(ContractError::Std(e));
        },
    };
    let token_id = receive_msg.token_id;
    let action = match receive_msg.msg {
        Some(a) => a,
        None => {
            return Err(ContractError::InvalidReceiveMsg {});
        },
    };
    match action {
        ReceiveNftAction::Bid { auction_id } => {
            if info.sender != s.config.mad_scientist_collection {
                return Err(ContractError::UnexpectedCollection { collection: info.sender.clone() });
            }
            execute_receive_bid(s, env.block_time, nft_sender, auction_id, token_id)
        },
        ReceiveNftAction::DepositMega { start_time, end_time, min_bid } => {
            if info.sender != s.config.mega_mad_scientist_collection {
                return Err(ContractError::UnexpectedCollection { collection: info.sender.clone() });
            }
            if nft_sender != s.config.admin {
                return Err(ContractError::Unauthorized {});
            }
            execute_create_auction(s, nft_sender, token_id, start_time, end_time, min_bid)
        },
        ReceiveNftAction::SwapDeposit => {
            if info.sender != s.config.mad_scientist_collection {
                return Err(ContractError::UnexpectedCollection { collection: info.sender.clone() });
            }
            execute_swap_deposit(s, nft_sender, token_id)
        },
    }
}

/// Whether the receive hook, given `m` by collection `info.sender`, opens a new auction.
pub open spec fn opens_by_deposit(s: State, info: MessageInfo, m: Cw721ReceiveMsg) -> bool {
    &&& !s.config.paused
    &&& info.sender@ == s.config.mega_mad_scientist_collection@
    &&& m.sender matches Ok(nft_sender) && nft_sender@ == s.config.admin@
    &&& m.msg matches Some(ReceiveNftAction::DepositMega { start_time, end_time, min_bid })
        && opens_auction(s, m.token_id@, start_time, end_time, min_bid)
}

/// What `execute` needs to stay within machine integers: a counter that
/// does not overflow, when the message gets as far as counting.
pub open spec fn execute_within_limits(s: State, env: Env, info: MessageInfo, msg: ExecuteMsg) -> bool {
    info.funds@.len() == 0 ==> match msg {
        ExecuteMsg::FinalizeAuction { auction_id } => finalizes(s, env.block_time, auction_id)
            ==> s.pool_size + winner_escrow(s, auction_id).len() <= u64::MAX,
        ExecuteMsg::ReceiveNft(m) => opens_by_deposit(s, info, m) ==> s.next_auction_id < u64::MAX,
        _ => true,
    }
}

/// Whether executing `msg` keeps the counters within machine integers.
pub fn within_limits(s: &State, env: &Env, info: &MessageInfo, msg: &ExecuteMsg) -> (b: bool)
    requires
        s.wf(),
    ensures
        b == execute_within_limits(*s, *env, *info, *msg),
{
    if info.funds.len() > 0 {
        return true;
    }
    match msg {
        ExecuteMsg::FinalizeAuction { auction_id } => match auction_slot(s, *auction_id) {
            None => true,
            Some(k) => {
                if s.auctions[k].status != AuctionStatus::Active || env.block_time < s.auctions[k].end_time {
                    return true;
                }
                let held: u64 = match &s.auctions[k].highest_bidder {
                    Some(w) => match find_bid(&s.bids, *auction_id, w) {
                        Some(i) => s.bids[i].bid.token_ids.len() as u64,
                        None => 0,
                    },
                    None => 0,
                };
                s.pool_size <= u64::MAX - held
            },
        },
        ExecuteMsg::ReceiveNft(m) => {
            if s.config.paused || info.sender != s.config.mega_mad_scientist_collection {
                return true;
            }
            let admin_sent = match &m.sender {
                Ok(a) => *a == s.config.admin,
                Err(_) => false,
            };
            if !admin_sent {
                return true;
            }
            match &m.msg {
                Some(ReceiveNftAction::DepositMega { start_time, end_time, min_bid }) => {
                    let min = match min_bid {
                        Some(v) => *v,
                        None => s.config.default_min_bid,
                    };
                    let opens = *start_time < *end_time && find_lock(
                        &s.active_mega_auctions,
                        &m.token_id,
                    ).is_none() && min != 0;
                    !opens || s.next_auction_id < u64::MAX
                },
                _ => true,
            }
        },
        _ => true,
    }
}

pub open spec fn execute_post(
    old: State,
    new: State,
    env: Env,
    info: MessageInfo,
    msg: ExecuteMsg,
    r: Result<Response, ContractError>,
) -> bool {
    if info.funds@.len() > 0 {
        r == Err::<Response, ContractError>(ContractError::FundsNotAllowed {}) && new == old
    } else {
        match msg {
            ExecuteMsg::FinalizeAuction { auction_id } => finalize_post(
                old,
                new,
                env.block_time,
                auction_id,
                r,
            ),
            ExecuteMsg::CancelAuction { auction_id } => cancel_post(old, new, info, auction_id, r),
            ExecuteMsg::WithdrawBid { auction_id } => withdraw_bid_post(
                old,
                new,
                info,
                auction_id,
                r,
            ),
            ExecuteMsg::ClaimSwap { requested_ids } => claim_swap_post(
                old,
                new,
                env.block_time,
                info,
                requested_ids@,
                r,
            ),
            ExecuteMsg::WithdrawStaged {} => withdraw_staged_post(old, new, info, r),
            ExecuteMsg::SetPaused { paused } => set_paused_post(old, new, info, paused, r),
            ExecuteMsg::ProposeAdmin { new_admin } => propose_admin_post(
                old,
                new,
                info,
                new_admin,
                r,
            ),
            ExecuteMsg::AcceptAdmin {} => accept_admin_post(old, new, info, r),
            ExecuteMsg::ForceCompleteAuction { auction_id } => force_complete_post(
                old,
                new,
                info,
                auction_id,
                r,
            ),
            ExecuteMsg::UpdateConfig {
                default_min_bid,
                anti_snipe_window,
                anti_snipe_extension,
                max_extension,
                max_bidders_per_auction,
                max_staging_size,
                max_nfts_per_bid,
            } => update_config_post(
                old,
                new,
                info,
                UpdateConfigArgs {
                    default_min_bid,
                    anti_snipe_window,
                    anti_snipe_extension,
                    max_extension,
                    max_bidders_per_auction,
                    max_staging_size,
                    max_nfts_per_bid,
                },
                r,
            ),
            ExecuteMsg::ReceiveNft(m) => receive_nft_post(old, new, env.block_time, info, m, r),
        }
    }
}

/// Executes `msg`: refuses attached funds, then routes the message to its handler.
pub fn execute(s: &mut State, env: &Env, info: &MessageInfo, msg: ExecuteMsg) -> (r: Result<
    Response,
    ContractError,
>)
    requires
        old(s).wf(),
        execute_within_limits(*old(s), *env, *info, msg),
    ensures
        final(s).wf(),
        execute_post(*old(s), *final(s), *env, *info, msg, r),
{
    if info.funds.len() > 0 {
        return Err(ContractError::FundsNotAllowed {});
    }
    match msg {
        ExecuteMsg::FinalizeAuction { auction_id } => execute_finalize_auction(
            s,
            env.block_time,
            auction_id,
        ),
        ExecuteMsg::CancelAuction { auction_id } => execute_cancel_auction(s, info, auction_id),
        ExecuteMsg::WithdrawBid { auction_id } => execute_withdraw_bid(s, info, auction_id),
        ExecuteMsg::ClaimSwap { requested_ids } => execute_claim_swap(
            s,
            env.block_time,
            info,
            requested_ids,
        ),
        ExecuteMsg::WithdrawStaged {} => execute_withdraw_staged(s, info),
        ExecuteMsg::SetPaused { paused } => execute_set_paused(s, info, paused),
        ExecuteMsg::ProposeAdmin { new_admin } => execute_propose_admin(s, info, new_admin),
        ExecuteMsg::AcceptAdmin {} => execute_accept_admin(s, info),
        ExecuteMsg::ForceCompleteAuction { auction_id } => execute_force_complete(
            s,
            info,
            auction_id,
        ),
        ExecuteMsg::UpdateConfig {
            default_min_bid,
            anti_snipe_window,
            anti_snipe_extension,
            max_extension,
            max_bidders_per_auction,
            max_staging_size,
            max_nfts_per_bid,
        } => execute_update_config(
            s,
            info,
            UpdateConfigArgs {
                default_min_bid,
                anti_snipe_window,
                anti_snipe_extension,
                max_extension,
                max_bidders_per_auction,
                max_staging_size,
                max_nfts_per_bid,
            },
        ),
        ExecuteMsg::ReceiveNft(receive_msg) => execute_receive_nft(s, env, info, receive_msg),
    }
}

pub open spec fn migrate_post(stored: ContractVersion, r: Result<(ContractVersion, Response), ContractError>) -> bool {
    if stored.contract@ != CONTRACT_NAME@ {
        r matches Err(ContractError::InvalidConfig { reason }) && reason@
            == "cannot migrate from a different contract"@
    } else {
        r matches Ok((v, res)) && v.contract@ == CONTRACT_NAME@ && v.version@ == CONTRACT_VERSION@
            && res.messages@.len() == 0 && res.attrs() == seq![
            ("action"@, "migrate"@),
            ("from_version"@, stored.version@),
            ("to_version"@, CONTRACT_VERSION@),
        ]
    }
}

/// Migrates from the recorded version `stored`: only a version of this
/// contract can be migrated; the answer is the version to record.
pub fn migrate(stored: &ContractVersion, _msg: MigrateMsg) -> (r: Result<
    (ContractVersion, Response),
    ContractError,
>)
    ensures
        migrate_post(*stored, r),
{
    let name = String::from_str(CONTRACT_NAME);
    if stored.contract != name {
        return Err(
            ContractError::InvalidConfig {
                reason: String::from_str("cannot migrate from a different contract"),
            },
        );
    }
    let version = ContractVersion {
        contract: name,
        version: String::from_str(CONTRACT_VERSION),
    };
    let mut attributes = Vec::new();
    attributes.push(attr_str("action", "migrate"));
    attributes.push(attr("from_version", stored.version.clone()));
    attributes.push(attr_str("to_version", CONTRACT_VERSION));
    let res = Response { messages: Vec::new(), attributes };
    assert(res.attrs() =~= seq![
        ("action"@, "migrate"@),
        ("from_version"@, stored.version@),
        ("to_version"@, CONTRACT_VERSION@),
    ]);
    Ok((version, res))
}

} // verus!
