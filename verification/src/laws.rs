//! What holds of the contract across messages: the properties every
//! message keeps, and what one message means for the next.
use vstd::prelude::*;

use crate::auction::{
    auction_after_bid, auction_after_withdraw, bid_refusal, escrow_of, min_bid_for, new_auction,
    sniped_end, takes_lead,
};
use crate::contract::{execute_post, instantiate_post};
use crate::env::{decimal, Env, MessageInfo, Response};
use crate::error::ContractError;
use crate::holdings::{
    holdings_ok, is_escrowed, is_staged, lemma_holdings_after_bid, lemma_holdings_after_claim,
    lemma_holdings_after_stage, lemma_holdings_after_unbid, lemma_holdings_after_unstage,
    lemma_holdings_after_win,
};
use crate::invariants::{
    escrow_consistent, leaders_consistent, lemma_escrow_after_remove,
    lemma_escrow_after_bid, lemma_escrow_consistent_after_bid, lemma_escrow_consistent_after_remove,
    lemma_first_missing_none, lemma_first_repeat_none, lemma_first_shared_none,
    lemma_pool_with_all, lemma_pool_without_all, lemma_leaders_after_bid,
    lemma_leaders_after_close, lemma_leaders_after_open, lemma_leaders_same, lemma_lock_of_unique,
    lemma_lock_of_without, lemma_mega_after_close, lemma_mega_after_open, lemma_mega_after_update, lemma_mega_same,
    lock_of, mega_consistent,
};
use crate::contract::{DEFAULT_LIMIT, MAX_LIMIT};
use crate::error::QueryError;
use crate::msg::{Cw721ReceiveMsg, ExecuteMsg, QueryMsg, QueryResponse, ReceiveNftAction};
use crate::order::str_lt;
use crate::queries::{
    bids_page, page_size, auctions_selected, lemma_tokens_selected_complete, lemma_tokens_selected_sound,
    tokens_selected, bid_copy, bids_selected, lemma_auctions_selected_complete,
    lemma_auctions_selected_ordered, lemma_auctions_selected_sound, lemma_bids_selected_complete,
    lemma_bids_selected_sound, query_post,
};
use crate::state::{
    bid_index, has_str, Bid, BidEntry, TokenLock, lemma_bid_index, lemma_lock_index, lemma_staging_index, staging_index, Auction,
    AuctionStatus, Config, State,
};
use crate::collections::pool_with_all;
use crate::swap::staged_of;

verus! {

/// Escrowed bid tokens and their locks agree in `s`.
pub open spec fn escrow_agrees(s: State) -> bool {
    escrow_consistent(s.bids@, s.escrowed_bid_tokens@)
}

/// No token is escrowed twice, and every escrowed token is locked to the
/// auction it was bid in: whatever message is executed, escrow and locks
/// stay in agreement.
pub proof fn law_escrow_kept(
    old: State,
    new: State,
    env: Env,
    info: MessageInfo,
    msg: ExecuteMsg,
    r: Result<Response, ContractError>,
)
    requires
        old.wf(),
        escrow_agrees(old),
        execute_post(old, new, env, info, msg, r),
    ensures
        escrow_agrees(new),
{
    if info.funds@.len() > 0 {
        return;
    }
    match msg {
        ExecuteMsg::FinalizeAuction { auction_id } => {
            if r is Ok {
                let a = old.auction(auction_id);
                if let Some(w) = a.highest_bidder {
                    let wi = bid_index(old.bids@, auction_id, w@);
                    if wi >= 0 {
                        lemma_bid_index(old.bids@, auction_id, w@);
                        lemma_escrow_consistent_after_remove(
                            old.bids@,
                            old.escrowed_bid_tokens@,
                            wi,
                        );
                    }
                }
            }
        },
        ExecuteMsg::WithdrawBid { auction_id } => {
            if r is Ok {
                let bi = bid_index(old.bids@, auction_id, info.sender@);
                lemma_bid_index(old.bids@, auction_id, info.sender@);
                lemma_escrow_consistent_after_remove(old.bids@, old.escrowed_bid_tokens@, bi);
            }
        },
        ExecuteMsg::ReceiveNft(m) => {
            if !old.config.paused {
                if let (Ok(sender), Some(ReceiveNftAction::Bid { auction_id })) = (m.sender, m.msg) {
                    if info.sender@ == old.config.mad_scientist_collection@ && bid_refusal(
                        old,
                        env.block_time,
                        sender,
                        auction_id,
                        m.token_id,
                    ) is None {
                        let tokens = escrow_of(old, auction_id, sender@).push(m.token_id);
                        lemma_lock_index(old.escrowed_bid_tokens@, m.token_id@);
                        lemma_escrow_consistent_after_bid(
                            old.bids@,
                            new.bids@,
                            old.escrowed_bid_tokens@,
                            auction_id,
                            sender@,
                            tokens,
                            env.block_time,
                            m.token_id,
                        );
                    }
                }
            }
        },
        _ => {},
    }
}

/// Each Cosmic token is locked to at most one auction, and exactly while
/// that auction is active: whatever message is executed, the Cosmic locks
/// stay in agreement with the auctions.
pub proof fn law_mega_locks_kept(
    old: State,
    new: State,
    env: Env,
    info: MessageInfo,
    msg: ExecuteMsg,
    r: Result<Response, ContractError>,
)
    requires
        old.wf(),
        mega_consistent(old),
        execute_post(old, new, env, info, msg, r),
    ensures
        mega_consistent(new),
{
    if info.funds@.len() > 0 {
        return;
    }
    match msg {
        ExecuteMsg::FinalizeAuction { auction_id } => {
            if r is Ok {
                let st = if old.auction(auction_id).highest_bidder is Some {
                    AuctionStatus::Finalizing
                } else {
                    AuctionStatus::Completed
                };
                lemma_mega_after_close(old, new, auction_id, st);
            }
        },
        ExecuteMsg::CancelAuction { auction_id } => {
            if r is Ok {
                lemma_mega_after_close(old, new, auction_id, AuctionStatus::Cancelled);
            }
        },
        ExecuteMsg::ForceCompleteAuction { auction_id } => {
            if r is Ok {
                lemma_mega_after_update(
                    old,
                    new,
                    auction_id,
                    Auction { status: AuctionStatus::Completed, ..old.auction(auction_id) },
                );
            }
        },
        ExecuteMsg::ReceiveNft(m) => {
            if !old.config.paused && r is Ok {
                if let (Ok(sender), Some(action)) = (m.sender, m.msg) {
                    match action {
                        ReceiveNftAction::Bid { auction_id } => {
                            let total = escrow_of(old, auction_id, sender@).push(m.token_id).len() as u64;
                            lemma_mega_after_update(
                                old,
                                new,
                                auction_id,
                                auction_after_bid(
                                    old.auction(auction_id),
                                    old.config,
                                    sender,
                                    total,
                                    env.block_time,
                                ),
                            );
                        },
                        ReceiveNftAction::DepositMega { start_time, end_time, min_bid } => {
                            lemma_lock_index(old.active_mega_auctions@, m.token_id@);
                            lemma_mega_after_open(
                                old,
                                new,
                                new_auction(
                                    old.next_auction_id,
                                    sender,
                                    m.token_id,
                                    start_time,
                                    end_time,
                                    min_bid_for(old.config, min_bid),
                                ),
                            );
                        },
                        ReceiveNftAction::SwapDeposit => {
                            lemma_mega_same(old, new);
                        },
                    }
                }
            }
        },
        ExecuteMsg::WithdrawBid { auction_id } => {
            if r is Ok {
                lemma_mega_after_update(
                    old,
                    new,
                    auction_id,
                    auction_after_withdraw(old.auction(auction_id), new.bids@, auction_id),
                );
            } else {
                lemma_mega_same(old, new);
            }
        },
        _ => {
            lemma_mega_same(old, new);
        },
    }
}

/// In every active auction the leader holds the most escrowed tokens (ties
/// do not take the lead), at least the minimum bid, and without a leader
/// nobody has reached the minimum: whatever message is executed, this stays so.
pub proof fn law_leader_kept(
    old: State,
    new: State,
    env: Env,
    info: MessageInfo,
    msg: ExecuteMsg,
    r: Result<Response, ContractError>,
)
    requires
        old.wf(),
        new.wf(),
        leaders_consistent(old),
        execute_post(old, new, env, info, msg, r),
    ensures
        leaders_consistent(new),
{
    if info.funds@.len() > 0 {
        return;
    }
    match msg {
        ExecuteMsg::FinalizeAuction { auction_id } => {
            if r is Ok {
                let a = old.auction(auction_id);
                let st = if a.highest_bidder is Some {
                    AuctionStatus::Finalizing
                } else {
                    AuctionStatus::Completed
                };
                let wi = match a.highest_bidder {
                    Some(w) => bid_index(old.bids@, auction_id, w@),
                    None => -1,
                };
                if let Some(w) = a.highest_bidder {
                    lemma_bid_index(old.bids@, auction_id, w@);
                }
                lemma_leaders_after_close(old, new, auction_id, Auction { status: st, ..a }, wi);
            }
        },
        ExecuteMsg::CancelAuction { auction_id } => {
            if r is Ok {
                lemma_leaders_after_close(
                    old,
                    new,
                    auction_id,
                    Auction { status: AuctionStatus::Cancelled, ..old.auction(auction_id) },
                    -1,
                );
            }
        },
        ExecuteMsg::ForceCompleteAuction { auction_id } => {
            if r is Ok {
                lemma_leaders_after_close(
                    old,
                    new,
                    auction_id,
                    Auction { status: AuctionStatus::Completed, ..old.auction(auction_id) },
                    -1,
                );
            }
        },
        ExecuteMsg::WithdrawBid { auction_id } => {
            if r is Ok {
                let bi = bid_index(old.bids@, auction_id, info.sender@);
                lemma_bid_index(old.bids@, auction_id, info.sender@);
                lemma_leaders_after_close(
                    old,
                    new,
                    auction_id,
                    auction_after_withdraw(old.auction(auction_id), new.bids@, auction_id),
                    bi,
                );
            } else {
                lemma_leaders_same(old, new);
            }
        },
        ExecuteMsg::ReceiveNft(m) => {
            if !old.config.paused && r is Ok {
                if let (Ok(sender), Some(action)) = (m.sender, m.msg) {
                    match action {
                        ReceiveNftAction::Bid { auction_id } => {
                            lemma_leaders_after_bid(
                                old,
                                new,
                                auction_id,
                                sender,
                                m.token_id,
                                env.block_time,
                            );
                        },
                        ReceiveNftAction::DepositMega { start_time, end_time, min_bid } => {
                            lemma_leaders_after_open(
                                old,
                                new,
                                new_auction(
                                    old.next_auction_id,
                                    sender,
                                    m.token_id,
                                    start_time,
                                    end_time,
                                    min_bid_for(old.config, min_bid),
                                ),
                            );
                        },
                        ReceiveNftAction::SwapDeposit => {
                            lemma_leaders_same(old, new);
                        },
                    }
                }
            } else {
                lemma_leaders_same(old, new);
            }
        },
        _ => {
            lemma_leaders_same(old, new);
        },
    }
}

/// The pool counter matches the pool, and every token the contract holds is
/// held in one place only.
pub open spec fn pool_accounted(s: State) -> bool {
    &&& s.pool_size == s.pool@.len()
    &&& holdings_ok(s.pool@, s.swap_staging@, s.bids@)
}

/// Whether the contract holds token `t`: in the pool, staged or escrowed.
pub open spec fn holds(s: State, t: Seq<char>) -> bool {
    has_str(s.pool@, t) || is_staged(s.swap_staging@, t) || is_escrowed(s.bids@, t)
}

/// The pool size reported is the number of tokens in the pool, and a token
/// is in at most one of pool, staging and escrow: this stays so for every
/// message, as long as a Standard NFT sent to the contract (to bid or to
/// stage) is not one it already holds.
pub proof fn law_pool_accounted(
    old: State,
    new: State,
    env: Env,
    info: MessageInfo,
    msg: ExecuteMsg,
    r: Result<Response, ContractError>,
)
    requires
        old.wf(),
        escrow_agrees(old),
        pool_accounted(old),
        execute_post(old, new, env, info, msg, r),
        msg matches ExecuteMsg::ReceiveNft(m) ==> (m.msg matches Some(ReceiveNftAction::Bid { .. })
            || m.msg matches Some(ReceiveNftAction::SwapDeposit)) ==> !holds(old, m.token_id@),
    ensures
        pool_accounted(new),
{
    if info.funds@.len() > 0 {
        return;
    }
    match msg {
        ExecuteMsg::FinalizeAuction { auction_id } => {
            if r is Ok {
                if let Some(w) = old.auction(auction_id).highest_bidder {
                    let wi = bid_index(old.bids@, auction_id, w@);
                    lemma_bid_index(old.bids@, auction_id, w@);
                    if wi >= 0 {
                        lemma_holdings_after_win(old.pool@, old.swap_staging@, old.bids@, wi);
                    }
                }
            }
        },
        ExecuteMsg::WithdrawBid { auction_id } => {
            if r is Ok {
                let bi = bid_index(old.bids@, auction_id, info.sender@);
                lemma_bid_index(old.bids@, auction_id, info.sender@);
                lemma_holdings_after_unbid(old.pool@, old.swap_staging@, old.bids@, bi);
            }
        },
        ExecuteMsg::ClaimSwap { requested_ids } => {
            if r is Ok {
                let si = staging_index(old.swap_staging@, info.sender@);
                lemma_staging_index(old.swap_staging@, info.sender@);
                lemma_first_repeat_none(requested_ids@);
                lemma_first_missing_none(requested_ids@, old.pool@);
                lemma_holdings_after_claim(
                    old.pool@,
                    old.swap_staging@,
                    old.bids@,
                    si,
                    requested_ids@,
                );
            }
        },
        ExecuteMsg::WithdrawStaged {} => {
            if r is Ok {
                let si = staging_index(old.swap_staging@, info.sender@);
                lemma_staging_index(old.swap_staging@, info.sender@);
                lemma_holdings_after_unstage(old.pool@, old.swap_staging@, old.bids@, si);
            }
        },
        ExecuteMsg::ReceiveNft(m) => {
            if !old.config.paused && r is Ok {
                if let (Ok(sender), Some(action)) = (m.sender, m.msg) {
                    match action {
                        ReceiveNftAction::Bid { auction_id } => {
                            let tokens = escrow_of(old, auction_id, sender@).push(m.token_id);
                            lemma_holdings_after_bid(
                                old.pool@,
                                old.swap_staging@,
                                old.bids@,
                                new.bids@,
                                auction_id,
                                sender@,
                                tokens,
                                env.block_time,
                                m.token_id,
                            );
                        },
                        ReceiveNftAction::SwapDeposit => {
                            let si = staging_index(old.swap_staging@, sender@);
                            lemma_staging_index(old.swap_staging@, sender@);
                            if si < 0 {
                                assert forall|i: int| 0 <= i < old.swap_staging@.len() implies #[trigger] new.swap_staging@[i]
                                    == old.swap_staging@[i] by {
                                    assert(new.swap_staging@.drop_last()[i] == new.swap_staging@[i]);
                                }
                                assert(staged_of(old, sender@).push(m.token_id) =~= seq![m.token_id]);
                            }
                            lemma_holdings_after_stage(
                                old.pool@,
                                old.swap_staging@,
                                new.swap_staging@,
                                old.bids@,
                                si,
                                m.token_id,
                            );
                        },
                        ReceiveNftAction::DepositMega { .. } => {},
                    }
                }
            }
        },
        _ => {},
    }
}

/// A state the contract has just been set up with satisfies every property
/// that messages keep.
pub proof fn law_instantiate_consistent(
    info: MessageInfo,
    msg: crate::msg::InstantiateMsg,
    r: Result<(State, Response), ContractError>,
)
    requires
        instantiate_post(info, msg, r),
        r is Ok,
    ensures
        r->Ok_0.0.wf(),
        escrow_agrees(r->Ok_0.0),
        mega_consistent(r->Ok_0.0),
        leaders_consistent(r->Ok_0.0),
        pool_accounted(r->Ok_0.0),
{
    let s = r->Ok_0.0;
    assert forall|t: Seq<char>| !(#[trigger] lock_of(s.escrowed_bid_tokens@, t) is Some) by {}
    assert forall|t: Seq<char>| !(#[trigger] lock_of(s.active_mega_auctions@, t) is Some) by {}
}

/// Once no bid is left, no bid token is locked either.
pub proof fn law_no_locks_without_bids(s: State)
    requires
        s.wf(),
        escrow_agrees(s),
        s.bids@.len() == 0,
    ensures
        s.escrowed_bid_tokens@.len() == 0,
{
    if s.escrowed_bid_tokens@.len() > 0 {
        let t = s.escrowed_bid_tokens@[0].token_id@;
        lemma_lock_of_unique(s.escrowed_bid_tokens@, t);
        assert(lock_of(s.escrowed_bid_tokens@, t) is Some);
    }
}

/// After a bidder has withdrawn from an auction, a second withdrawal finds
/// nothing to withdraw.
pub proof fn law_withdraw_once(
    s0: State,
    s1: State,
    s2: State,
    env1: Env,
    env2: Env,
    info1: MessageInfo,
    info2: MessageInfo,
    auction_id: u64,
    r1: Result<Response, ContractError>,
    r2: Result<Response, ContractError>,
)
    requires
        s0.wf(),
        execute_post(s0, s1, env1, info1, ExecuteMsg::WithdrawBid { auction_id }, r1),
        r1 is Ok,
        execute_post(s1, s2, env2, info2, ExecuteMsg::WithdrawBid { auction_id }, r2),
        info2.sender@ == info1.sender@,
        info2.funds@.len() == 0,
    ensures
        r2 == Err::<Response, ContractError>(ContractError::NothingToWithdraw { auction_id }),
{
    let bi = bid_index(s0.bids@, auction_id, info1.sender@);
    lemma_bid_index(s0.bids@, auction_id, info1.sender@);
    lemma_escrow_after_remove(s0, s1, bi);
    assert(escrow_of(s1, auction_id, info2.sender@).len() == 0);
}

/// Two-step handover: after the admin proposes an address and that address
/// accepts, it is the admin and nothing is pending.
pub proof fn law_admin_handover(
    s0: State,
    s1: State,
    s2: State,
    env1: Env,
    env2: Env,
    info1: MessageInfo,
    info2: MessageInfo,
    proposed: String,
    r1: Result<Response, ContractError>,
    r2: Result<Response, ContractError>,
)
    requires
        info1.funds@.len() == 0,
        info1.sender@ == s0.config.admin@,
        execute_post(s0, s1, env1, info1, ExecuteMsg::ProposeAdmin { new_admin: Ok(proposed) }, r1),
        info2.funds@.len() == 0,
        info2.sender@ == proposed@,
        execute_post(s1, s2, env2, info2, ExecuteMsg::AcceptAdmin {}, r2),
    ensures
        r1 is Ok,
        r2 is Ok,
        s2.config == (Config { admin: proposed, pending_admin: None, ..s0.config }),
        s2.auctions == s0.auctions && s2.bids == s0.bids && s2.pool == s0.pool,
{
}

/// While paused, no NFT is taken in: the receive hook is refused and the
/// state is unchanged.
pub proof fn law_paused_refuses_nfts(
    old: State,
    new: State,
    env: Env,
    info: MessageInfo,
    m: crate::msg::Cw721ReceiveMsg,
    r: Result<Response, ContractError>,
)
    requires
        old.config.paused,
        info.funds@.len() == 0,
        execute_post(old, new, env, info, ExecuteMsg::ReceiveNft(m), r),
    ensures
        r == Err::<Response, ContractError>(ContractError::ContractPaused {}),
        new == old,
{
}

/// Anti-sniping only extends: a leading bid never brings the end of an
/// auction forward, and never pushes it past the original end plus the
/// allowed extension (unless it already was); inside the anti-snipe window the
/// new end is the bid time plus the extension, capped there, when that is later.
pub proof fn law_anti_snipe_cap(a: Auction, c: Config, now: u64)
    ensures
        sniped_end(a, c, now) >= a.end_time,
        sniped_end(a, c, now) <= a.end_time || sniped_end(a, c, now)
            <= a.original_end_time.saturating_add(c.max_extension),
        now.saturating_add(c.anti_snipe_window) >= a.end_time && now <= a.end_time ==> sniped_end(
            a,
            c,
            now,
        ) == vstd::math::max(
            a.end_time as int,
            vstd::math::min(
                now.saturating_add(c.anti_snipe_extension) as int,
                a.original_end_time.saturating_add(c.max_extension) as int,
            ),
        ),
        !(now.saturating_add(c.anti_snipe_window) >= a.end_time && now <= a.end_time) ==> sniped_end(
            a,
            c,
            now,
        ) == a.end_time,
{
}

/// A bid that does not take the lead leaves the end time, the leader and the
/// highest count unchanged; one that does becomes the highest bid.
pub proof fn law_bid_lead(a: Auction, c: Config, bidder: String, total: u64, now: u64)
    ensures
        takes_lead(a, bidder@, total) ==> auction_after_bid(a, c, bidder, total, now).highest_bidder
            == Some(bidder) && auction_after_bid(a, c, bidder, total, now).highest_bid_count == total,
        !takes_lead(a, bidder@, total) ==> auction_after_bid(a, c, bidder, total, now).highest_bidder
            == a.highest_bidder && auction_after_bid(a, c, bidder, total, now).highest_bid_count
            == a.highest_bid_count && auction_after_bid(a, c, bidder, total, now).end_time
            == a.end_time,
{
}

/// How an auction's status may change: an active auction may end in any
/// other status, a finalizing one may complete, and completed or cancelled
/// auctions never change.
pub open spec fn status_step(from: AuctionStatus, to: AuctionStatus) -> bool {
    ||| from == to
    ||| from == AuctionStatus::Active
    ||| (from == AuctionStatus::Finalizing && to == AuctionStatus::Completed)
}

/// Auctions are never removed, keep their token, depositor and original end,
/// change status only forward, and never end earlier than before.
pub proof fn law_auctions_persist(
    old: State,
    new: State,
    env: Env,
    info: MessageInfo,
    msg: ExecuteMsg,
    r: Result<Response, ContractError>,
)
    requires
        old.wf(),
        execute_post(old, new, env, info, msg, r),
    ensures
        forall|id: u64|
            old.has_auction(id) ==> new.has_auction(id) && status_step(
                old.auction(id).status,
                (#[trigger] new.auction(id)).status,
            ) && new.auction(id).mega_token_id == old.auction(id).mega_token_id
                && new.auction(id).depositor == old.auction(id).depositor
                && new.auction(id).original_end_time == old.auction(id).original_end_time
                && new.auction(id).end_time >= old.auction(id).end_time,
{
    assert forall|id: u64| old.has_auction(id) implies new.has_auction(id) && status_step(
        old.auction(id).status,
        (#[trigger] new.auction(id)).status,
    ) && new.auction(id).mega_token_id == old.auction(id).mega_token_id
        && new.auction(id).depositor == old.auction(id).depositor
        && new.auction(id).original_end_time == old.auction(id).original_end_time
        && new.auction(id).end_time >= old.auction(id).end_time by {
        if info.funds@.len() == 0 {
            match msg {
                ExecuteMsg::ReceiveNft(m) => {
                    if !old.config.paused && r is Ok {
                        if let (Ok(sender), Some(ReceiveNftAction::DepositMega { .. })) = (m.sender, m.msg) {
                            assert(new.auctions@[id - 1] == old.auctions@[id - 1]);
                        }
                    }
                },
                _ => {},
            }
        }
    }
}

/// A refused message changes nothing: whatever `execute` refuses, the state
/// stays as it was.
pub proof fn law_refusal_changes_nothing(
    old: State,
    new: State,
    env: Env,
    info: MessageInfo,
    msg: ExecuteMsg,
    r: Result<Response, ContractError>,
)
    requires
        old.wf(),
        execute_post(old, new, env, info, msg, r),
        r is Err,
    ensures
        new == old,
{
}

/// The Cosmic token of a finalized auction goes to its leader, who holds at
/// least as many escrowed tokens as any other bidder in it.
pub proof fn law_winner_holds_most(
    old: State,
    new: State,
    env: Env,
    info: MessageInfo,
    auction_id: u64,
    r: Result<Response, ContractError>,
)
    requires
        old.wf(),
        leaders_consistent(old),
        execute_post(old, new, env, info, ExecuteMsg::FinalizeAuction { auction_id }, r),
        r is Ok,
        old.auction(auction_id).highest_bidder is Some,
    ensures
        ({
            let w = old.auction(auction_id).highest_bidder->0;
            &&& r->Ok_0.transfers() == seq![
                (
                    old.config.mega_mad_scientist_collection@,
                    w@,
                    old.auction(auction_id).mega_token_id@,
                ),
            ]
            &&& forall|who: Seq<char>|
                #[trigger] escrow_of(old, auction_id, who).len() <= escrow_of(old, auction_id, w@).len()
        }),
{
    let w = old.auction(auction_id).highest_bidder->0;
    assert forall|who: Seq<char>|
        #[trigger] escrow_of(old, auction_id, who).len() <= escrow_of(old, auction_id, w@).len() by {
        assert(crate::invariants::leader_consistent(old, auction_id));
    }
}

/// A swap keeps the pool's size: as many tokens come in as go out, and the
/// pool counter does not move.
pub proof fn law_swap_keeps_pool_size(
    old: State,
    new: State,
    env: Env,
    info: MessageInfo,
    requested_ids: Vec<String>,
    r: Result<Response, ContractError>,
)
    requires
        old.wf(),
        pool_accounted(old),
        execute_post(old, new, env, info, ExecuteMsg::ClaimSwap { requested_ids }, r),
    ensures
        new.pool_size == old.pool_size,
        new.pool@.len() == old.pool@.len(),
{
    if r is Ok && info.funds@.len() == 0 {
        let si = staging_index(old.swap_staging@, info.sender@);
        lemma_staging_index(old.swap_staging@, info.sender@);
        lemma_first_repeat_none(requested_ids@);
        lemma_first_missing_none(requested_ids@, old.pool@);
        lemma_holdings_after_claim(old.pool@, old.swap_staging@, old.bids@, si, requested_ids@);
    }
}

/// Pausing does not hold back withdrawals: a withdrawal gets the same answer
/// and makes the same change whether or not the contract is paused.
pub proof fn law_pause_spares_withdrawals(
    old: State,
    new: State,
    env: Env,
    info: MessageInfo,
    auction_id: u64,
    r: Result<Response, ContractError>,
    paused: bool,
)
    requires
        old.wf(),
        execute_post(old, new, env, info, ExecuteMsg::WithdrawBid { auction_id }, r),
    ensures
        execute_post(
            State { config: Config { paused, ..old.config }, ..old },
            State { config: Config { paused, ..new.config }, ..new },
            env,
            info,
            ExecuteMsg::WithdrawBid { auction_id },
            r,
        ),
{
    crate::invariants::lemma_escrow_same(old, State { config: Config { paused, ..old.config }, ..old });
}

/// Attached funds are refused before anything else: whatever the message
/// and whoever sends it, the answer is `FundsNotAllowed` and nothing changes.
pub proof fn law_funds_refused(
    old: State,
    new: State,
    env: Env,
    info: MessageInfo,
    msg: ExecuteMsg,
    r: Result<Response, ContractError>,
)
    requires
        execute_post(old, new, env, info, msg, r),
        info.funds@.len() > 0,
    ensures
        r == Err::<Response, ContractError>(ContractError::FundsNotAllowed {}),
        new == old,
{
}

/// Anyone may finalize: two senders finalizing the same auction from the
/// same state at the same time get the same answer and leave the same state.
pub proof fn law_finalize_anyone(
    old: State,
    new1: State,
    new2: State,
    env: Env,
    info1: MessageInfo,
    info2: MessageInfo,
    auction_id: u64,
    r1: Result<Response, ContractError>,
    r2: Result<Response, ContractError>,
)
    requires
        old.wf(),
        execute_post(old, new1, env, info1, ExecuteMsg::FinalizeAuction { auction_id }, r1),
        execute_post(old, new2, env, info2, ExecuteMsg::FinalizeAuction { auction_id }, r2),
        info1.funds@.len() == 0,
        info2.funds@.len() == 0,
    ensures
        r1 is Ok <==> r2 is Ok,
        r1 is Err ==> r1 == r2 && new1 == old && new2 == old,
        r1 matches Ok(res1) ==> r2 matches Ok(res2) && res1.transfers() == res2.transfers()
            && res1.attrs() == res2.attrs(),
        new1.config == new2.config,
        new1.next_auction_id == new2.next_auction_id,
        new1.auctions@ == new2.auctions@,
        new1.bids@ == new2.bids@,
        new1.pool@ == new2.pool@,
        new1.pool_size == new2.pool_size,
        new1.escrowed_bid_tokens@ == new2.escrowed_bid_tokens@,
        new1.active_mega_auctions@ == new2.active_mega_auctions@,
        new1.swap_staging == new2.swap_staging,
{
}

/// Finalizing leaves every loser's escrow where it was: only the winner's
/// tokens move, into the pool, and the only transfer is the Cosmic token.
pub proof fn law_finalize_keeps_losers(
    old: State,
    new: State,
    env: Env,
    info: MessageInfo,
    auction_id: u64,
    r: Result<Response, ContractError>,
    who: Seq<char>,
)
    requires
        old.wf(),
        execute_post(old, new, env, info, ExecuteMsg::FinalizeAuction { auction_id }, r),
        r is Ok,
        !(old.auction(auction_id).highest_bidder matches Some(w) && w@ == who),
    ensures
        escrow_of(new, auction_id, who) == escrow_of(old, auction_id, who),
        r matches Ok(res) && res.transfers().len() == 1 && res.transfers()[0] == (
            old.config.mega_mad_scientist_collection@,
            match old.auction(auction_id).highest_bidder {
                Some(w) => w@,
                None => old.auction(auction_id).depositor@,
            },
            old.auction(auction_id).mega_token_id@,
        ),
{
    if let Some(w) = old.auction(auction_id).highest_bidder {
        let wi = bid_index(old.bids@, auction_id, w@);
        lemma_bid_index(old.bids@, auction_id, w@);
        if wi >= 0 {
            lemma_escrow_after_remove(old, new, wi);
        }
    }
}

/// A finalizing auction completes with the withdrawal that leaves no loser's
/// escrow behind, and stays finalizing while some loser has yet to withdraw.
pub proof fn law_last_withdrawal_completes(
    old: State,
    new: State,
    env: Env,
    info: MessageInfo,
    auction_id: u64,
    r: Result<Response, ContractError>,
)
    requires
        old.wf(),
        execute_post(old, new, env, info, ExecuteMsg::WithdrawBid { auction_id }, r),
        r is Ok,
        old.auction(auction_id).status == AuctionStatus::Finalizing,
    ensures
        (new.auction(auction_id).status == AuctionStatus::Completed) <==> !exists|j: int|
            0 <= j < new.bids@.len() && (#[trigger] new.bids@[j]).auction_id == auction_id
                && new.bids@[j].bid.token_ids@.len() > 0 && !(old.auction(auction_id).highest_bidder matches Some(
                w,
            ) && w@ == new.bids@[j].bid.bidder@),
        new.auction(auction_id).status == AuctionStatus::Completed || new.auction(auction_id).status
            == AuctionStatus::Finalizing,
        new.auction(auction_id).highest_bidder == old.auction(auction_id).highest_bidder,
{
}

/// A deposit that names no minimum bid opens its auction at the configured
/// default minimum; one that names a minimum opens it at that minimum. The
/// new auction starts with no leader, and its response reports the minimum.
pub proof fn law_deposit_min_bid(
    old: State,
    new: State,
    env: Env,
    info: MessageInfo,
    m: Cw721ReceiveMsg,
    start_time: u64,
    end_time: u64,
    min_bid: Option<u64>,
    r: Result<Response, ContractError>,
)
    requires
        old.wf(),
        execute_post(old, new, env, info, ExecuteMsg::ReceiveNft(m), r),
        m.msg == Some(ReceiveNftAction::DepositMega { start_time, end_time, min_bid }),
        r is Ok,
    ensures
        new.auctions@.len() == old.auctions@.len() + 1,
        new.auctions@.last().auction_id == old.next_auction_id,
        min_bid is None ==> new.auctions@.last().min_bid == old.config.default_min_bid,
        min_bid matches Some(v) ==> new.auctions@.last().min_bid == v,
        new.auctions@.last().min_bid >= 1,
        new.auctions@.last().highest_bidder is None,
        new.auctions@.last().highest_bid_count == 0,
        new.auctions@.last().total_bidders == 0,
        new.auctions@.last().status == AuctionStatus::Active,
        new.auctions@.last().start_time == start_time,
        new.auctions@.last().end_time == end_time,
        new.auctions@.last().original_end_time == end_time,
        start_time < end_time,
        new.auctions@.last().mega_token_id == m.token_id,
        m.sender == Ok::<String, cosmwasm_std::StdError>(new.auctions@.last().depositor),
        new.auctions@.last().depositor@ == old.config.admin@,
        info.sender@ == old.config.mega_mad_scientist_collection@,
        forall|i: int|
            0 <= i < old.active_mega_auctions@.len() ==> (#[trigger] old.active_mega_auctions@[i]).token_id@
                != m.token_id@,
        new.active_mega_auctions@ == old.active_mega_auctions@.push(
            TokenLock { token_id: m.token_id, auction_id: old.next_auction_id },
        ),
        new.config == old.config,
        r matches Ok(res) && res.attrs().len() == 7 && res.attrs()[6] == (
            "min_bid"@,
            decimal(new.auctions@.last().min_bid as nat),
        ),
{
    lemma_lock_index(old.active_mega_auctions@, m.token_id@);
}

/// A bid that takes the lead (it reaches the minimum and beats the highest
/// count, or there is no leader yet, or its bidder already leads) makes its
/// bidder the leader at its new total; inside the anti-snipe window it moves
/// the end to `now + extension`, capped at the original end plus the maximum
/// extension and never earlier than the current end, and outside the window
/// the end stays. A bid that does not take the lead changes neither leader,
/// count nor end.
pub proof fn law_lead_and_extension(
    old: State,
    new: State,
    env: Env,
    info: MessageInfo,
    m: Cw721ReceiveMsg,
    bidder: String,
    auction_id: u64,
    r: Result<Response, ContractError>,
)
    requires
        old.wf(),
        execute_post(old, new, env, info, ExecuteMsg::ReceiveNft(m), r),
        m.sender == Ok::<String, cosmwasm_std::StdError>(bidder),
        m.msg == Some(ReceiveNftAction::Bid { auction_id }),
        r is Ok,
    ensures
        ({
            let a = old.auction(auction_id);
            let total = escrow_of(old, auction_id, bidder@).len() + 1;
            let now = env.block_time;
            let c = old.config;
            let na = new.auction(auction_id);
            let leads = total >= a.min_bid && (total > a.highest_bid_count || a.highest_bidder is None
                || (a.highest_bidder matches Some(h) && h@ == bidder@));
            let in_window = now + c.anti_snipe_window >= a.end_time && now <= a.end_time;
            &&& leads ==> na.highest_bidder == Some(bidder) && na.highest_bid_count == total
                && na.highest_bid_time == now
            &&& leads && in_window ==> na.end_time == vstd::math::max(
                a.end_time as int,
                vstd::math::min(
                    vstd::math::min(now + c.anti_snipe_extension, a.original_end_time + c.max_extension),
                    u64::MAX as int,
                ),
            )
            &&& !(leads && in_window) ==> na.end_time == a.end_time
            &&& !leads ==> na.highest_bidder == a.highest_bidder && na.highest_bid_count
                == a.highest_bid_count
            &&& na.original_end_time == a.original_end_time
        }),
{
}

/// An update of the settings changes exactly the settings it names, to the
/// values it names, and keeps every other setting and the rest of the state.
pub proof fn law_update_config_names_what_changes(
    old: State,
    new: State,
    env: Env,
    info: MessageInfo,
    default_min_bid: Option<u64>,
    anti_snipe_window: Option<u64>,
    anti_snipe_extension: Option<u64>,
    max_extension: Option<u64>,
    max_bidders_per_auction: Option<u64>,
    max_staging_size: Option<u64>,
    max_nfts_per_bid: Option<u64>,
    r: Result<Response, ContractError>,
)
    requires
        execute_post(
            old,
            new,
            env,
            info,
            ExecuteMsg::UpdateConfig {
                default_min_bid,
                anti_snipe_window,
                anti_snipe_extension,
                max_extension,
                max_bidders_per_auction,
                max_staging_size,
                max_nfts_per_bid,
            },
            r,
        ),
        r is Ok,
    ensures
        new.config.default_min_bid == (match default_min_bid {
            Some(v) => v,
            None => old.config.default_min_bid,
        }),
        new.config.anti_snipe_window == (match anti_snipe_window {
            Some(v) => v,
            None => old.config.anti_snipe_window,
        }),
        new.config.anti_snipe_extension == (match anti_snipe_extension {
            Some(v) => v,
            None => old.config.anti_snipe_extension,
        }),
        new.config.max_extension == (match max_extension {
            Some(v) => v,
            None => old.config.max_extension,
        }),
        new.config.max_bidders_per_auction == (match max_bidders_per_auction {
            Some(v) => v,
            None => old.config.max_bidders_per_auction,
        }),
        new.config.max_staging_size == (match max_staging_size {
            Some(v) => v,
            None => old.config.max_staging_size,
        }),
        new.config.max_nfts_per_bid == (match max_nfts_per_bid {
            Some(v) => v,
            None => old.config.max_nfts_per_bid,
        }),
        new.config.admin == old.config.admin,
        new.config.pending_admin == old.config.pending_admin,
        new.config.paused == old.config.paused,
        new.config.mad_scientist_collection == old.config.mad_scientist_collection,
        new.config.mega_mad_scientist_collection == old.config.mega_mad_scientist_collection,
        new == (State { config: new.config, ..old }),
{
}

/// A page of auctions holds only stored auctions, each after `start_after`
/// and, when a status is asked for, of that status, in rising identifier
/// order; it holds at most the limit asked for (30 when none is given, never
/// more than 100, and one when zero is asked for), and a page with room left
/// holds every such auction.
pub proof fn law_auction_page(
    s: State,
    status: Option<AuctionStatus>,
    start_after: Option<u64>,
    limit: Option<u32>,
    r: Result<QueryResponse, QueryError>,
)
    requires
        s.wf(),
        query_post(s, QueryMsg::GetAllAuctions { status, start_after, limit }, r),
    ensures
        r matches Ok(QueryResponse::Auctions(_)),
        r matches Ok(QueryResponse::Auctions(resp)) ==> forall|i: int|
            0 <= i < resp.auctions@.len() ==> exists|j: int|
                0 <= j < s.auctions@.len() && s.auctions@[j] == #[trigger] resp.auctions@[i],
        r matches Ok(QueryResponse::Auctions(resp)) ==> forall|i: int|
            0 <= i < resp.auctions@.len() ==> (status matches Some(st) ==> (
            #[trigger] resp.auctions@[i]).status == st),
        r matches Ok(QueryResponse::Auctions(resp)) ==> forall|i: int|
            0 <= i < resp.auctions@.len() ==> (start_after matches Some(k) ==> (
            #[trigger] resp.auctions@[i]).auction_id > k),
        r matches Ok(QueryResponse::Auctions(resp)) ==> forall|a: int, b: int|
            0 <= a < b < resp.auctions@.len() ==> (#[trigger] resp.auctions@[a]).auction_id < (
            #[trigger] resp.auctions@[b]).auction_id,
        r matches Ok(QueryResponse::Auctions(resp)) ==> resp.auctions@.len() <= MAX_LIMIT,
        r matches Ok(QueryResponse::Auctions(resp)) ==> (limit is None ==> resp.auctions@.len()
            <= DEFAULT_LIMIT),
        r matches Ok(QueryResponse::Auctions(resp)) ==> (limit matches Some(l) ==> resp.auctions@.len()
            <= l || resp.auctions@.len() <= 1),
        r matches Ok(QueryResponse::Auctions(resp)) ==> (resp.auctions@.len() < MAX_LIMIT && (limit
            is None ==> resp.auctions@.len() < DEFAULT_LIMIT) && (limit matches Some(l) ==> resp.auctions@.len()
            < l || resp.auctions@.len() == 0) ==> forall|j: int|
            0 <= j < s.auctions@.len() && (status matches Some(st) ==> s.auctions@[j].status == st) && (
            start_after matches Some(k) ==> s.auctions@[j].auction_id > k) ==> resp.auctions@.contains(
                #[trigger] s.auctions@[j],
            )),
{
    let a = s.auctions@;
    let sel = auctions_selected(a, status, start_after);
    lemma_auctions_selected_sound(a, status, start_after);
    assert forall|x: int, y: int| 0 <= x < y < a.len() implies (#[trigger] a[x]).auction_id < (
    #[trigger] a[y]).auction_id by {}
    lemma_auctions_selected_ordered(a, status, start_after);
    if let Ok(QueryResponse::Auctions(resp)) = r {
        let out = resp.auctions@;
        assert forall|i: int| 0 <= i < out.len() implies out[i] == sel[i] by {}
        assert forall|i: int| 0 <= i < out.len() implies exists|j: int|
            0 <= j < a.len() && a[j] == #[trigger] out[i] by {
            assert(out[i] == sel[i]);
        }
        assert forall|x: int, y: int| 0 <= x < y < out.len() implies (#[trigger] out[x]).auction_id < (
        #[trigger] out[y]).auction_id by {
            assert(out[x] == sel[x] && out[y] == sel[y]);
        }
        if out.len() < MAX_LIMIT && (limit is None ==> out.len() < DEFAULT_LIMIT) && (limit matches Some(
            l,
        ) ==> out.len() < l || out.len() == 0) {
            assert(out =~= sel);
            assert forall|j: int|
                0 <= j < a.len() && (status matches Some(st) ==> a[j].status == st) && (
                start_after matches Some(k) ==> a[j].auction_id > k) implies out.contains(
                #[trigger] a[j],
            ) by {
                lemma_auctions_selected_complete(a, status, start_after, j);
            }
        }
    }
}

/// Bid `b` is a copy of the stored entry `e`: same bidder, tokens and time.
pub open spec fn copies(b: Bid, e: BidEntry) -> bool {
    &&& b.bidder == e.bid.bidder
    &&& b.token_ids@ == e.bid.token_ids@
    &&& b.timestamp == e.bid.timestamp
}

/// Each bid of `out` copies an entry of `stored` kept under auction `id`.
pub open spec fn copies_of_stored(out: Seq<Bid>, stored: Seq<BidEntry>, id: u64) -> bool {
    forall|i: int|
        0 <= i < out.len() ==> exists|j: int|
            0 <= j < stored.len() && stored[j].auction_id == id && copies(#[trigger] out[i], stored[j])
}

/// `out` holds a copy of entry `e`.
pub open spec fn holds_copy(out: Seq<Bid>, e: BidEntry) -> bool {
    exists|i: int| 0 <= i < out.len() && copies(out[i], e)
}

proof fn lemma_page_copies(out: Seq<Bid>, sel: Seq<BidEntry>, stored: Seq<BidEntry>, id: u64, start: Option<Seq<char>>, n: nat)
    requires
        bids_page(out, sel, n),
        sel == bids_selected(stored, id, start),
    ensures
        copies_of_stored(out, stored, id),
        forall|i: int| 0 <= i < out.len() ==> (start matches Some(st) ==> str_lt(st, (#[trigger] out[i]).bidder@)),
        out.len() < n ==> forall|j: int|
            0 <= j < stored.len() && (#[trigger] stored[j]).auction_id == id && (start matches Some(st)
                ==> str_lt(st, stored[j].bid.bidder@)) ==> holds_copy(out, stored[j]),
{
    lemma_bids_selected_sound(stored, id, start);
    assert forall|i: int| 0 <= i < out.len() implies exists|j: int|
        0 <= j < stored.len() && stored[j].auction_id == id && copies(#[trigger] out[i], stored[j]) by {
        assert(bid_copy(out[i], sel[i]));
        let j = choose|j: int| 0 <= j < stored.len() && stored[j] == sel[i];
        assert(copies(out[i], stored[j]));
    }
    assert forall|i: int| 0 <= i < out.len() implies (start matches Some(st) ==> str_lt(st, (#[trigger] out[i]).bidder@)) by {
        assert(bid_copy(out[i], sel[i]));
    }
    if out.len() < n {
        assert forall|j: int|
            0 <= j < stored.len() && (#[trigger] stored[j]).auction_id == id && (start matches Some(st)
                ==> str_lt(st, stored[j].bid.bidder@)) implies holds_copy(out, stored[j]) by {
            lemma_bids_selected_complete(stored, id, start, j);
            let k = choose|k: int| 0 <= k < sel.len() && sel[k] == stored[j];
            assert(bid_copy(out[k], sel[k]));
            assert(copies(out[k], stored[j]));
        }
    }
}

/// A page of bids on auction `auction_id` holds only copies of bids stored
/// under that auction, each by a bidder after `start_after`; it holds at most
/// the limit asked for (30 when none is given, never more than 100), and a
/// page with room left holds a copy of every such bid.
pub proof fn law_bid_page(
    s: State,
    auction_id: u64,
    start_after: Option<String>,
    limit: Option<u32>,
    r: Result<QueryResponse, QueryError>,
)
    requires
        s.wf(),
        query_post(
            s,
            QueryMsg::GetBids {
                auction_id,
                start_after: match start_after {
                    Some(a) => Some(Ok::<String, cosmwasm_std::StdError>(a)),
                    None => None,
                },
                limit,
            },
            r,
        ),
    ensures
        r matches Ok(QueryResponse::Bids(_)),
        r matches Ok(QueryResponse::Bids(resp)) ==> copies_of_stored(resp.bids@, s.bids@, auction_id),
        r matches Ok(QueryResponse::Bids(resp)) ==> forall|i: int|
            0 <= i < resp.bids@.len() ==> (start_after matches Some(st) ==> str_lt(
                st@,
                (#[trigger] resp.bids@[i]).bidder@,
            )),
        r matches Ok(QueryResponse::Bids(resp)) ==> resp.bids@.len() <= MAX_LIMIT,
        r matches Ok(QueryResponse::Bids(resp)) ==> (limit is None ==> resp.bids@.len() <= DEFAULT_LIMIT),
        r matches Ok(QueryResponse::Bids(resp)) ==> (limit matches Some(l) ==> resp.bids@.len() <= l),
        r matches Ok(QueryResponse::Bids(resp)) ==> (resp.bids@.len() < MAX_LIMIT && (limit is None
            ==> resp.bids@.len() < DEFAULT_LIMIT) && (limit matches Some(l) ==> resp.bids@.len() < l)
            ==> forall|j: int|
            0 <= j < s.bids@.len() && (#[trigger] s.bids@[j]).auction_id == auction_id && (
            start_after matches Some(st) ==> str_lt(st@, s.bids@[j].bid.bidder@)) ==> holds_copy(
                resp.bids@,
                s.bids@[j],
            )),
{
    let st = match start_after {
        Some(a) => Some(a@),
        None => None,
    };
    if let Ok(QueryResponse::Bids(resp)) = r {
        let sel = bids_selected(s.bids@, auction_id, st);
        lemma_page_copies(resp.bids@, sel, s.bids@, auction_id, st, page_size(limit));
    }
}

/// The answer about one auction holds that auction and copies of bids stored
/// under it alone, at most 100 of them, and every such bid when fewer; a
/// missing auction is answered `AuctionNotFound`.
pub proof fn law_auction_answer(s: State, auction_id: u64, r: Result<QueryResponse, QueryError>)
    requires
        s.wf(),
        query_post(s, QueryMsg::GetAuction { auction_id }, r),
    ensures
        !(1 <= auction_id <= s.auctions@.len()) ==> r == Err::<QueryResponse, QueryError>(
            QueryError::AuctionNotFound { auction_id },
        ),
        1 <= auction_id <= s.auctions@.len() ==> (r matches Ok(QueryResponse::Auction(resp))
            && resp.auction == s.auctions@[auction_id - 1] && resp.auction.auction_id == auction_id),
        r matches Ok(QueryResponse::Auction(resp)) ==> copies_of_stored(resp.bids@, s.bids@, auction_id),
        r matches Ok(QueryResponse::Auction(resp)) ==> resp.bids@.len() <= MAX_LIMIT,
        r matches Ok(QueryResponse::Auction(resp)) ==> (resp.bids@.len() < MAX_LIMIT ==> forall|j: int|
            0 <= j < s.bids@.len() && (#[trigger] s.bids@[j]).auction_id == auction_id ==> holds_copy(
                resp.bids@,
                s.bids@[j],
            )),
{
    if let Ok(QueryResponse::Auction(resp)) = r {
        let sel = bids_selected(s.bids@, auction_id, None);
        lemma_page_copies(resp.bids@, sel, s.bids@, auction_id, None, MAX_LIMIT as nat);
    }
}

/// A swap that goes through exchanges the sender's staged tokens 1:1 for the
/// requested ones: as many were requested as were staged, each requested
/// token was in the pool, none twice and none among the staged; afterwards
/// the pool holds exactly what it held plus the staged tokens, less the
/// requested ones, the sender has nothing staged, and each requested token is
/// sent to the sender, in the order requested.
pub proof fn law_swap_exchange(
    old: State,
    new: State,
    env: Env,
    info: MessageInfo,
    requested_ids: Vec<String>,
    r: Result<Response, ContractError>,
)
    requires
        old.wf(),
        execute_post(old, new, env, info, ExecuteMsg::ClaimSwap { requested_ids }, r),
        r is Ok,
    ensures
        staged_of(old, info.sender@).len() == requested_ids@.len(),
        requested_ids@.len() > 0,
        forall|i: int| 0 <= i < requested_ids@.len() ==> has_str(old.pool@, (#[trigger] requested_ids@[i])@),
        forall|i: int| 0 <= i < requested_ids@.len() ==> !has_str(
            staged_of(old, info.sender@),
            (#[trigger] requested_ids@[i])@,
        ),
        forall|i: int, j: int|
            0 <= i < requested_ids@.len() && 0 <= j < requested_ids@.len() && i != j ==> (
            #[trigger] requested_ids@[i])@ != (#[trigger] requested_ids@[j])@,
        forall|x: Seq<char>|
            #[trigger] has_str(new.pool@, x) <==> ((has_str(old.pool@, x) || has_str(
                staged_of(old, info.sender@),
                x,
            )) && !has_str(requested_ids@, x)),
        staged_of(new, info.sender@).len() == 0,
        new.bids == old.bids,
        new.auctions == old.auctions,
        r matches Ok(res) && res.transfers().len() == requested_ids@.len() && forall|i: int|
            0 <= i < requested_ids@.len() ==> #[trigger] res.transfers()[i] == (
                old.config.mad_scientist_collection@,
                info.sender@,
                requested_ids@[i]@,
            ),
{
    let req = requested_ids@;
    let staged = staged_of(old, info.sender@);
    let si = staging_index(old.swap_staging@, info.sender@);
    lemma_staging_index(old.swap_staging@, info.sender@);
    lemma_first_repeat_none(req);
    lemma_first_shared_none(req, staged);
    lemma_first_missing_none(req, old.pool@);
    lemma_pool_with_all(old.pool@, staged);
    lemma_pool_without_all(pool_with_all(old.pool@, staged), req);
    let ns = new.swap_staging@;
    lemma_staging_index(ns, info.sender@);
    let k = staging_index(ns, info.sender@);
    if k >= 0 {
        let k0 = if k < si {
            k
        } else {
            k + 1
        };
        assert(ns[k] == old.swap_staging@[k0]);
        assert(false);
    }
}

/// A bid goes through only on an active auction that has started and not
/// yet ended, sent by the Standard collection while the contract is not
/// paused, for a token escrowed nowhere yet, by a bidder under the per-bidder
/// cap, and, for a first bid, while the auction has room for another bidder.
/// It adds exactly that token to the bidder's escrow, locks it to the
/// auction, and counts a first bid as a new bidder.
pub proof fn law_bid_escrows_token(
    old: State,
    new: State,
    env: Env,
    info: MessageInfo,
    m: Cw721ReceiveMsg,
    bidder: String,
    auction_id: u64,
    r: Result<Response, ContractError>,
)
    requires
        old.wf(),
        new.wf(),
        execute_post(old, new, env, info, ExecuteMsg::ReceiveNft(m), r),
        m.sender == Ok::<String, cosmwasm_std::StdError>(bidder),
        m.msg == Some(ReceiveNftAction::Bid { auction_id }),
        r is Ok,
    ensures
        !old.config.paused,
        info.sender@ == old.config.mad_scientist_collection@,
        1 <= auction_id <= old.auctions@.len(),
        old.auctions@[auction_id - 1].status == AuctionStatus::Active,
        old.auctions@[auction_id - 1].start_time <= env.block_time < old.auctions@[auction_id - 1].end_time,
        forall|i: int|
            0 <= i < old.escrowed_bid_tokens@.len() ==> (#[trigger] old.escrowed_bid_tokens@[i]).token_id@
                != m.token_id@,
        escrow_of(old, auction_id, bidder@).len() < old.config.max_nfts_per_bid,
        escrow_of(old, auction_id, bidder@).len() == 0 ==> old.auctions@[auction_id - 1].total_bidders
            < old.config.max_bidders_per_auction,
        escrow_of(new, auction_id, bidder@) == escrow_of(old, auction_id, bidder@).push(m.token_id),
        forall|id2: u64, who: Seq<char>|
            !(id2 == auction_id && who == bidder@) ==> #[trigger] escrow_of(new, id2, who) == escrow_of(
                old,
                id2,
                who,
            ),
        new.escrowed_bid_tokens@ == old.escrowed_bid_tokens@.push(
            TokenLock { token_id: m.token_id, auction_id },
        ),
        new.auctions@[auction_id - 1].total_bidders == old.auctions@[auction_id - 1].total_bidders + if escrow_of(
            old,
            auction_id,
            bidder@,
        ).len() == 0 {
            1int
        } else {
            0int
        },
        new.pool == old.pool,
        new.pool_size == old.pool_size,
{
    let tokens = escrow_of(old, auction_id, bidder@).push(m.token_id);
    lemma_escrow_after_bid(old, new, auction_id, bidder@, tokens, env.block_time);
    lemma_lock_index(old.escrowed_bid_tokens@, m.token_id@);
}

/// A page of the pool holds only pool tokens after `start_after`, in
/// strictly rising token order; it holds at most the limit asked for (30
/// when none is given, never more than 100), and a page with room left holds
/// every such token.
pub proof fn law_pool_page(
    s: State,
    start_after: Option<String>,
    limit: Option<u32>,
    r: Result<QueryResponse, QueryError>,
)
    requires
        s.wf(),
        query_post(s, QueryMsg::GetPoolContents { start_after, limit }, r),
    ensures
        r matches Ok(QueryResponse::PoolContents(_)),
        r matches Ok(QueryResponse::PoolContents(resp)) ==> forall|i: int|
            0 <= i < resp.token_ids@.len() ==> has_str(s.pool@, (#[trigger] resp.token_ids@[i])@),
        r matches Ok(QueryResponse::PoolContents(resp)) ==> forall|i: int|
            0 <= i < resp.token_ids@.len() ==> (start_after matches Some(st) ==> str_lt(
                st@,
                (#[trigger] resp.token_ids@[i])@,
            )),
        r matches Ok(QueryResponse::PoolContents(resp)) ==> forall|a: int, b: int|
            0 <= a < b < resp.token_ids@.len() ==> str_lt(
                (#[trigger] resp.token_ids@[a])@,
                (#[trigger] resp.token_ids@[b])@,
            ),
        r matches Ok(QueryResponse::PoolContents(resp)) ==> resp.token_ids@.len() <= MAX_LIMIT,
        r matches Ok(QueryResponse::PoolContents(resp)) ==> (limit is None ==> resp.token_ids@.len()
            <= DEFAULT_LIMIT),
        r matches Ok(QueryResponse::PoolContents(resp)) ==> (limit matches Some(l) ==> resp.token_ids@.len()
            <= l),
        r matches Ok(QueryResponse::PoolContents(resp)) ==> (resp.token_ids@.len() < MAX_LIMIT && (limit
            is None ==> resp.token_ids@.len() < DEFAULT_LIMIT) && (limit matches Some(l)
            ==> resp.token_ids@.len() < l) ==> forall|j: int|
            0 <= j < s.pool@.len() && (start_after matches Some(st) ==> str_lt(
                st@,
                (#[trigger] s.pool@[j])@,
            )) ==> has_str(resp.token_ids@, s.pool@[j]@)),
{
    let st = match start_after {
        Some(a) => Some(a@),
        None => None,
    };
    let sel = tokens_selected(s.pool@, st);
    lemma_tokens_selected_sound(s.pool@, st);
    if let Ok(QueryResponse::PoolContents(resp)) = r {
        let out = resp.token_ids@;
        assert forall|i: int| 0 <= i < out.len() implies has_str(s.pool@, (#[trigger] out[i])@) by {
            assert(out[i] == sel[i]);
            let j = choose|j: int| 0 <= j < s.pool@.len() && s.pool@[j] == sel[i];
            assert(s.pool@[j]@ == out[i]@);
        }
        assert forall|i: int| 0 <= i < out.len() implies (start_after matches Some(st) ==> str_lt(
            st@,
            (#[trigger] out[i])@,
        )) by {
            assert(out[i] == sel[i]);
        }
        assert forall|a: int, b: int| 0 <= a < b < out.len() implies str_lt(
            (#[trigger] out[a])@,
            (#[trigger] out[b])@,
        ) by {
            assert(out[a] == sel[a] && out[b] == sel[b]);
        }
        if out.len() < MAX_LIMIT && (limit is None ==> out.len() < DEFAULT_LIMIT) && (limit matches Some(
            l,
        ) ==> out.len() < l) {
            assert(out =~= sel);
            assert forall|j: int|
                0 <= j < s.pool@.len() && (start_after matches Some(st) ==> str_lt(
                    st@,
                    (#[trigger] s.pool@[j])@,
                )) implies has_str(out, s.pool@[j]@) by {
                lemma_tokens_selected_complete(s.pool@, st, j);
                let k = choose|k: int| 0 <= k < sel.len() && sel[k] == s.pool@[j];
                assert(out[k]@ == s.pool@[j]@);
            }
        }
    }
}

/// Settings within their bounds: every minimum and limit at least one and
/// at most its cap, and an anti-snipe extension no longer than the total
/// extension allowed.
pub open spec fn settings_valid(c: Config) -> bool {
    &&& c.default_min_bid >= 1
    &&& 1 <= c.anti_snipe_window <= 86_400
    &&& 1 <= c.anti_snipe_extension <= 86_400
    &&& 1 <= c.max_extension <= 604_800
    &&& c.anti_snipe_extension <= c.max_extension
    &&& 1 <= c.max_bidders_per_auction <= 1_000
    &&& 1 <= c.max_staging_size <= 1_000
    &&& 1 <= c.max_nfts_per_bid <= 1_000
}

/// Instantiation takes each setting the message gives and the default for
/// each one it leaves out (minimum bid 1, window 300, extension 300, total
/// extension 86400, 100 bidders, 50 staged, 50 per bidder); the admin is the
/// one named, else the sender; nothing is paused or pending, and the
/// settings are within their bounds.
pub proof fn law_instantiate_settings(
    info: MessageInfo,
    msg: crate::msg::InstantiateMsg,
    r: Result<(State, Response), ContractError>,
)
    requires
        instantiate_post(info, msg, r),
        r is Ok,
    ensures
        r->Ok_0.0.config.default_min_bid == (match msg.default_min_bid {
            Some(v) => v,
            None => 1,
        }),
        r->Ok_0.0.config.anti_snipe_window == (match msg.anti_snipe_window {
            Some(v) => v,
            None => 300,
        }),
        r->Ok_0.0.config.anti_snipe_extension == (match msg.anti_snipe_extension {
            Some(v) => v,
            None => 300,
        }),
        r->Ok_0.0.config.max_extension == (match msg.max_extension {
            Some(v) => v,
            None => 86400,
        }),
        r->Ok_0.0.config.max_bidders_per_auction == (match msg.max_bidders_per_auction {
            Some(v) => v,
            None => 100,
        }),
        r->Ok_0.0.config.max_staging_size == (match msg.max_staging_size {
            Some(v) => v,
            None => 50,
        }),
        r->Ok_0.0.config.max_nfts_per_bid == (match msg.max_nfts_per_bid {
            Some(v) => v,
            None => 50,
        }),
        r->Ok_0.0.config.admin == (match msg.admin {
            Some(Ok(a)) => a,
            _ => info.sender,
        }),
        msg.mad_scientist_collection == Ok::<String, cosmwasm_std::StdError>(
            r->Ok_0.0.config.mad_scientist_collection,
        ),
        msg.mega_mad_scientist_collection == Ok::<String, cosmwasm_std::StdError>(
            r->Ok_0.0.config.mega_mad_scientist_collection,
        ),
        r->Ok_0.0.config.mad_scientist_collection@ != r->Ok_0.0.config.mega_mad_scientist_collection@,
        !r->Ok_0.0.config.paused,
        r->Ok_0.0.config.pending_admin is None,
        settings_valid(r->Ok_0.0.config),
{
}

/// No message puts a setting out of its bounds.
pub proof fn law_settings_stay_valid(
    old: State,
    new: State,
    env: Env,
    info: MessageInfo,
    msg: ExecuteMsg,
    r: Result<Response, ContractError>,
)
    requires
        old.wf(),
        settings_valid(old.config),
        execute_post(old, new, env, info, msg, r),
    ensures
        settings_valid(new.config),
{
}

/// Finalizing or cancelling an auction frees its Cosmic token for a new
/// auction and leaves every other Cosmic token's lock as it was.
pub proof fn law_closing_frees_mega(
    old: State,
    new: State,
    env: Env,
    info: MessageInfo,
    msg: ExecuteMsg,
    auction_id: u64,
    r: Result<Response, ContractError>,
)
    requires
        old.wf(),
        msg == (ExecuteMsg::FinalizeAuction { auction_id }) || msg == (ExecuteMsg::CancelAuction {
            auction_id,
        }),
        execute_post(old, new, env, info, msg, r),
        r is Ok,
    ensures
        forall|i: int|
            0 <= i < new.active_mega_auctions@.len() ==> (#[trigger] new.active_mega_auctions@[i]).token_id@
                != old.auction(auction_id).mega_token_id@,
        forall|t: Seq<char>|
            t != old.auction(auction_id).mega_token_id@ ==> #[trigger] lock_of(new.active_mega_auctions@, t)
                == lock_of(old.active_mega_auctions@, t),
{
    let mega = old.auction(auction_id).mega_token_id@;
    lemma_lock_of_without(old.active_mega_auctions@, mega);
    lemma_lock_index(new.active_mega_auctions@, mega);
    assert forall|i: int| 0 <= i < new.active_mega_auctions@.len() implies (
    #[trigger] new.active_mega_auctions@[i]).token_id@ != mega by {
        if new.active_mega_auctions@[i].token_id@ == mega {
            assert(lock_of(new.active_mega_auctions@, mega) is Some);
        }
    }
}

} // verus!
