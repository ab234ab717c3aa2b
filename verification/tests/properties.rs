// Properties the contract keeps, checked on concrete runs, and the edge
// cases and error answers of each message.

use cosmwasm_std::testing::MockApi;
use cosmwasm_std::Api;

use mega_mad_scientist::contract::{
    execute, instantiate, migrate, query, validate_anti_snipe_config, validate_bounded_positive, within_limits,
    CONTRACT_NAME, CONTRACT_VERSION,
};
use mega_mad_scientist::env::{Coin, ContractVersion, Env, MessageInfo, Response};
use mega_mad_scientist::error::{ContractError, QueryError};
use mega_mad_scientist::msg::{
    CheckedAddr, Cw721ReceiveMsg, ExecuteMsg, InstantiateMsg, MigrateMsg, QueryMsg, QueryResponse,
    ReceiveNftAction,
};
use mega_mad_scientist::state::{AuctionStatus, State};

const ADMIN: &str = "cosmwasm1335hded4gyzpt00fpz75mms4m7ck02wgw07yhw9grahj4dzg4yvqysvwql";
const ALICE: &str = "cosmwasm1ypwq4qs278keswt2xhlwxhg99ntevk3h04f05w84528yvjq05yaqhtcy3x";
const BOB: &str = "cosmwasm1p2hhywks3stcsthk0gznrv6xm53txcs76yxyndzapenlqpq98xqqlqwjd3";
const CAROL: &str = "cosmwasm1p6vhhx6ua7qjl33lk69jws524da930z7wtxsm354dttx6jkuym3szv7lm6";
const MAD: &str = "cosmwasm1um0dcwqv0vf2anhva7pgraye9l6g8s4zf9y94gqd2e9scnludwmqexwpsw";
const MEGA: &str = "cosmwasm1xf7mf3kfl3sq3py0ey92lwfp3d6nn5v082kmejk6g7adxr6frsnsxmnl3k";

fn addr(a: &str) -> CheckedAddr {
    MockApi::default().addr_validate(a).map(|x| x.to_string())
}

fn info(sender: &str) -> MessageInfo {
    MessageInfo { sender: sender.to_string(), funds: vec![] }
}

fn at(t: u64) -> Env {
    Env { block_time: t }
}

fn settings(min_bid: u64, max_bidders: u64, max_staging: u64, max_nfts: u64) -> InstantiateMsg {
    InstantiateMsg {
        admin: Some(addr(ADMIN)),
        mad_scientist_collection: addr(MAD),
        mega_mad_scientist_collection: addr(MEGA),
        default_min_bid: Some(min_bid),
        anti_snipe_window: Some(300),
        anti_snipe_extension: Some(300),
        max_extension: Some(86400),
        max_bidders_per_auction: Some(max_bidders),
        max_staging_size: Some(max_staging),
        max_nfts_per_bid: Some(max_nfts),
    }
}

fn fresh() -> State {
    instantiate(&at(1000), &info(ADMIN), settings(1, 100, 50, 50)).unwrap().0
}

fn run(s: &mut State, t: u64, sender: &str, msg: ExecuteMsg) -> Result<Response, ContractError> {
    let mut next = s.clone();
    let r = execute(&mut next, &at(t), &info(sender), msg);
    if r.is_ok() {
        *s = next;
    } else {
        // A refused message leaves the state as it was.
        assert_eq!(next, *s);
    }
    r
}

fn hook(sender: &str, token: &str, action: Option<ReceiveNftAction>) -> ExecuteMsg {
    ExecuteMsg::ReceiveNft(Cw721ReceiveMsg { sender: addr(sender), token_id: token.to_string(), msg: action })
}

fn deposit_mega(s: &mut State, token: &str, start: u64, end: u64, min_bid: Option<u64>) -> Result<Response, ContractError> {
    run(s, start, MEGA, hook(ADMIN, token, Some(ReceiveNftAction::DepositMega { start_time: start, end_time: end, min_bid })))
}

fn bid(s: &mut State, t: u64, who: &str, token: &str, auction_id: u64) -> Result<Response, ContractError> {
    run(s, t, MAD, hook(who, token, Some(ReceiveNftAction::Bid { auction_id })))
}

fn stage(s: &mut State, who: &str, token: &str) -> Result<Response, ContractError> {
    run(s, 5000, MAD, hook(who, token, Some(ReceiveNftAction::SwapDeposit)))
}

fn attrs(res: &Response) -> Vec<(String, String)> {
    res.attributes.iter().map(|a| (a.key.clone(), a.value.clone())).collect()
}

fn pair(k: &str, v: &str) -> (String, String) {
    (k.to_string(), v.to_string())
}

fn escrowed_count(s: &State, auction_id: u64, who: &str) -> u64 {
    s.bids
        .iter()
        .find(|e| e.auction_id == auction_id && e.bid.bidder == who)
        .map(|e| e.bid.token_ids.len() as u64)
        .unwrap_or(0)
}

/// The escrow locks name exactly the escrowed tokens, each once.
fn assert_escrow_agrees(s: &State) {
    let mut escrowed: Vec<(String, u64)> = vec![];
    for e in &s.bids {
        for t in &e.bid.token_ids {
            escrowed.push((t.clone(), e.auction_id));
        }
    }
    let mut locks: Vec<(String, u64)> = s.escrowed_bid_tokens.iter().map(|l| (l.token_id.clone(), l.auction_id)).collect();
    escrowed.sort();
    locks.sort();
    let mut unique = escrowed.clone();
    unique.dedup_by(|a, b| a.0 == b.0);
    assert_eq!(unique.len(), escrowed.len(), "a token is escrowed twice");
    assert_eq!(escrowed, locks);
}

/// Pool counter and pool agree, and every held token is held once.
fn assert_pool_accounted(s: &State) {
    assert_eq!(s.pool_size, s.pool.len() as u64);
    let mut held: Vec<String> = s.pool.clone();
    for st in &s.swap_staging {
        held.extend(st.token_ids.iter().cloned());
    }
    for e in &s.bids {
        held.extend(e.bid.token_ids.iter().cloned());
    }
    let n = held.len();
    held.sort();
    held.dedup();
    assert_eq!(held.len(), n, "a token is held twice");
}

/// Every active auction's leader holds the most tokens and at least the minimum.
fn assert_leaders_agree(s: &State) {
    for a in s.auctions.iter().filter(|a| a.status == AuctionStatus::Active) {
        let counts: Vec<u64> = s.bids.iter().filter(|e| e.auction_id == a.auction_id).map(|e| e.bid.token_ids.len() as u64).collect();
        match &a.highest_bidder {
            Some(w) => {
                assert!(a.highest_bid_count >= a.min_bid);
                assert_eq!(escrowed_count(s, a.auction_id, w), a.highest_bid_count);
                assert!(counts.iter().all(|c| *c <= a.highest_bid_count));
            }
            None => {
                assert_eq!(a.highest_bid_count, 0);
                assert!(counts.iter().all(|c| *c < a.min_bid));
            }
        }
    }
}

fn assert_all_kept(s: &State) {
    assert_escrow_agrees(s);
    assert_pool_accounted(s);
    assert_leaders_agree(s);
}

fn next_rand(x: &mut u64) -> u64 {
    *x = x.wrapping_mul(6364136223846793005).wrapping_add(1442695040888963407);
    *x >> 33
}

// ═══════════════════════════════════════════════════════════════════════
// PROPERTIES ACROSS RUNS
// ═══════════════════════════════════════════════════════════════════════

/// The leader after a sequence of single-token bids, by the bidding rule:
/// meet the minimum and strictly exceed the highest, unless already leading.
fn expected_highest(steps: &[usize], min_bid: u64) -> (Option<usize>, u64) {
    let mut counts = [0_u64; 3];
    let mut highest: Option<usize> = None;
    let mut count = 0_u64;
    for &b in steps {
        counts[b] += 1;
        let total = counts[b];
        if total >= min_bid && (total > count || highest.is_none() || highest == Some(b)) {
            highest = Some(b);
            count = total;
        }
    }
    (highest, count)
}

#[test]
fn leader_follows_bidding_rule_and_escrow_clears() {
    let bidders = [ALICE, BOB, CAROL];
    let mut seed = 7_u64;
    for round in 0..24 {
        let min_bid = 1 + (round % 4) as u64;
        let mut s = instantiate(&at(1000), &info(ADMIN), settings(min_bid, 100, 50, 50)).unwrap().0;
        deposit_mega(&mut s, "mega_fuzz", 1000, 3000, Some(min_bid)).unwrap();
        let n = 1 + (next_rand(&mut seed) % 30) as usize;
        let mut steps = vec![];
        for i in 0..n {
            let b = (next_rand(&mut seed) % 3) as usize;
            let res = bid(&mut s, 1500, bidders[b], &format!("fuzz_{round}_{i}"), 1).unwrap();
            steps.push(b);
            let (winner, count) = expected_highest(&steps, min_bid);
            let a = &s.auctions[0];
            assert_eq!(a.highest_bid_count, count);
            assert_eq!(a.highest_bidder, winner.map(|w| bidders[w].to_string()));
            assert!(attrs(&res).contains(&pair("total_bid_count", &escrowed_count(&s, 1, bidders[b]).to_string())));
            assert_all_kept(&s);
        }
        let (winner, _) = expected_highest(&steps, min_bid);
        run(&mut s, 4000, ADMIN, ExecuteMsg::FinalizeAuction { auction_id: 1 }).unwrap();
        assert_all_kept(&s);
        let expected_pool = winner.map(|w| steps.iter().filter(|&&b| b == w).count() as u64).unwrap_or(0);
        assert_eq!(s.pool_size, expected_pool);
        for (i, who) in bidders.iter().enumerate() {
            let held = steps.iter().filter(|&&b| b == i).count();
            let r = run(&mut s, 4100, who, ExecuteMsg::WithdrawBid { auction_id: 1 });
            if winner == Some(i) || held == 0 {
                assert_eq!(r.unwrap_err(), ContractError::NothingToWithdraw { auction_id: 1 });
            } else {
                assert_eq!(r.unwrap().messages.len(), held);
            }
            // A second withdrawal finds nothing.
            let again = run(&mut s, 4200, who, ExecuteMsg::WithdrawBid { auction_id: 1 });
            assert_eq!(again.unwrap_err(), ContractError::NothingToWithdraw { auction_id: 1 });
        }
        assert!(s.bids.is_empty());
        assert!(s.escrowed_bid_tokens.is_empty());
        assert_all_kept(&s);
    }
}

#[test]
fn token_locks_hold_across_auctions() {
    let bidders = [ALICE, BOB, CAROL];
    let mut s = fresh();
    for i in 1..=3 {
        deposit_mega(&mut s, &format!("mega_{i}"), 1000, 3000, Some(1)).unwrap();
    }
    let mut seed = 99_u64;
    let mut model: Vec<(String, u64)> = vec![];
    for _ in 0..80 {
        let who = bidders[(next_rand(&mut seed) % 3) as usize];
        let auction_id = 1 + next_rand(&mut seed) % 3;
        let token = format!("shared_{}", next_rand(&mut seed) % 40);
        let r = bid(&mut s, 1600, who, &token, auction_id);
        match model.iter().find(|(t, _)| *t == token) {
            Some((_, locked)) if *locked != auction_id => assert_eq!(
                r.unwrap_err(),
                ContractError::TokenAlreadyEscrowedInAuction { token_id: token.clone(), auction_id: *locked }
            ),
            Some(_) => assert_eq!(r.unwrap_err(), ContractError::DuplicateTokenId { token_id: token.clone() }),
            None => {
                r.unwrap();
                model.push((token, auction_id));
            }
        }
        assert_all_kept(&s);
    }
    for auction_id in 1..=3 {
        run(&mut s, 4000, ADMIN, ExecuteMsg::FinalizeAuction { auction_id }).unwrap();
        assert_all_kept(&s);
    }
    for auction_id in 1..=3 {
        for who in bidders {
            let _ = run(&mut s, 4100, who, ExecuteMsg::WithdrawBid { auction_id });
            assert_all_kept(&s);
        }
    }
    // With every bid settled, no token stays locked.
    assert!(s.bids.is_empty());
    assert!(s.escrowed_bid_tokens.is_empty());
}

#[test]
fn swaps_keep_pool_size_and_holdings_apart() {
    let mut s = fresh();
    deposit_mega(&mut s, "mega_1", 1000, 3000, Some(1)).unwrap();
    for i in 0..6 {
        bid(&mut s, 1500, ALICE, &format!("won_{i}"), 1).unwrap();
    }
    run(&mut s, 4000, ADMIN, ExecuteMsg::FinalizeAuction { auction_id: 1 }).unwrap();
    assert_eq!(s.pool_size, 6);
    assert_all_kept(&s);
    for i in 0..3 {
        stage(&mut s, BOB, &format!("offered_{i}")).unwrap();
        assert_all_kept(&s);
    }
    let requested = vec!["won_5".to_string(), "won_0".to_string(), "won_3".to_string()];
    let res = run(&mut s, 5000, BOB, ExecuteMsg::ClaimSwap { requested_ids: requested.clone() }).unwrap();
    assert_all_kept(&s);
    assert_eq!(s.pool_size, 6);
    // The pool stays sorted and holds the offered tokens, not the requested ones.
    let mut sorted = s.pool.clone();
    sorted.sort();
    assert_eq!(s.pool, sorted);
    assert!(s.pool.contains(&"offered_1".to_string()));
    assert!(!s.pool.contains(&"won_3".to_string()));
    // Transfers go out in the requested order, to the swapper.
    let sent: Vec<String> = res.messages.iter().map(|m| m.token_id.clone()).collect();
    assert_eq!(sent, requested);
    assert!(res.messages.iter().all(|m| m.recipient == BOB && m.contract_addr == MAD));
    assert!(attrs(&res).contains(&pair("offered_ids", "offered_0,offered_1,offered_2")));
    assert!(attrs(&res).contains(&pair("requested_ids", "won_5,won_0,won_3")));
    assert!(attrs(&res).contains(&pair("timestamp", "5000")));
}

#[test]
fn finalizing_completes_when_the_last_loser_withdraws() {
    let mut s = fresh();
    deposit_mega(&mut s, "mega_1", 1000, 3000, Some(1)).unwrap();
    bid(&mut s, 1500, ALICE, "mad_1", 1).unwrap();
    bid(&mut s, 1600, BOB, "mad_2", 1).unwrap();
    bid(&mut s, 1700, CAROL, "mad_3", 1).unwrap();
    bid(&mut s, 1800, ALICE, "mad_4", 1).unwrap();
    run(&mut s, 4000, CAROL, ExecuteMsg::FinalizeAuction { auction_id: 1 }).unwrap();
    assert_eq!(s.auctions[0].status, AuctionStatus::Finalizing);
    // The winner's tokens went to the pool: nothing is left for the winner to withdraw.
    assert_eq!(
        run(&mut s, 4100, ALICE, ExecuteMsg::WithdrawBid { auction_id: 1 }).unwrap_err(),
        ContractError::NothingToWithdraw { auction_id: 1 }
    );
    run(&mut s, 4100, BOB, ExecuteMsg::WithdrawBid { auction_id: 1 }).unwrap();
    // One loser still has escrow.
    assert_eq!(s.auctions[0].status, AuctionStatus::Finalizing);
    run(&mut s, 4200, CAROL, ExecuteMsg::WithdrawBid { auction_id: 1 }).unwrap();
    assert_eq!(s.auctions[0].status, AuctionStatus::Completed);
    assert_eq!(
        run(&mut s, 4300, ADMIN, ExecuteMsg::ForceCompleteAuction { auction_id: 1 }).unwrap_err(),
        ContractError::NotFinalizing { auction_id: 1 }
    );
}

#[test]
fn finalizing_with_one_loser_completes_on_its_withdrawal() {
    let mut s = fresh();
    deposit_mega(&mut s, "mega_1", 1000, 3000, Some(1)).unwrap();
    bid(&mut s, 1500, ALICE, "mad_1", 1).unwrap();
    bid(&mut s, 1600, BOB, "mad_2", 1).unwrap();
    run(&mut s, 4000, ADMIN, ExecuteMsg::FinalizeAuction { auction_id: 1 }).unwrap();
    assert_eq!(s.auctions[0].status, AuctionStatus::Finalizing);
    let res = run(&mut s, 4100, BOB, ExecuteMsg::WithdrawBid { auction_id: 1 }).unwrap();
    assert_eq!(res.messages.len(), 1);
    assert_eq!(s.auctions[0].status, AuctionStatus::Completed);
    assert_eq!(s.auctions[0].highest_bidder, Some(ALICE.to_string()));
}

#[test]
fn auction_statuses_only_move_forward() {
    let mut s = fresh();
    deposit_mega(&mut s, "mega_1", 1000, 3000, Some(1)).unwrap();
    deposit_mega(&mut s, "mega_2", 1000, 3000, Some(1)).unwrap();
    bid(&mut s, 1500, ALICE, "mad_1", 1).unwrap();
    run(&mut s, 1500, ADMIN, ExecuteMsg::CancelAuction { auction_id: 2 }).unwrap();
    assert_eq!(s.auctions[1].status, AuctionStatus::Cancelled);
    // A cancelled auction cannot be finalized, cancelled again or force-completed.
    assert_eq!(
        run(&mut s, 4000, ADMIN, ExecuteMsg::FinalizeAuction { auction_id: 2 }).unwrap_err(),
        ContractError::AuctionNotActive { auction_id: 2 }
    );
    assert_eq!(
        run(&mut s, 4000, ADMIN, ExecuteMsg::CancelAuction { auction_id: 2 }).unwrap_err(),
        ContractError::AuctionNotActive { auction_id: 2 }
    );
    assert_eq!(
        run(&mut s, 4000, ADMIN, ExecuteMsg::ForceCompleteAuction { auction_id: 2 }).unwrap_err(),
        ContractError::NotFinalizing { auction_id: 2 }
    );
    run(&mut s, 4000, ADMIN, ExecuteMsg::FinalizeAuction { auction_id: 1 }).unwrap();
    assert_eq!(s.auctions[0].status, AuctionStatus::Finalizing);
    assert_eq!(
        run(&mut s, 4100, ADMIN, ExecuteMsg::FinalizeAuction { auction_id: 1 }).unwrap_err(),
        ContractError::AuctionNotActive { auction_id: 1 }
    );
    run(&mut s, 4100, ADMIN, ExecuteMsg::ForceCompleteAuction { auction_id: 1 }).unwrap();
    assert_eq!(s.auctions[0].status, AuctionStatus::Completed);
    // A late bid is refused once the auction is no longer active.
    assert_eq!(bid(&mut s, 2000, BOB, "mad_2", 1).unwrap_err(), ContractError::AuctionNotActive { auction_id: 1 });
}

#[test]
fn cosmic_token_can_be_auctioned_again_after_its_auction_closes() {
    let mut s = fresh();
    deposit_mega(&mut s, "mega_1", 1000, 3000, Some(1)).unwrap();
    assert_eq!(
        deposit_mega(&mut s, "mega_1", 1000, 4000, None).unwrap_err(),
        ContractError::DuplicateMegaAuction { token_id: "mega_1".to_string(), auction_id: 1 }
    );
    run(&mut s, 3000, ADMIN, ExecuteMsg::FinalizeAuction { auction_id: 1 }).unwrap();
    assert!(s.active_mega_auctions.is_empty());
    let res = deposit_mega(&mut s, "mega_1", 5000, 9000, None).unwrap();
    assert!(attrs(&res).contains(&pair("auction_id", "2")));
    assert_eq!(s.active_mega_auctions.len(), 1);
    assert_eq!(s.active_mega_auctions[0].auction_id, 2);
}

#[test]
fn anti_snipe_never_passes_the_cap_nor_shortens() {
    // Extension shorter than the window: a bid early in the window keeps the end where it is.
    let msg = InstantiateMsg { anti_snipe_window: Some(600), anti_snipe_extension: Some(100), max_extension: Some(200), ..settings(1, 100, 50, 50) };
    let mut s = instantiate(&at(1000), &info(ADMIN), msg).unwrap().0;
    deposit_mega(&mut s, "mega_1", 1000, 5000, Some(1)).unwrap();
    let res = bid(&mut s, 4600, ALICE, "mad_1", 1).unwrap();
    assert!(attrs(&res).contains(&pair("new_end_time", "5000")));
    let res = bid(&mut s, 4650, BOB, "mad_2", 1).unwrap();
    // A bid that does not lead leaves the end alone.
    assert!(attrs(&res).contains(&pair("is_highest", "false")));
    assert!(attrs(&res).contains(&pair("new_end_time", "5000")));
    for (i, t) in [4680_u64, 4690].iter().enumerate() {
        let who = if i % 2 == 0 { BOB } else { ALICE };
        bid(&mut s, *t, who, &format!("mad_x{i}"), 1).unwrap();
        assert!(s.auctions[0].end_time >= 5000);
        assert!(s.auctions[0].end_time <= 5200);
    }
    // Close to the cap: the end is capped at original end plus the maximum extension.
    let msg = InstantiateMsg { max_extension: Some(50), anti_snipe_extension: Some(50), ..settings(1, 100, 50, 50) };
    let mut s = instantiate(&at(1000), &info(ADMIN), msg).unwrap().0;
    deposit_mega(&mut s, "mega_1", 1000, 5000, Some(1)).unwrap();
    bid(&mut s, 5000 - 1, ALICE, "mad_1", 1).unwrap();
    assert_eq!(s.auctions[0].end_time, 5049);
    bid(&mut s, 5040, BOB, "mad_2", 1).unwrap();
    bid(&mut s, 5045, BOB, "mad_3", 1).unwrap();
    assert_eq!(s.auctions[0].end_time, 5050);
    assert_eq!(s.auctions[0].original_end_time, 5000);
}

#[test]
fn anti_snipe_early_in_a_wide_window_keeps_the_end() {
    let msg = InstantiateMsg { anti_snipe_window: Some(600), anti_snipe_extension: Some(120), ..settings(1, 100, 50, 50) };
    let mut s = instantiate(&at(1000), &info(ADMIN), msg).unwrap().0;
    deposit_mega(&mut s, "mega_1", 1000, 5000, Some(1)).unwrap();
    let res = bid(&mut s, 4500, ALICE, "mad_1", 1).unwrap();
    assert!(attrs(&res).contains(&pair("is_highest", "true")));
    assert!(attrs(&res).contains(&pair("new_end_time", "5000")));
    assert_eq!(s.auctions[0].end_time, 5000);
    // Late in the window a new lead extends the end.
    let res = bid(&mut s, 4940, BOB, "mad_2", 1).unwrap();
    assert!(attrs(&res).contains(&pair("is_highest", "false")));
    let res = bid(&mut s, 4950, BOB, "mad_3", 1).unwrap();
    assert!(attrs(&res).contains(&pair("new_end_time", "5070")));
    assert_eq!(s.auctions[0].end_time, 5070);
}

#[test]
fn admin_handover_moves_every_admin_power() {
    let mut s = fresh();
    deposit_mega(&mut s, "mega_1", 1000, 3000, Some(1)).unwrap();
    run(&mut s, 1100, ADMIN, ExecuteMsg::ProposeAdmin { new_admin: addr(ALICE) }).unwrap();
    // Until accepted, the old admin keeps every power.
    run(&mut s, 1150, ADMIN, ExecuteMsg::SetPaused { paused: false }).unwrap();
    run(&mut s, 1200, ALICE, ExecuteMsg::AcceptAdmin {}).unwrap();
    assert_eq!(s.config.admin, ALICE);
    assert_eq!(s.config.pending_admin, None);
    assert_eq!(run(&mut s, 1300, ADMIN, ExecuteMsg::SetPaused { paused: true }).unwrap_err(), ContractError::Unauthorized {});
    assert_eq!(
        run(&mut s, 1300, ADMIN, ExecuteMsg::CancelAuction { auction_id: 1 }).unwrap_err(),
        ContractError::Unauthorized {}
    );
    // Only the new admin may deposit a Cosmic now.
    assert_eq!(deposit_mega(&mut s, "mega_2", 1400, 3000, None).unwrap_err(), ContractError::Unauthorized {});
    let res = run(&mut s, 1400, MEGA, hook(ALICE, "mega_2", Some(ReceiveNftAction::DepositMega { start_time: 1400, end_time: 3000, min_bid: None })))
        .unwrap();
    assert!(attrs(&res).contains(&pair("depositor", ALICE)));
    // The next acceptance needs a new proposal.
    assert_eq!(run(&mut s, 1500, ALICE, ExecuteMsg::AcceptAdmin {}).unwrap_err(), ContractError::NoPendingAdmin {});
}

// ═══════════════════════════════════════════════════════════════════════
// RESPONSES, EXACTLY
// ═══════════════════════════════════════════════════════════════════════

#[test]
fn instantiate_reports_its_settings() {
    let (s, res) = instantiate(&at(1000), &info(CAROL), InstantiateMsg { admin: None, ..settings(1, 100, 50, 50) }).unwrap();
    assert_eq!(
        attrs(&res),
        vec![
            pair("action", "instantiate"),
            pair("admin", CAROL),
            pair("mad_scientist_collection", MAD),
            pair("mega_mad_scientist_collection", MEGA)
        ]
    );
    assert!(res.messages.is_empty());
    assert_eq!(s.next_auction_id, 1);
    assert!(s.auctions.is_empty() && s.bids.is_empty() && s.pool.is_empty() && s.swap_staging.is_empty());
}

#[test]
fn create_and_bid_report_exact_attributes() {
    let mut s = fresh();
    let res = deposit_mega(&mut s, "mega_7", 2000, 9000, None).unwrap();
    assert_eq!(
        attrs(&res),
        vec![
            pair("action", "create_auction"),
            pair("auction_id", "1"),
            pair("mega_token_id", "mega_7"),
            pair("depositor", ADMIN),
            pair("start_time", "2000"),
            pair("end_time", "9000"),
            pair("min_bid", "1")
        ]
    );
    let res = bid(&mut s, 8800, ALICE, "mad_1", 1).unwrap();
    assert_eq!(
        attrs(&res),
        vec![
            pair("action", "place_bid"),
            pair("auction_id", "1"),
            pair("bidder", ALICE),
            pair("token_id", "mad_1"),
            pair("total_bid_count", "1"),
            pair("is_highest", "true"),
            pair("new_end_time", "9100")
        ]
    );
}

#[test]
fn finalize_with_winner_reports_and_transfers() {
    let mut s = fresh();
    deposit_mega(&mut s, "mega_1", 1000, 3000, Some(1)).unwrap();
    bid(&mut s, 1500, ALICE, "mad_1", 1).unwrap();
    bid(&mut s, 1500, ALICE, "mad_2", 1).unwrap();
    let res = run(&mut s, 18_446_744_073_709_551_615, BOB, ExecuteMsg::FinalizeAuction { auction_id: 1 }).unwrap();
    assert_eq!(
        attrs(&res),
        vec![
            pair("action", "finalize_auction"),
            pair("auction_id", "1"),
            pair("winner", ALICE),
            pair("winning_bid_count", "2"),
            pair("status", "Finalizing")
        ]
    );
    assert_eq!(res.messages.len(), 1);
    assert_eq!(res.messages[0].contract_addr, MEGA);
    assert_eq!(res.messages[0].recipient, ALICE);
    assert_eq!(res.messages[0].token_id, "mega_1");
    assert_eq!(s.pool, vec!["mad_1".to_string(), "mad_2".to_string()]);
}

#[test]
fn withdraw_returns_every_escrowed_token() {
    let mut s = fresh();
    deposit_mega(&mut s, "mega_1", 1000, 3000, Some(5)).unwrap();
    for t in ["b", "a", "c"] {
        bid(&mut s, 1500, ALICE, t, 1).unwrap();
    }
    run(&mut s, 3000, ADMIN, ExecuteMsg::FinalizeAuction { auction_id: 1 }).unwrap();
    let res = run(&mut s, 3000, ALICE, ExecuteMsg::WithdrawBid { auction_id: 1 }).unwrap();
    let back: Vec<(String, String, String)> =
        res.messages.iter().map(|m| (m.contract_addr.clone(), m.recipient.clone(), m.token_id.clone())).collect();
    let expect = |t: &str| (MAD.to_string(), ALICE.to_string(), t.to_string());
    assert_eq!(back, vec![expect("b"), expect("a"), expect("c")]);
    assert_eq!(
        attrs(&res),
        vec![pair("action", "withdraw_bid"), pair("auction_id", "1"), pair("bidder", ALICE), pair("nfts_returned", "3")]
    );
}

#[test]
fn migrate_records_the_new_version() {
    let stored = ContractVersion { contract: CONTRACT_NAME.to_string(), version: "0.0.9".to_string() };
    let (v, res) = migrate(&stored, MigrateMsg {}).unwrap();
    assert_eq!(v.contract, "crates.io:mega-mad-scientist");
    assert_eq!(v.version, CONTRACT_VERSION);
    assert_eq!(attrs(&res), vec![pair("action", "migrate"), pair("from_version", "0.0.9"), pair("to_version", "0.1.0")]);
    let err = migrate(&ContractVersion { contract: "crates.io:other".to_string(), version: "0.1.0".to_string() }, MigrateMsg {})
        .unwrap_err();
    assert_eq!(err, ContractError::InvalidConfig { reason: "cannot migrate from a different contract".to_string() });
}

#[test]
fn bound_checks_name_the_field_and_limit() {
    assert_eq!(validate_bounded_positive("max_staging_size", 1, 1000), Ok(()));
    assert_eq!(validate_bounded_positive("max_staging_size", 1000, 1000), Ok(()));
    assert_eq!(
        validate_bounded_positive("max_staging_size", 0, 1000),
        Err(ContractError::InvalidConfig { reason: "max_staging_size must be >= 1".to_string() })
    );
    assert_eq!(
        validate_bounded_positive("max_staging_size", 1001, 1000),
        Err(ContractError::InvalidConfig { reason: "max_staging_size must be <= 1000".to_string() })
    );
    assert_eq!(
        validate_bounded_positive("x", u64::MAX, 604_800),
        Err(ContractError::InvalidConfig { reason: "x must be <= 604800".to_string() })
    );
    assert_eq!(
        validate_anti_snipe_config(300, 600, 500),
        Err(ContractError::InvalidConfig { reason: "anti_snipe_extension must be <= max_extension".to_string() })
    );
    assert_eq!(
        validate_anti_snipe_config(86_401, 1, 1),
        Err(ContractError::InvalidConfig { reason: "anti_snipe_window must be <= 86400".to_string() })
    );
    assert_eq!(validate_anti_snipe_config(86_400, 86_400, 604_800), Ok(()));
}

// ═══════════════════════════════════════════════════════════════════════
// ERROR ANSWERS
// ═══════════════════════════════════════════════════════════════════════

#[test]
fn invalid_addresses_are_refused_with_the_host_error() {
    let bad = || addr("not-an-address");
    assert!(bad().is_err());
    let msg = InstantiateMsg { admin: Some(bad()), ..settings(1, 100, 50, 50) };
    let err = instantiate(&at(1000), &info(ADMIN), msg).unwrap_err();
    assert_eq!(err, ContractError::Std(bad().unwrap_err()));
    let msg = InstantiateMsg { mega_mad_scientist_collection: bad(), ..settings(1, 100, 50, 50) };
    assert!(matches!(instantiate(&at(1000), &info(ADMIN), msg).unwrap_err(), ContractError::Std(_)));
    let mut s = fresh();
    let err = run(&mut s, 1000, ADMIN, ExecuteMsg::ProposeAdmin { new_admin: bad() }).unwrap_err();
    assert!(matches!(err, ContractError::Std(_)));
    let hook_msg =
        ExecuteMsg::ReceiveNft(Cw721ReceiveMsg { sender: bad(), token_id: "t".to_string(), msg: Some(ReceiveNftAction::SwapDeposit) });
    assert!(matches!(run(&mut s, 1000, MAD, hook_msg).unwrap_err(), ContractError::Std(_)));
    assert!(query(&s, QueryMsg::GetUserBid { auction_id: 1, bidder: bad() }).is_err());
    assert!(query(&s, QueryMsg::GetSwapStaging { user: bad() }).is_err());
    assert!(query(&s, QueryMsg::GetBids { auction_id: 1, start_after: Some(bad()), limit: None }).is_err());
}

#[test]
fn unknown_auctions_and_payloads_are_refused() {
    let mut s = fresh();
    assert_eq!(bid(&mut s, 1000, ALICE, "t", 1).unwrap_err(), ContractError::AuctionNotFound { auction_id: 1 });
    assert_eq!(
        run(&mut s, 1000, ALICE, ExecuteMsg::FinalizeAuction { auction_id: 0 }).unwrap_err(),
        ContractError::AuctionNotFound { auction_id: 0 }
    );
    assert_eq!(
        run(&mut s, 1000, ALICE, ExecuteMsg::WithdrawBid { auction_id: 9 }).unwrap_err(),
        ContractError::AuctionNotFound { auction_id: 9 }
    );
    assert_eq!(
        run(&mut s, 1000, ADMIN, ExecuteMsg::CancelAuction { auction_id: 9 }).unwrap_err(),
        ContractError::AuctionNotFound { auction_id: 9 }
    );
    assert_eq!(
        run(&mut s, 1000, ADMIN, ExecuteMsg::ForceCompleteAuction { auction_id: 9 }).unwrap_err(),
        ContractError::AuctionNotFound { auction_id: 9 }
    );
    assert_eq!(run(&mut s, 1000, MAD, hook(ALICE, "t", None)).unwrap_err(), ContractError::InvalidReceiveMsg {});
    assert_eq!(
        run(&mut s, 1000, ALICE, hook(ALICE, "t", Some(ReceiveNftAction::SwapDeposit))).unwrap_err(),
        ContractError::UnexpectedCollection { collection: ALICE.to_string() }
    );
    assert_eq!(query(&s, QueryMsg::GetAuction { auction_id: 1 }).unwrap_err(), QueryError::AuctionNotFound { auction_id: 1 });
}

#[test]
fn swap_requests_are_checked_in_order() {
    let mut s = fresh();
    s.pool = vec!["p1".to_string(), "p2".to_string()];
    s.pool_size = 2;
    stage(&mut s, ALICE, "s1").unwrap();
    assert_eq!(stage(&mut s, ALICE, "s1").unwrap_err(), ContractError::DuplicateTokenId { token_id: "s1".to_string() });
    stage(&mut s, ALICE, "s2").unwrap();
    let claim = |s: &mut State, ids: &[&str]| {
        let requested_ids = ids.iter().map(|x| x.to_string()).collect();
        run(s, 5000, ALICE, ExecuteMsg::ClaimSwap { requested_ids })
    };
    assert_eq!(claim(&mut s, &[]).unwrap_err(), ContractError::SwapEmpty {});
    assert_eq!(claim(&mut s, &["p1"]).unwrap_err(), ContractError::SwapCountMismatch { staged: 2, requested: 1 });
    assert_eq!(claim(&mut s, &["p1", "p1"]).unwrap_err(), ContractError::DuplicateTokenId { token_id: "p1".to_string() });
    assert_eq!(claim(&mut s, &["p1", "s2"]).unwrap_err(), ContractError::SwapOverlap { token_id: "s2".to_string() });
    assert_eq!(claim(&mut s, &["p9", "p1"]).unwrap_err(), ContractError::TokenNotInPool { token_id: "p9".to_string() });
    claim(&mut s, &["p2", "p1"]).unwrap();
    assert_eq!(s.pool, vec!["s1".to_string(), "s2".to_string()]);
    assert!(s.swap_staging.is_empty());
    assert_eq!(claim(&mut s, &["s1"]).unwrap_err(), ContractError::NoStagedTokens {});
    assert_eq!(run(&mut s, 5000, ALICE, ExecuteMsg::WithdrawStaged {}).unwrap_err(), ContractError::NoStagedTokens {});
}

// ═══════════════════════════════════════════════════════════════════════
// QUERIES AND PAGES
// ═══════════════════════════════════════════════════════════════════════

#[test]
fn bid_pages_follow_bidder_order() {
    let mut s = fresh();
    deposit_mega(&mut s, "mega_1", 1000, 3000, Some(1)).unwrap();
    deposit_mega(&mut s, "mega_2", 1000, 3000, Some(1)).unwrap();
    for (i, who) in [CAROL, ALICE, BOB].iter().enumerate() {
        bid(&mut s, 1500, who, &format!("t{i}"), 1).unwrap();
    }
    bid(&mut s, 1500, ALICE, "other", 2).unwrap();
    let page = |s: &State, start: Option<&str>, limit: Option<u32>| match query(
        s,
        QueryMsg::GetBids { auction_id: 1, start_after: start.map(addr), limit },
    )
    .unwrap()
    {
        QueryResponse::Bids(b) => b.bids.into_iter().map(|x| x.bidder).collect::<Vec<_>>(),
        other => panic!("unexpected answer {other:?}"),
    };
    let mut all = vec![ALICE.to_string(), BOB.to_string(), CAROL.to_string()];
    all.sort();
    assert_eq!(page(&s, None, None), all);
    assert_eq!(page(&s, None, Some(2)), all[..2].to_vec());
    assert_eq!(page(&s, Some(&all[0]), None), all[1..].to_vec());
    assert_eq!(page(&s, Some(&all[2]), None), Vec::<String>::new());
    assert_eq!(page(&s, None, Some(0)), Vec::<String>::new());
    match query(&s, QueryMsg::GetUserBid { auction_id: 2, bidder: addr(ALICE) }).unwrap() {
        QueryResponse::UserBid(b) => assert_eq!(b.bid.unwrap().token_ids, vec!["other".to_string()]),
        other => panic!("unexpected answer {other:?}"),
    }
    match query(&s, QueryMsg::GetUserBid { auction_id: 2, bidder: addr(BOB) }).unwrap() {
        QueryResponse::UserBid(b) => assert!(b.bid.is_none()),
        other => panic!("unexpected answer {other:?}"),
    }
}

#[test]
fn auction_and_pool_pages_are_bounded() {
    let mut s = fresh();
    for i in 1..=5 {
        deposit_mega(&mut s, &format!("mega_{i}"), 1000, 3000, Some(1)).unwrap();
    }
    let ids = |s: &State, start: Option<u64>, limit: Option<u32>| match query(
        s,
        QueryMsg::GetAllAuctions { status: None, start_after: start, limit },
    )
    .unwrap()
    {
        QueryResponse::Auctions(a) => a.auctions.into_iter().map(|x| x.auction_id).collect::<Vec<_>>(),
        other => panic!("unexpected answer {other:?}"),
    };
    assert_eq!(ids(&s, None, None), vec![1, 2, 3, 4, 5]);
    assert_eq!(ids(&s, Some(2), Some(2)), vec![3, 4]);
    assert_eq!(ids(&s, Some(5), None), Vec::<u64>::new());
    // A limit of zero still gives the first auction after the start.
    assert_eq!(ids(&s, None, Some(0)), vec![1]);
    assert_eq!(ids(&s, Some(3), Some(0)), vec![4]);
    assert_eq!(ids(&s, Some(5), Some(0)), Vec::<u64>::new());
    s.pool = (0..150).map(|i| format!("p{i:03}")).collect();
    s.pool_size = 150;
    let pool = |s: &State, start: Option<&str>, limit: Option<u32>| match query(
        s,
        QueryMsg::GetPoolContents { start_after: start.map(|x| x.to_string()), limit },
    )
    .unwrap()
    {
        QueryResponse::PoolContents(p) => p.token_ids,
        other => panic!("unexpected answer {other:?}"),
    };
    assert_eq!(pool(&s, None, None).len(), 30);
    assert_eq!(pool(&s, None, Some(1000)).len(), 100);
    // Pool pages honour a limit of zero.
    assert_eq!(pool(&s, None, Some(0)).len(), 0);
    assert_eq!(pool(&s, Some("p148"), Some(10)), vec!["p149".to_string()]);
    assert_eq!(pool(&s, Some("p0995"), Some(2)), vec!["p100".to_string(), "p101".to_string()]);
}

#[test]
fn counter_limit_applies_only_where_counting_happens() {
    let mut s = fresh();
    deposit_mega(&mut s, "mega_1", 1000, 3000, Some(1)).unwrap();
    bid(&mut s, 1500, ALICE, "mad_1", 1).unwrap();
    s.pool_size = u64::MAX;
    let fin = ExecuteMsg::FinalizeAuction { auction_id: 1 };
    // Finalizing would count the winner's token past the counter's range.
    assert!(!within_limits(&s, &at(4000), &info(BOB), &fin));
    // Before the end, or with funds attached, nothing is counted.
    assert!(within_limits(&s, &at(2000), &info(BOB), &fin));
    let paying = MessageInfo { sender: BOB.to_string(), funds: vec![Coin { denom: "uatom".to_string(), amount: 1000 }] };
    assert!(within_limits(&s, &at(4000), &paying, &fin));
    assert_eq!(execute(&mut s.clone(), &at(4000), &paying, fin).unwrap_err(), ContractError::FundsNotAllowed {});
    assert_eq!(
        run(&mut s, 2000, BOB, ExecuteMsg::FinalizeAuction { auction_id: 1 }).unwrap_err(),
        ContractError::AuctionNotEnded { auction_id: 1, end_time: 3000 }
    );
    // Deposits are checked only when they would open an auction.
    let deposit = hook(ADMIN, "mega_2", Some(ReceiveNftAction::DepositMega { start_time: 1000, end_time: 3000, min_bid: None }));
    assert!(within_limits(&s, &at(1000), &info(MEGA), &deposit));
    s.config.paused = true;
    assert!(within_limits(&s, &at(1000), &info(MEGA), &deposit));
}

#[test]
fn finalize_is_the_same_whoever_calls_it_and_spares_losers() {
    let mut s = fresh();
    deposit_mega(&mut s, "mega_1", 1000, 3000, Some(1)).unwrap();
    bid(&mut s, 1500, ALICE, "mad_1", 1).unwrap();
    bid(&mut s, 1600, ALICE, "mad_2", 1).unwrap();
    bid(&mut s, 1700, BOB, "mad_3", 1).unwrap();
    let mut by_admin = s.clone();
    let mut by_carol = s.clone();
    let r1 = run(&mut by_admin, 4000, ADMIN, ExecuteMsg::FinalizeAuction { auction_id: 1 }).unwrap();
    let r2 = run(&mut by_carol, 4000, CAROL, ExecuteMsg::FinalizeAuction { auction_id: 1 }).unwrap();
    assert_eq!(r1, r2);
    assert_eq!(by_admin, by_carol);
    // The loser keeps its escrow and its lock; only the Cosmic token is sent.
    assert_eq!(escrowed_count(&by_admin, 1, BOB), 1);
    assert!(by_admin.escrowed_bid_tokens.iter().any(|l| l.token_id == "mad_3" && l.auction_id == 1));
    assert_eq!(r1.messages.len(), 1);
    assert_eq!(r1.messages[0].contract_addr, MEGA);
    assert_eq!(r1.messages[0].recipient, ALICE);
    assert_eq!(r1.messages[0].token_id, "mega_1");
    // Refusals are the same too.
    let e1 = run(&mut s.clone(), 2000, ADMIN, ExecuteMsg::FinalizeAuction { auction_id: 1 }).unwrap_err();
    let e2 = run(&mut s.clone(), 2000, BOB, ExecuteMsg::FinalizeAuction { auction_id: 1 }).unwrap_err();
    assert_eq!(e1, e2);
    assert_eq!(e1, ContractError::AuctionNotEnded { auction_id: 1, end_time: 3000 });
}
