use cosmwasm_std::testing::MockApi;
use cosmwasm_std::Api;

use mega_mad_scientist::contract::{execute, instantiate, migrate, query, CONTRACT_NAME, CONTRACT_VERSION};
use mega_mad_scientist::env::{Coin, ContractVersion, Env, MessageInfo, Response};
use mega_mad_scientist::error::ContractError;
use mega_mad_scientist::msg::{
    AuctionResponse, AuctionsResponse, BidResponse, CheckedAddr, ConfigResponse, Cw721ReceiveMsg,
    ExecuteMsg, InstantiateMsg, MigrateMsg, PoolContentsResponse, PoolSizeResponse, QueryMsg,
    QueryResponse, ReceiveNftAction, SwapStagingResponse,
};
use mega_mad_scientist::state::{AuctionStatus, State};

// ═══════════════════════════════════════════════════════════════════════
// TEST HELPERS
// ═══════════════════════════════════════════════════════════════════════

const ADMIN: &str = "cosmwasm1335hded4gyzpt00fpz75mms4m7ck02wgw07yhw9grahj4dzg4yvqysvwql";
const BIDDER1: &str = "cosmwasm1ypwq4qs278keswt2xhlwxhg99ntevk3h04f05w84528yvjq05yaqhtcy3x";
const BIDDER2: &str = "cosmwasm1p2hhywks3stcsthk0gznrv6xm53txcs76yxyndzapenlqpq98xqqlqwjd3";
const BIDDER3: &str = "cosmwasm1p6vhhx6ua7qjl33lk69jws524da930z7wtxsm354dttx6jkuym3szv7lm6";
const MAD_COLLECTION: &str = "cosmwasm1um0dcwqv0vf2anhva7pgraye9l6g8s4zf9y94gqd2e9scnludwmqexwpsw";
const MEGA_COLLECTION: &str = "cosmwasm1xf7mf3kfl3sq3py0ey92lwfp3d6nn5v082kmejk6g7adxr6frsnsxmnl3k";
const CREATOR: &str = "cosmwasm1h34lmpywh4upnjdg90cjf4j70aee6z8qqfspugamjp42e4q28kqs8s7vcp";

/// What the host keeps for the contract: its state and its recorded version.
struct Deps {
    state: Option<State>,
    version: Option<ContractVersion>,
}

fn mock_dependencies() -> Deps {
    Deps { state: None, version: None }
}

/// The host's validation of an address.
fn checked(addr: &str) -> CheckedAddr {
    MockApi::default().addr_validate(addr).map(|a| a.to_string())
}

fn mock_env() -> Env {
    Env { block_time: 1_571_797_419 }
}

fn mock_env_at(seconds: u64) -> Env {
    Env { block_time: seconds }
}

fn mock_info(sender: &str, funds: &[Coin]) -> MessageInfo {
    MessageInfo { sender: sender.to_string(), funds: funds.to_vec() }
}

fn coin(amount: u128, denom: &str) -> Coin {
    Coin { denom: denom.to_string(), amount }
}

fn run_instantiate(
    deps: &mut Deps,
    env: Env,
    info: MessageInfo,
    msg: InstantiateMsg,
) -> Result<Response, ContractError> {
    let (state, res) = instantiate(&env, &info, msg)?;
    deps.state = Some(state);
    deps.version = Some(ContractVersion {
        contract: CONTRACT_NAME.to_string(),
        version: CONTRACT_VERSION.to_string(),
    });
    Ok(res)
}

/// Executes like a transaction: the state changes only when the message succeeds.
fn run_execute(
    deps: &mut Deps,
    env: Env,
    info: MessageInfo,
    msg: ExecuteMsg,
) -> Result<Response, ContractError> {
    let mut state = deps.state.clone().expect("contract not instantiated");
    let res = execute(&mut state, &env, &info, msg)?;
    deps.state = Some(state);
    Ok(res)
}

fn run_query(deps: &Deps, msg: QueryMsg) -> QueryResponse {
    query(deps.state.as_ref().expect("contract not instantiated"), msg).unwrap()
}

fn run_migrate(deps: &mut Deps) -> Result<Response, ContractError> {
    let stored = deps.version.clone().expect("no contract version recorded");
    let (version, res) = migrate(&stored, MigrateMsg {})?;
    deps.version = Some(version);
    Ok(res)
}

fn query_config(deps: &Deps) -> ConfigResponse {
    match run_query(deps, QueryMsg::GetConfig {}) {
        QueryResponse::Config(c) => c,
        other => panic!("unexpected answer {other:?}"),
    }
}

fn query_auction(deps: &Deps, auction_id: u64) -> AuctionResponse {
    match run_query(deps, QueryMsg::GetAuction { auction_id }) {
        QueryResponse::Auction(a) => a,
        other => panic!("unexpected answer {other:?}"),
    }
}

fn query_user_bid(deps: &Deps, auction_id: u64, bidder: &str) -> BidResponse {
    match run_query(deps, QueryMsg::GetUserBid { auction_id, bidder: checked(bidder) }) {
        QueryResponse::UserBid(b) => b,
        other => panic!("unexpected answer {other:?}"),
    }
}

fn query_pool_size(deps: &Deps) -> PoolSizeResponse {
    match run_query(deps, QueryMsg::GetPoolSize {}) {
        QueryResponse::PoolSize(p) => p,
        other => panic!("unexpected answer {other:?}"),
    }
}

fn query_pool_contents(deps: &Deps, start_after: Option<String>, limit: Option<u32>) -> PoolContentsResponse {
    match run_query(deps, QueryMsg::GetPoolContents { start_after, limit }) {
        QueryResponse::PoolContents(p) => p,
        other => panic!("unexpected answer {other:?}"),
    }
}

fn query_all_auctions(
    deps: &Deps,
    status: Option<AuctionStatus>,
    start_after: Option<u64>,
    limit: Option<u32>,
) -> AuctionsResponse {
    match run_query(deps, QueryMsg::GetAllAuctions { status, start_after, limit }) {
        QueryResponse::Auctions(a) => a,
        other => panic!("unexpected answer {other:?}"),
    }
}

fn query_swap_staging(deps: &Deps, user: &str) -> SwapStagingResponse {
    match run_query(deps, QueryMsg::GetSwapStaging { user: checked(user) }) {
        QueryResponse::SwapStaging(s) => s,
        other => panic!("unexpected answer {other:?}"),
    }
}

fn full_msg(
    admin: Option<&str>,
    default_min_bid: Option<u64>,
    anti_snipe_window: Option<u64>,
    anti_snipe_extension: Option<u64>,
    max_extension: Option<u64>,
    max_bidders_per_auction: Option<u64>,
    max_staging_size: Option<u64>,
    max_nfts_per_bid: Option<u64>,
) -> InstantiateMsg {
    InstantiateMsg {
        admin: admin.map(checked),
        mad_scientist_collection: checked(MAD_COLLECTION),
        mega_mad_scientist_collection: checked(MEGA_COLLECTION),
        default_min_bid,
        anti_snipe_window,
        anti_snipe_extension,
        max_extension,
        max_bidders_per_auction,
        max_staging_size,
        max_nfts_per_bid,
    }
}

fn setup_contract(deps: &mut Deps) {
    let msg = full_msg(Some(ADMIN), Some(1), Some(300), Some(300), Some(86400), Some(100), Some(50), Some(50));
    let info = mock_info(ADMIN, &[]);
    run_instantiate(deps, mock_env_at(1000), info, msg).unwrap();
}

fn receive(sender: &str, token_id: &str, action: ReceiveNftAction) -> ExecuteMsg {
    ExecuteMsg::ReceiveNft(Cw721ReceiveMsg {
        sender: checked(sender),
        token_id: token_id.to_string(),
        msg: Some(action),
    })
}

/// Simulate sending a Cosmic NFT via CW721 Send -> ReceiveNft to create an auction
fn send_mega_for_auction(deps: &mut Deps, mega_token_id: &str, start: u64, end: u64, min_bid: Option<u64>) {
    let msg = receive(ADMIN, mega_token_id, ReceiveNftAction::DepositMega { start_time: start, end_time: end, min_bid });
    // info.sender = the CW721 collection contract (MEGA_COLLECTION)
    let info = mock_info(MEGA_COLLECTION, &[]);
    run_execute(deps, mock_env_at(start), info, msg).unwrap();
}

/// Simulate sending a Standard Mad Scientist NFT to bid on an auction
fn send_bid_nft(
    deps: &mut Deps,
    bidder: &str,
    token_id: &str,
    auction_id: u64,
    time: u64,
) -> Result<Response, ContractError> {
    let msg = receive(bidder, token_id, ReceiveNftAction::Bid { auction_id });
    // info.sender = the CW721 collection contract (MAD_COLLECTION)
    let info = mock_info(MAD_COLLECTION, &[]);
    run_execute(deps, mock_env_at(time), info, msg)
}

/// Simulate depositing a Standard Mad Scientist NFT for swap staging
fn send_swap_deposit(deps: &mut Deps, sender: &str, token_id: &str) {
    let msg = receive(sender, token_id, ReceiveNftAction::SwapDeposit);
    let info = mock_info(MAD_COLLECTION, &[]);
    run_execute(deps, mock_env_at(5000), info, msg).unwrap();
}

fn has_attr(res: &Response, key: &str, value: &str) -> bool {
    res.attributes.iter().any(|a| a.key == key && a.value == value)
}

fn attr_value(res: &Response, key: &str) -> String {
    res.attributes.iter().find(|a| a.key == key).unwrap().value.clone()
}

fn assert_single_transfer_msg(
    res: &Response,
    expected_contract: &str,
    expected_recipient: &str,
    expected_token_id: &str,
) {
    assert_eq!(res.messages.len(), 1);
    let m = &res.messages[0];
    assert_eq!(m.contract_addr, expected_contract);
    assert_eq!(m.recipient, expected_recipient);
    assert_eq!(m.token_id, expected_token_id);
}

// ═══════════════════════════════════════════════════════════════════════
// INSTANTIATION TESTS
// ═══════════════════════════════════════════════════════════════════════

#[test]
fn test_instantiate_with_defaults() {
    let mut deps = mock_dependencies();
    let msg = full_msg(None, None, None, None, None, None, None, None);
    let info = mock_info(CREATOR, &[]);
    let res = run_instantiate(&mut deps, mock_env(), info, msg).unwrap();
    assert_eq!(res.attributes.len(), 4);

    let config = query_config(&deps);
    assert_eq!(config.admin, CREATOR);
    assert_eq!(config.default_min_bid, 1);
    assert_eq!(config.anti_snipe_window, 300);
    assert_eq!(config.anti_snipe_extension, 300);
    assert_eq!(config.max_extension, 86400);
    assert_eq!(config.max_bidders_per_auction, 100);
    assert_eq!(config.max_staging_size, 50);
    assert_eq!(config.max_nfts_per_bid, 50);
    assert!(!config.paused);
    assert!(config.pending_admin.is_none());
}

#[test]
fn test_instantiate_with_custom_values() {
    let mut deps = mock_dependencies();
    let msg = full_msg(Some(ADMIN), Some(5), Some(600), Some(120), Some(43200), Some(50), Some(25), Some(50));
    let info = mock_info(CREATOR, &[]);
    run_instantiate(&mut deps, mock_env(), info, msg).unwrap();

    let config = query_config(&deps);
    assert_eq!(config.admin, ADMIN);
    assert_eq!(config.default_min_bid, 5);
    assert_eq!(config.anti_snipe_window, 600);
    assert_eq!(config.anti_snipe_extension, 120);
    assert_eq!(config.max_extension, 43200);
    assert_eq!(config.max_bidders_per_auction, 50);
    assert_eq!(config.max_staging_size, 25);
}

#[test]
fn test_instantiate_rejects_zero_default_min_bid() {
    let mut deps = mock_dependencies();
    let msg = full_msg(Some(ADMIN), Some(0), Some(300), Some(300), Some(86400), Some(100), Some(50), Some(50));

    let err = run_instantiate(&mut deps, mock_env(), mock_info(ADMIN, &[]), msg).unwrap_err();
    assert!(matches!(err, ContractError::InvalidConfig { .. }));
}

#[test]
fn test_instantiate_rejects_limits_above_cap() {
    let mut deps = mock_dependencies();
    let msg = full_msg(Some(ADMIN), Some(1), Some(300), Some(300), Some(86400), Some(1_001), Some(50), Some(50));
    let err = run_instantiate(&mut deps, mock_env(), mock_info(ADMIN, &[]), msg).unwrap_err();
    assert!(matches!(err, ContractError::InvalidConfig { .. }));

    let msg = full_msg(Some(ADMIN), Some(1), Some(300), Some(300), Some(86400), Some(100), Some(1_001), Some(50));
    let err = run_instantiate(&mut deps, mock_env(), mock_info(ADMIN, &[]), msg).unwrap_err();
    assert!(matches!(err, ContractError::InvalidConfig { .. }));

    let msg = full_msg(Some(ADMIN), Some(1), Some(300), Some(300), Some(86400), Some(100), Some(50), Some(1_001));
    let err = run_instantiate(&mut deps, mock_env(), mock_info(ADMIN, &[]), msg).unwrap_err();
    assert!(matches!(err, ContractError::InvalidConfig { .. }));
}

#[test]
fn test_instantiate_rejects_invalid_anti_snipe_config() {
    let mut deps = mock_dependencies();

    let msg = full_msg(Some(ADMIN), Some(1), Some(0), Some(300), Some(86400), Some(100), Some(50), Some(50));
    let err = run_instantiate(&mut deps, mock_env(), mock_info(ADMIN, &[]), msg).unwrap_err();
    assert!(matches!(err, ContractError::InvalidConfig { .. }));

    let msg = full_msg(Some(ADMIN), Some(1), Some(300), Some(0), Some(86400), Some(100), Some(50), Some(50));
    let err = run_instantiate(&mut deps, mock_env(), mock_info(ADMIN, &[]), msg).unwrap_err();
    assert!(matches!(err, ContractError::InvalidConfig { .. }));

    let msg = full_msg(Some(ADMIN), Some(1), Some(300), Some(600), Some(500), Some(100), Some(50), Some(50));
    let err = run_instantiate(&mut deps, mock_env(), mock_info(ADMIN, &[]), msg).unwrap_err();
    assert!(matches!(err, ContractError::InvalidConfig { .. }));
}

#[test]
fn test_migrate_entrypoint_works() {
    let mut deps = mock_dependencies();
    setup_contract(&mut deps);

    let res = run_migrate(&mut deps).unwrap();
    assert!(has_attr(&res, "action", "migrate"));
}

#[test]
fn test_migrate_rejects_wrong_contract_name() {
    let mut deps = mock_dependencies();
    deps.version = Some(ContractVersion {
        contract: "other-contract".to_string(),
        version: "0.0.1".to_string(),
    });

    let err = run_migrate(&mut deps).unwrap_err();
    assert!(matches!(err, ContractError::InvalidConfig { .. }));
}

// ═══════════════════════════════════════════════════════════════════════
// AUCTION CREATION TESTS
// ═══════════════════════════════════════════════════════════════════════

#[test]
fn test_create_auction_via_receive_nft() {
    let mut deps = mock_dependencies();
    setup_contract(&mut deps);
    send_mega_for_auction(&mut deps, "mega_1", 2000, 5000, Some(2));

    let auction_resp = query_auction(&deps, 1);
    assert_eq!(auction_resp.auction.depositor, ADMIN);
    assert_eq!(auction_resp.auction.mega_token_id, "mega_1");
    assert_eq!(auction_resp.auction.status, AuctionStatus::Active);
    assert_eq!(auction_resp.auction.min_bid, 2);
}

#[test]
fn test_create_auction_rejects_zero_min_bid() {
    let mut deps = mock_dependencies();
    setup_contract(&mut deps);

    let msg = receive(ADMIN, "mega_1", ReceiveNftAction::DepositMega { start_time: 2000, end_time: 5000, min_bid: Some(0) });
    let info = mock_info(MEGA_COLLECTION, &[]);
    let err = run_execute(&mut deps, mock_env_at(1000), info, msg).unwrap_err();
    assert!(matches!(err, ContractError::InvalidConfig { .. }));
}

#[test]
fn test_create_auction_unauthorized() {
    let mut deps = mock_dependencies();
    setup_contract(&mut deps);

    // Non-admin tries to deposit a Cosmic NFT
    let msg = receive(BIDDER1, "mega_1", ReceiveNftAction::DepositMega { start_time: 2000, end_time: 5000, min_bid: None });
    let info = mock_info(MEGA_COLLECTION, &[]);
    let err = run_execute(&mut deps, mock_env_at(1000), info, msg).unwrap_err();
    assert_eq!(err, ContractError::Unauthorized {});
}

#[test]
fn test_create_auction_invalid_times() {
    let mut deps = mock_dependencies();
    setup_contract(&mut deps);

    // end before start
    let msg = receive(ADMIN, "mega_1", ReceiveNftAction::DepositMega { start_time: 5000, end_time: 2000, min_bid: None });
    let info = mock_info(MEGA_COLLECTION, &[]);
    let err = run_execute(&mut deps, mock_env_at(1000), info, msg).unwrap_err();
    assert!(matches!(err, ContractError::InvalidAuctionTimes { .. }));
}

#[test]
fn test_create_auction_wrong_collection() {
    let mut deps = mock_dependencies();
    setup_contract(&mut deps);

    // Send from MAD_COLLECTION instead of MEGA_COLLECTION
    let msg = receive(ADMIN, "mega_1", ReceiveNftAction::DepositMega { start_time: 2000, end_time: 5000, min_bid: None });
    let info = mock_info(MAD_COLLECTION, &[]);
    let err = run_execute(&mut deps, mock_env_at(1000), info, msg).unwrap_err();
    assert!(matches!(err, ContractError::UnexpectedCollection { .. }));
}

#[test]
fn test_duplicate_mega_auction_blocked() {
    let mut deps = mock_dependencies();
    setup_contract(&mut deps);
    send_mega_for_auction(&mut deps, "mega_1", 2000, 5000, Some(1));

    // Try to create another auction for the same Cosmic token
    let msg = receive(ADMIN, "mega_1", ReceiveNftAction::DepositMega { start_time: 2000, end_time: 6000, min_bid: None });
    let info = mock_info(MEGA_COLLECTION, &[]);
    let err = run_execute(&mut deps, mock_env_at(1000), info, msg).unwrap_err();
    assert!(matches!(err, ContractError::DuplicateMegaAuction { .. }));
}

// ═══════════════════════════════════════════════════════════════════════
// BIDDING TESTS
// ═══════════════════════════════════════════════════════════════════════

#[test]
fn test_bid_via_receive_nft() {
    let mut deps = mock_dependencies();
    setup_contract(&mut deps);
    send_mega_for_auction(&mut deps, "mega_1", 1000, 5000, Some(1));

    // Send two NFTs as bids
    send_bid_nft(&mut deps, BIDDER1, "mad_1", 1, 2000).unwrap();
    send_bid_nft(&mut deps, BIDDER1, "mad_2", 1, 2000).unwrap();

    let bid_resp = query_user_bid(&deps, 1, BIDDER1);
    assert!(bid_resp.bid.is_some());
    assert_eq!(bid_resp.bid.unwrap().token_ids.len(), 2);
}

#[test]
fn test_bid_wrong_collection() {
    let mut deps = mock_dependencies();
    setup_contract(&mut deps);
    send_mega_for_auction(&mut deps, "mega_1", 1000, 5000, Some(1));

    // Send from MEGA_COLLECTION instead of MAD_COLLECTION for a bid
    let msg = receive(BIDDER1, "mad_1", ReceiveNftAction::Bid { auction_id: 1 });
    let info = mock_info(MEGA_COLLECTION, &[]);
    let err = run_execute(&mut deps, mock_env_at(2000), info, msg).unwrap_err();
    assert!(matches!(err, ContractError::UnexpectedCollection { .. }));
}

#[test]
fn test_bid_must_exceed_highest() {
    let mut deps = mock_dependencies();
    setup_contract(&mut deps);
    send_mega_for_auction(&mut deps, "mega_1", 1000, 5000, Some(1));

    // Bidder1 sends 3 NFTs
    send_bid_nft(&mut deps, BIDDER1, "mad_1", 1, 2000).unwrap();
    send_bid_nft(&mut deps, BIDDER1, "mad_2", 1, 2000).unwrap();
    send_bid_nft(&mut deps, BIDDER1, "mad_3", 1, 2000).unwrap();

    // Bidder2's first NFT: count 1 < 3, not highest
    let res = send_bid_nft(&mut deps, BIDDER2, "mad_4", 1, 2500).unwrap();
    assert!(has_attr(&res, "is_highest", "false"));

    // Bidder2 sends up to a 4th NFT to overtake
    send_bid_nft(&mut deps, BIDDER2, "mad_5", 1, 2500).unwrap();
    send_bid_nft(&mut deps, BIDDER2, "mad_6", 1, 2500).unwrap();
    let res = send_bid_nft(&mut deps, BIDDER2, "mad_7", 1, 2500).unwrap();
    assert!(has_attr(&res, "is_highest", "true"));
    assert!(has_attr(&res, "total_bid_count", "4"));
}

#[test]
fn test_bid_before_start() {
    let mut deps = mock_dependencies();
    setup_contract(&mut deps);
    send_mega_for_auction(&mut deps, "mega_1", 2000, 5000, Some(1));

    let err = send_bid_nft(&mut deps, BIDDER1, "mad_1", 1, 1500).unwrap_err();
    assert!(matches!(err, ContractError::AuctionNotStarted { .. }));
}

#[test]
fn test_bid_exactly_at_start_time_allowed() {
    let mut deps = mock_dependencies();
    setup_contract(&mut deps);
    send_mega_for_auction(&mut deps, "mega_1", 2000, 5000, Some(1));

    let res = send_bid_nft(&mut deps, BIDDER1, "mad_1", 1, 2000).unwrap();
    assert!(has_attr(&res, "is_highest", "true"));
}

#[test]
fn test_bid_after_end() {
    let mut deps = mock_dependencies();
    setup_contract(&mut deps);
    send_mega_for_auction(&mut deps, "mega_1", 1000, 3000, Some(1));

    let err = send_bid_nft(&mut deps, BIDDER1, "mad_1", 1, 4000).unwrap_err();
    assert!(matches!(err, ContractError::AuctionAlreadyEnded { .. }));
}

#[test]
fn test_bid_exactly_at_end_time_rejected() {
    let mut deps = mock_dependencies();
    setup_contract(&mut deps);
    send_mega_for_auction(&mut deps, "mega_1", 1000, 3000, Some(1));

    let err = send_bid_nft(&mut deps, BIDDER1, "mad_1", 1, 3000).unwrap_err();
    assert!(matches!(err, ContractError::AuctionAlreadyEnded { .. }));
}

#[test]
fn test_duplicate_token_in_bid() {
    let mut deps = mock_dependencies();
    setup_contract(&mut deps);
    send_mega_for_auction(&mut deps, "mega_1", 1000, 5000, Some(1));

    send_bid_nft(&mut deps, BIDDER1, "mad_1", 1, 2000).unwrap();
    let err = send_bid_nft(&mut deps, BIDDER1, "mad_1", 1, 2000).unwrap_err(); // duplicate
    assert!(matches!(err, ContractError::DuplicateTokenId { .. }));
}

#[test]
fn test_same_token_cannot_be_reused_across_simultaneous_mega_auctions() {
    let mut deps = mock_dependencies();
    setup_contract(&mut deps);

    send_mega_for_auction(&mut deps, "mega_1", 1000, 5000, Some(1));
    send_mega_for_auction(&mut deps, "mega_2", 1000, 5000, Some(1));

    send_bid_nft(&mut deps, BIDDER1, "mad_1", 1, 2000).unwrap();

    let err = send_bid_nft(&mut deps, BIDDER1, "mad_1", 2, 2000).unwrap_err();
    assert_eq!(
        err,
        ContractError::TokenAlreadyEscrowedInAuction { token_id: "mad_1".to_string(), auction_id: 1 }
    );
}

#[test]
fn test_token_lock_applies_across_wallets_and_clears_after_withdrawal() {
    let mut deps = mock_dependencies();
    setup_contract(&mut deps);

    // Auction 1 requires at least 2 NFTs, so a single bid remains non-qualifying.
    send_mega_for_auction(&mut deps, "mega_1", 1000, 3000, Some(2));
    send_mega_for_auction(&mut deps, "mega_2", 1000, 7000, Some(1));

    send_bid_nft(&mut deps, BIDDER1, "mad_lock", 1, 2000).unwrap();

    // Different wallet still cannot reuse the same token while it's escrowed.
    let err = send_bid_nft(&mut deps, BIDDER2, "mad_lock", 2, 2000).unwrap_err();
    assert_eq!(
        err,
        ContractError::TokenAlreadyEscrowedInAuction { token_id: "mad_lock".to_string(), auction_id: 1 }
    );

    // Finalize auction 1 with no qualifying winner, then withdraw to release lock.
    run_execute(&mut deps, mock_env_at(4000), mock_info(ADMIN, &[]), ExecuteMsg::FinalizeAuction { auction_id: 1 })
        .unwrap();
    run_execute(&mut deps, mock_env_at(4100), mock_info(BIDDER1, &[]), ExecuteMsg::WithdrawBid { auction_id: 1 })
        .unwrap();

    // After withdrawal, token can be used again in another auction.
    send_bid_nft(&mut deps, BIDDER1, "mad_lock", 2, 4200).unwrap();
}

#[test]
fn test_same_wallet_can_win_multiple_mega_auctions_with_distinct_bid_tokens() {
    let mut deps = mock_dependencies();
    setup_contract(&mut deps);

    send_mega_for_auction(&mut deps, "mega_1", 1000, 3000, Some(1));
    send_mega_for_auction(&mut deps, "mega_2", 1000, 3000, Some(1));

    send_bid_nft(&mut deps, BIDDER1, "mad_1", 1, 2000).unwrap();
    send_bid_nft(&mut deps, BIDDER1, "mad_2", 1, 2000).unwrap();
    send_bid_nft(&mut deps, BIDDER1, "mad_3", 2, 2000).unwrap();
    send_bid_nft(&mut deps, BIDDER1, "mad_4", 2, 2000).unwrap();
    send_bid_nft(&mut deps, BIDDER1, "mad_5", 2, 2000).unwrap();

    run_execute(&mut deps, mock_env_at(4000), mock_info(ADMIN, &[]), ExecuteMsg::FinalizeAuction { auction_id: 1 })
        .unwrap();
    run_execute(&mut deps, mock_env_at(4000), mock_info(ADMIN, &[]), ExecuteMsg::FinalizeAuction { auction_id: 2 })
        .unwrap();

    let auction1 = query_auction(&deps, 1);
    let auction2 = query_auction(&deps, 2);
    assert_eq!(auction1.auction.highest_bidder, Some(BIDDER1.to_string()));
    assert_eq!(auction2.auction.highest_bidder, Some(BIDDER1.to_string()));

    let pool = query_pool_size(&deps);
    assert_eq!(pool.size, 5);
}

#[test]
fn test_bid_below_minimum_accepted_but_not_highest() {
    let mut deps = mock_dependencies();
    setup_contract(&mut deps);
    send_mega_for_auction(&mut deps, "mega_1", 1000, 5000, Some(2));

    // First NFT accepted into escrow but not marked as highest (below min_bid of 2)
    let res = send_bid_nft(&mut deps, BIDDER1, "mad_1", 1, 2000).unwrap();
    assert!(has_attr(&res, "is_highest", "false"));

    // Second NFT meets min_bid — now becomes highest
    let res = send_bid_nft(&mut deps, BIDDER1, "mad_2", 1, 2000).unwrap();
    assert!(has_attr(&res, "is_highest", "true"));
}

// ═══════════════════════════════════════════════════════════════════════
// ANTI-SNIPING TESTS
// ═══════════════════════════════════════════════════════════════════════

#[test]
fn test_anti_sniping_extends_auction() {
    let mut deps = mock_dependencies();
    setup_contract(&mut deps);
    send_mega_for_auction(&mut deps, "mega_1", 1000, 5000, Some(1));

    // Bid at 4800 (within 300s window of 5000 end)
    let res = send_bid_nft(&mut deps, BIDDER1, "mad_1", 1, 4800).unwrap();

    let new_end = attr_value(&res, "new_end_time").parse::<u64>().unwrap();
    assert_eq!(new_end, 5100); // 4800 + 300

    let auction_resp = query_auction(&deps, 1);
    assert_eq!(auction_resp.auction.end_time, 5100);
    assert_eq!(auction_resp.auction.original_end_time, 5000);
}

#[test]
fn test_anti_snipe_capped_by_max_extension() {
    let mut deps = mock_dependencies();

    // Set up with very short max_extension (600 seconds = 10 min)
    let msg = full_msg(Some(ADMIN), Some(1), Some(300), Some(300), Some(600), Some(100), Some(50), Some(50));
    run_instantiate(&mut deps, mock_env_at(1000), mock_info(ADMIN, &[]), msg).unwrap();

    send_mega_for_auction(&mut deps, "mega_1", 1000, 5000, Some(1));

    // First snipe bid at 4800: extends to min(4800+300, 5600) = 5100
    send_bid_nft(&mut deps, BIDDER1, "mad_1", 1, 4800).unwrap();

    // Second snipe bid at 5050 (within new end of 5100): extends to 5350
    send_bid_nft(&mut deps, BIDDER2, "mad_2", 1, 5050).unwrap();
    send_bid_nft(&mut deps, BIDDER2, "mad_3", 1, 5050).unwrap(); // overtake

    // Third snipe bid at 5300: would want 5600, cap is 5600
    send_bid_nft(&mut deps, BIDDER1, "mad_4", 1, 5300).unwrap();
    send_bid_nft(&mut deps, BIDDER1, "mad_5", 1, 5300).unwrap();
    let res = send_bid_nft(&mut deps, BIDDER1, "mad_6", 1, 5300).unwrap(); // overtake at 4

    let new_end = attr_value(&res, "new_end_time").parse::<u64>().unwrap();
    assert_eq!(new_end, 5600); // Capped at original_end_time + max_extension
}

#[test]
fn test_no_extension_outside_window() {
    let mut deps = mock_dependencies();
    setup_contract(&mut deps);
    send_mega_for_auction(&mut deps, "mega_1", 1000, 5000, Some(1));

    // Bid well before snipe window
    let res = send_bid_nft(&mut deps, BIDDER1, "mad_1", 1, 2000).unwrap();

    let new_end = attr_value(&res, "new_end_time").parse::<u64>().unwrap();
    assert_eq!(new_end, 5000); // Unchanged
}

#[test]
fn test_anti_snipe_triggers_at_exact_window_boundary() {
    let mut deps = mock_dependencies();

    // Use extension > window so boundary-triggered extension is observable.
    let msg = full_msg(Some(ADMIN), Some(1), Some(300), Some(600), Some(86400), Some(100), Some(50), Some(50));
    run_instantiate(&mut deps, mock_env_at(1000), mock_info(ADMIN, &[]), msg).unwrap();

    send_mega_for_auction(&mut deps, "mega_1", 1000, 5000, Some(1));

    // now + window == end_time, should still trigger anti-snipe extension
    let res = send_bid_nft(&mut deps, BIDDER1, "mad_1", 1, 4700).unwrap();

    let new_end = attr_value(&res, "new_end_time").parse::<u64>().unwrap();
    assert_eq!(new_end, 5300);
}

// ═══════════════════════════════════════════════════════════════════════
// FINALIZE AUCTION TESTS
// ═══════════════════════════════════════════════════════════════════════

fn finalize(deps: &mut Deps, time: u64, sender: &str, auction_id: u64) -> Result<Response, ContractError> {
    run_execute(deps, mock_env_at(time), mock_info(sender, &[]), ExecuteMsg::FinalizeAuction { auction_id })
}

fn withdraw(deps: &mut Deps, time: u64, sender: &str, auction_id: u64) -> Result<Response, ContractError> {
    run_execute(deps, mock_env_at(time), mock_info(sender, &[]), ExecuteMsg::WithdrawBid { auction_id })
}

fn transfer_admin(deps: &mut Deps, from: &str, to: &str, t1: u64, t2: u64) {
    run_execute(deps, mock_env_at(t1), mock_info(from, &[]), ExecuteMsg::ProposeAdmin { new_admin: checked(to) })
        .unwrap();
    run_execute(deps, mock_env_at(t2), mock_info(to, &[]), ExecuteMsg::AcceptAdmin {}).unwrap();
}

#[test]
fn test_finalize_with_winner_goes_to_finalizing() {
    let mut deps = mock_dependencies();
    setup_contract(&mut deps);
    send_mega_for_auction(&mut deps, "mega_1", 1000, 3000, Some(1));

    // Bidder1 and Bidder2 bid
    send_bid_nft(&mut deps, BIDDER1, "mad_1", 1, 1500).unwrap();
    send_bid_nft(&mut deps, BIDDER1, "mad_2", 1, 1500).unwrap();
    send_bid_nft(&mut deps, BIDDER2, "mad_3", 1, 2000).unwrap();
    send_bid_nft(&mut deps, BIDDER2, "mad_4", 1, 2000).unwrap();
    send_bid_nft(&mut deps, BIDDER2, "mad_5", 1, 2000).unwrap(); // Bidder2 leads with 3

    let res = finalize(&mut deps, 4000, ADMIN, 1).unwrap();
    assert!(has_attr(&res, "winner", BIDDER2));

    // Status should be Finalizing (losers haven't withdrawn yet)
    let auction_resp = query_auction(&deps, 1);
    assert_eq!(auction_resp.auction.status, AuctionStatus::Finalizing);

    // Winner's NFTs should be in pool
    let pool = query_pool_size(&deps);
    assert_eq!(pool.size, 3);
}

#[test]
fn test_finalize_no_bids_returns_mega() {
    let mut deps = mock_dependencies();
    setup_contract(&mut deps);
    send_mega_for_auction(&mut deps, "mega_1", 1000, 3000, Some(1));

    let res = finalize(&mut deps, 4000, ADMIN, 1).unwrap();
    assert!(has_attr(&res, "winner", "none"));
    assert_single_transfer_msg(&res, MEGA_COLLECTION, ADMIN, "mega_1");

    let auction_resp = query_auction(&deps, 1);
    assert_eq!(auction_resp.auction.status, AuctionStatus::Completed);
}

#[test]
fn test_finalize_sub_minimum_bid_allows_withdraw_after_completed() {
    let mut deps = mock_dependencies();
    setup_contract(&mut deps);
    send_mega_for_auction(&mut deps, "mega_1", 1000, 3000, Some(2));

    // Escrow one NFT below min bid (accepted but not highest)
    send_bid_nft(&mut deps, BIDDER1, "mad_1", 1, 1500).unwrap();

    // Finalize with no qualifying winner.
    finalize(&mut deps, 4000, ADMIN, 1).unwrap();

    // Bidder can still recover escrow even though auction status is Completed.
    let res = withdraw(&mut deps, 4000, BIDDER1, 1).unwrap();
    assert_eq!(res.messages.len(), 1);
}

#[test]
fn test_finalize_no_bids_returns_mega_to_original_depositor_after_admin_transfer() {
    let mut deps = mock_dependencies();
    setup_contract(&mut deps);
    send_mega_for_auction(&mut deps, "mega_1", 1000, 3000, Some(1));

    // Transfer admin from ADMIN to BIDDER1 before finalization.
    transfer_admin(&mut deps, ADMIN, BIDDER1, 1500, 1600);

    // new admin finalizes
    let res = finalize(&mut deps, 4000, BIDDER1, 1).unwrap();

    // Cosmic must return to original depositor (ADMIN), not current admin.
    assert_single_transfer_msg(&res, MEGA_COLLECTION, ADMIN, "mega_1");
}

#[test]
fn test_finalize_before_end_fails() {
    let mut deps = mock_dependencies();
    setup_contract(&mut deps);
    send_mega_for_auction(&mut deps, "mega_1", 1000, 5000, Some(1));

    let err = finalize(&mut deps, 2000, ADMIN, 1).unwrap_err();
    assert!(matches!(err, ContractError::AuctionNotEnded { .. }));
}

#[test]
fn test_finalize_exactly_at_end_time_allowed() {
    let mut deps = mock_dependencies();
    setup_contract(&mut deps);
    send_mega_for_auction(&mut deps, "mega_1", 1000, 3000, Some(1));

    send_bid_nft(&mut deps, BIDDER1, "mad_1", 1, 2000).unwrap();

    let res = finalize(&mut deps, 3000, ADMIN, 1).unwrap();
    assert!(has_attr(&res, "action", "finalize_auction"));
}

// ═══════════════════════════════════════════════════════════════════════
// WITHDRAW BID TESTS
// ═══════════════════════════════════════════════════════════════════════

#[test]
fn test_loser_withdraws_after_finalize() {
    let mut deps = mock_dependencies();
    setup_contract(&mut deps);
    send_mega_for_auction(&mut deps, "mega_1", 1000, 3000, Some(1));

    send_bid_nft(&mut deps, BIDDER1, "mad_1", 1, 1500).unwrap();
    send_bid_nft(&mut deps, BIDDER2, "mad_2", 1, 2000).unwrap();
    send_bid_nft(&mut deps, BIDDER2, "mad_3", 1, 2000).unwrap(); // Bidder2 wins

    finalize(&mut deps, 4000, ADMIN, 1).unwrap();

    // Bidder1 withdraws their escrowed NFT
    let res = withdraw(&mut deps, 4000, BIDDER1, 1).unwrap();
    assert!(has_attr(&res, "nfts_returned", "1"));
    assert_eq!(res.messages.len(), 1); // One TransferNft back to Bidder1
}

#[test]
fn test_withdraw_not_allowed_during_active_auction() {
    let mut deps = mock_dependencies();
    setup_contract(&mut deps);
    send_mega_for_auction(&mut deps, "mega_1", 1000, 5000, Some(1));

    send_bid_nft(&mut deps, BIDDER1, "mad_1", 1, 2000).unwrap();

    let err = withdraw(&mut deps, 2500, BIDDER1, 1).unwrap_err();
    assert!(matches!(err, ContractError::WithdrawNotAllowed { .. }));
}

#[test]
fn test_winner_cannot_withdraw() {
    let mut deps = mock_dependencies();
    setup_contract(&mut deps);
    send_mega_for_auction(&mut deps, "mega_1", 1000, 3000, Some(1));

    send_bid_nft(&mut deps, BIDDER1, "mad_1", 1, 1500).unwrap(); // only bidder = winner

    finalize(&mut deps, 4000, ADMIN, 1).unwrap();

    // Winner's escrow was already cleared during finalize
    let err = withdraw(&mut deps, 4000, BIDDER1, 1).unwrap_err();
    assert!(matches!(err, ContractError::NothingToWithdraw { .. }));
}

// ═══════════════════════════════════════════════════════════════════════
// CANCEL AUCTION TESTS
// ═══════════════════════════════════════════════════════════════════════

#[test]
fn test_cancel_before_bids() {
    let mut deps = mock_dependencies();
    setup_contract(&mut deps);
    send_mega_for_auction(&mut deps, "mega_1", 1000, 5000, Some(1));

    let res = run_execute(&mut deps, mock_env_at(1500), mock_info(ADMIN, &[]), ExecuteMsg::CancelAuction { auction_id: 1 })
        .unwrap();
    assert_single_transfer_msg(&res, MEGA_COLLECTION, ADMIN, "mega_1");

    let auction_resp = query_auction(&deps, 1);
    assert_eq!(auction_resp.auction.status, AuctionStatus::Cancelled);
}

#[test]
fn test_cancel_returns_mega_to_original_depositor_after_admin_transfer() {
    let mut deps = mock_dependencies();
    setup_contract(&mut deps);
    send_mega_for_auction(&mut deps, "mega_1", 1000, 5000, Some(1));

    // Transfer admin from ADMIN to BIDDER1.
    transfer_admin(&mut deps, ADMIN, BIDDER1, 1500, 1600);

    // New admin can cancel, but NFT must go back to original depositor.
    let res = run_execute(&mut deps, mock_env_at(1700), mock_info(BIDDER1, &[]), ExecuteMsg::CancelAuction { auction_id: 1 })
        .unwrap();
    assert_single_transfer_msg(&res, MEGA_COLLECTION, ADMIN, "mega_1");
}

#[test]
fn test_cancel_with_bids_fails() {
    let mut deps = mock_dependencies();
    setup_contract(&mut deps);
    send_mega_for_auction(&mut deps, "mega_1", 1000, 5000, Some(1));

    send_bid_nft(&mut deps, BIDDER1, "mad_1", 1, 2000).unwrap();

    let err = run_execute(&mut deps, mock_env_at(2500), mock_info(ADMIN, &[]), ExecuteMsg::CancelAuction { auction_id: 1 })
        .unwrap_err();
    assert!(matches!(err, ContractError::CannotCancelWithBids { .. }));
}

#[test]
fn test_cancel_unauthorized() {
    let mut deps = mock_dependencies();
    setup_contract(&mut deps);
    send_mega_for_auction(&mut deps, "mega_1", 1000, 5000, Some(1));

    let err = run_execute(&mut deps, mock_env_at(1500), mock_info(BIDDER1, &[]), ExecuteMsg::CancelAuction { auction_id: 1 })
        .unwrap_err();
    assert_eq!(err, ContractError::Unauthorized {});
}

// ═══════════════════════════════════════════════════════════════════════
// SWAP POOL TESTS
// ═══════════════════════════════════════════════════════════════════════

fn claim(deps: &mut Deps, sender: &str, ids: &[&str]) -> Result<Response, ContractError> {
    let requested_ids = ids.iter().map(|s| s.to_string()).collect();
    run_execute(deps, mock_env_at(5000), mock_info(sender, &[]), ExecuteMsg::ClaimSwap { requested_ids })
}

#[test]
fn test_swap_deposit_and_claim() {
    let mut deps = mock_dependencies();
    setup_contract(&mut deps);

    // Populate pool via auction
    send_mega_for_auction(&mut deps, "mega_1", 1000, 3000, Some(1));
    send_bid_nft(&mut deps, BIDDER1, "mad_1", 1, 1500).unwrap();
    send_bid_nft(&mut deps, BIDDER1, "mad_2", 1, 1500).unwrap();
    send_bid_nft(&mut deps, BIDDER1, "mad_3", 1, 1500).unwrap();
    finalize(&mut deps, 4000, ADMIN, 1).unwrap();

    // Pool should have 3 NFTs
    assert_eq!(query_pool_size(&deps).size, 3);

    // Step 1: Bidder2 deposits 2 NFTs for swapping
    send_swap_deposit(&mut deps, BIDDER2, "mad_10");
    send_swap_deposit(&mut deps, BIDDER2, "mad_11");

    // Check staging
    let staging = query_swap_staging(&deps, BIDDER2);
    assert_eq!(staging.token_ids.len(), 2);

    // Step 2: Claim swap — pick 2 from pool
    let res = claim(&mut deps, BIDDER2, &["mad_1", "mad_2"]).unwrap();
    assert!(has_attr(&res, "swap_count", "2"));

    // Pool size unchanged (2 in, 2 out)
    assert_eq!(query_pool_size(&deps).size, 3);
}

#[test]
fn test_swap_count_mismatch() {
    let mut deps = mock_dependencies();
    setup_contract(&mut deps);

    // Populate pool
    send_mega_for_auction(&mut deps, "mega_1", 1000, 3000, Some(1));
    send_bid_nft(&mut deps, BIDDER1, "mad_1", 1, 1500).unwrap();
    send_bid_nft(&mut deps, BIDDER1, "mad_2", 1, 1500).unwrap();
    finalize(&mut deps, 4000, ADMIN, 1).unwrap();

    // Deposit 1 but try to claim 2
    send_swap_deposit(&mut deps, BIDDER2, "mad_10");

    let err = claim(&mut deps, BIDDER2, &["mad_1", "mad_2"]).unwrap_err();
    assert!(matches!(err, ContractError::SwapCountMismatch { .. }));
}

#[test]
fn test_swap_no_staged_tokens() {
    let mut deps = mock_dependencies();
    setup_contract(&mut deps);

    let err = claim(&mut deps, BIDDER1, &["mad_1"]).unwrap_err();
    assert!(matches!(err, ContractError::NoStagedTokens {}));
}

#[test]
fn test_swap_overlap() {
    let mut deps = mock_dependencies();
    setup_contract(&mut deps);

    // Populate pool with "mad_1"
    {
        let state = deps.state.as_mut().unwrap();
        state.pool.push("mad_1".to_string());
        state.pool_size = 1;
    }

    // Deposit "mad_1" for swap (same as what's in pool)
    send_swap_deposit(&mut deps, BIDDER1, "mad_1");

    let err = claim(&mut deps, BIDDER1, &["mad_1"]).unwrap_err();
    assert!(matches!(err, ContractError::SwapOverlap { .. }));
}

#[test]
fn test_swap_token_not_in_pool() {
    let mut deps = mock_dependencies();
    setup_contract(&mut deps);

    send_swap_deposit(&mut deps, BIDDER1, "mad_10");

    let err = claim(&mut deps, BIDDER1, &["mad_99"]).unwrap_err();
    assert!(matches!(err, ContractError::TokenNotInPool { .. }));
}

#[test]
fn test_withdraw_staged_returns_tokens_and_clears_staging() {
    let mut deps = mock_dependencies();
    setup_contract(&mut deps);

    send_swap_deposit(&mut deps, BIDDER1, "mad_10");
    send_swap_deposit(&mut deps, BIDDER1, "mad_11");

    let res = run_execute(&mut deps, mock_env_at(5000), mock_info(BIDDER1, &[]), ExecuteMsg::WithdrawStaged {}).unwrap();

    assert_eq!(res.messages.len(), 2);
    assert!(has_attr(&res, "action", "withdraw_staged"));

    let staging = query_swap_staging(&deps, BIDDER1);
    assert!(staging.token_ids.is_empty());
}

// ═══════════════════════════════════════════════════════════════════════
// UPDATE CONFIG TESTS
// ═══════════════════════════════════════════════════════════════════════

fn update_config(
    default_min_bid: Option<u64>,
    anti_snipe_window: Option<u64>,
    anti_snipe_extension: Option<u64>,
    max_extension: Option<u64>,
    max_bidders_per_auction: Option<u64>,
    max_staging_size: Option<u64>,
    max_nfts_per_bid: Option<u64>,
) -> ExecuteMsg {
    ExecuteMsg::UpdateConfig {
        default_min_bid,
        anti_snipe_window,
        anti_snipe_extension,
        max_extension,
        max_bidders_per_auction,
        max_staging_size,
        max_nfts_per_bid,
    }
}

fn instantiate_default(deps: &mut Deps) {
    let msg = full_msg(Some(ADMIN), Some(1), Some(300), Some(300), Some(86400), Some(100), Some(50), Some(50));
    run_instantiate(deps, mock_env(), mock_info(ADMIN, &[]), msg).unwrap();
}

#[test]
fn test_update_config() {
    let mut deps = mock_dependencies();
    instantiate_default(&mut deps);

    let update_msg = update_config(Some(5), Some(600), None, Some(43200), Some(200), Some(100), Some(50));
    run_execute(&mut deps, mock_env(), mock_info(ADMIN, &[]), update_msg).unwrap();

    let config = query_config(&deps);
    assert_eq!(config.admin, ADMIN); // unchanged (no admin field in UpdateConfig)
    assert_eq!(config.default_min_bid, 5);
    assert_eq!(config.anti_snipe_window, 600);
    assert_eq!(config.anti_snipe_extension, 300); // unchanged
    assert_eq!(config.max_extension, 43200);
    assert_eq!(config.max_bidders_per_auction, 200);
    assert_eq!(config.max_staging_size, 100);
}

#[test]
fn test_update_config_unauthorized() {
    let mut deps = mock_dependencies();
    instantiate_default(&mut deps);

    let err = run_execute(
        &mut deps,
        mock_env(),
        mock_info(BIDDER1, &[]),
        update_config(Some(99), None, None, None, None, None, None),
    )
    .unwrap_err();
    assert_eq!(err, ContractError::Unauthorized {});
}

#[test]
fn test_update_config_rejects_zero_default_min_bid() {
    let mut deps = mock_dependencies();
    instantiate_default(&mut deps);

    let err = run_execute(
        &mut deps,
        mock_env(),
        mock_info(ADMIN, &[]),
        update_config(Some(0), None, None, None, None, None, None),
    )
    .unwrap_err();
    assert!(matches!(err, ContractError::InvalidConfig { .. }));
}

#[test]
fn test_update_config_rejects_zero_limits() {
    let mut deps = mock_dependencies();
    setup_contract(&mut deps);

    let err = run_execute(&mut deps, mock_env(), mock_info(ADMIN, &[]), update_config(None, None, None, None, Some(0), None, None))
        .unwrap_err();
    assert!(matches!(err, ContractError::InvalidConfig { .. }));

    let err = run_execute(&mut deps, mock_env(), mock_info(ADMIN, &[]), update_config(None, None, None, None, None, Some(0), None))
        .unwrap_err();
    assert!(matches!(err, ContractError::InvalidConfig { .. }));

    let err = run_execute(&mut deps, mock_env(), mock_info(ADMIN, &[]), update_config(None, None, None, None, None, None, Some(0)))
        .unwrap_err();
    assert!(matches!(err, ContractError::InvalidConfig { .. }));
}

#[test]
fn test_update_config_rejects_limits_above_cap() {
    let mut deps = mock_dependencies();
    setup_contract(&mut deps);

    let err = run_execute(&mut deps, mock_env(), mock_info(ADMIN, &[]), update_config(None, None, None, None, Some(1_001), None, None))
        .unwrap_err();
    assert!(matches!(err, ContractError::InvalidConfig { .. }));

    let err = run_execute(&mut deps, mock_env(), mock_info(ADMIN, &[]), update_config(None, None, None, None, None, Some(1_001), None))
        .unwrap_err();
    assert!(matches!(err, ContractError::InvalidConfig { .. }));

    let err = run_execute(&mut deps, mock_env(), mock_info(ADMIN, &[]), update_config(None, None, None, None, None, None, Some(1_001)))
        .unwrap_err();
    assert!(matches!(err, ContractError::InvalidConfig { .. }));
}

#[test]
fn test_update_config_rejects_invalid_anti_snipe_config() {
    let mut deps = mock_dependencies();
    setup_contract(&mut deps);

    let err = run_execute(&mut deps, mock_env(), mock_info(ADMIN, &[]), update_config(None, Some(0), None, None, None, None, None))
        .unwrap_err();
    assert!(matches!(err, ContractError::InvalidConfig { .. }));

    let err = run_execute(&mut deps, mock_env(), mock_info(ADMIN, &[]), update_config(None, None, Some(0), None, None, None, None))
        .unwrap_err();
    assert!(matches!(err, ContractError::InvalidConfig { .. }));

    let err = run_execute(
        &mut deps,
        mock_env(),
        mock_info(ADMIN, &[]),
        update_config(None, Some(300), Some(600), Some(500), None, None, None),
    )
    .unwrap_err();
    assert!(matches!(err, ContractError::InvalidConfig { .. }));
}

// ═══════════════════════════════════════════════════════════════════════
// QUERY TESTS
// ═══════════════════════════════════════════════════════════════════════

#[test]
fn test_query_all_auctions_with_filter() {
    let mut deps = mock_dependencies();
    setup_contract(&mut deps);

    send_mega_for_auction(&mut deps, "mega_1", 1000, 3000, Some(1));
    send_mega_for_auction(&mut deps, "mega_2", 1000, 3000, Some(1));

    // Cancel first (no bids so allowed)
    run_execute(&mut deps, mock_env_at(1500), mock_info(ADMIN, &[]), ExecuteMsg::CancelAuction { auction_id: 1 })
        .unwrap();

    let active = query_all_auctions(&deps, Some(AuctionStatus::Active), None, None);
    assert_eq!(active.auctions.len(), 1);
    assert_eq!(active.auctions[0].auction_id, 2);

    let all = query_all_auctions(&deps, None, None, None);
    assert_eq!(all.auctions.len(), 2);
}

#[test]
fn test_query_auction_bid_list_is_bounded() {
    let mut deps = mock_dependencies();

    let msg = full_msg(Some(ADMIN), Some(1), Some(300), Some(300), Some(86400), Some(200), Some(50), Some(50));
    run_instantiate(&mut deps, mock_env_at(1000), mock_info(ADMIN, &[]), msg).unwrap();

    send_mega_for_auction(&mut deps, "mega_1", 1000, 5000, Some(1));

    for i in 0..120 {
        let bidder = MockApi::default().addr_make(format!("bounded-bidder-{i}").as_str());
        let token_id = format!("mad-{i}");
        send_bid_nft(&mut deps, bidder.as_str(), token_id.as_str(), 1, 2000).unwrap();
    }

    let auction_resp = query_auction(&deps, 1);
    assert_eq!(auction_resp.bids.len(), 100);
}

#[test]
fn test_query_pool_contents() {
    let mut deps = mock_dependencies();
    setup_contract(&mut deps);

    // Manually add tokens to pool
    {
        let state = deps.state.as_mut().unwrap();
        state.pool = vec!["mad_1".to_string(), "mad_2".to_string(), "mad_3".to_string()];
        state.pool_size = 3;
    }

    let pool = query_pool_contents(&deps, None, Some(2));
    assert_eq!(pool.token_ids.len(), 2);

    let pool_size = query_pool_size(&deps);
    assert_eq!(pool_size.size, 3);
}

// ═══════════════════════════════════════════════════════════════════════
// HARDENING: PAUSE MECHANISM TESTS
// ═══════════════════════════════════════════════════════════════════════

fn set_paused(deps: &mut Deps, time: u64, sender: &str, paused: bool) -> Result<Response, ContractError> {
    run_execute(deps, mock_env_at(time), mock_info(sender, &[]), ExecuteMsg::SetPaused { paused })
}

#[test]
fn test_pause_blocks_receive_nft() {
    let mut deps = mock_dependencies();
    setup_contract(&mut deps);
    send_mega_for_auction(&mut deps, "mega_1", 1000, 5000, Some(1));

    // Admin pauses
    set_paused(&mut deps, 1500, ADMIN, true).unwrap();

    // Verify paused in config
    let config = query_config(&deps);
    assert!(config.paused);

    // Bid should be rejected
    let err = send_bid_nft(&mut deps, BIDDER1, "mad_1", 1, 2000).unwrap_err();
    assert_eq!(err, ContractError::ContractPaused {});

    // Swap deposit should be rejected
    let msg = receive(BIDDER1, "mad_2", ReceiveNftAction::SwapDeposit);
    let err = run_execute(&mut deps, mock_env_at(2000), mock_info(MAD_COLLECTION, &[]), msg).unwrap_err();
    assert_eq!(err, ContractError::ContractPaused {});
}

#[test]
fn test_unpause_restores_operations() {
    let mut deps = mock_dependencies();
    setup_contract(&mut deps);
    send_mega_for_auction(&mut deps, "mega_1", 1000, 5000, Some(1));

    // Pause then unpause
    set_paused(&mut deps, 1500, ADMIN, true).unwrap();
    set_paused(&mut deps, 1600, ADMIN, false).unwrap();

    // Bidding should work again
    send_bid_nft(&mut deps, BIDDER1, "mad_1", 1, 2000).unwrap();
}

#[test]
fn test_pause_unauthorized() {
    let mut deps = mock_dependencies();
    setup_contract(&mut deps);

    let err = set_paused(&mut deps, 1500, BIDDER1, true).unwrap_err();
    assert_eq!(err, ContractError::Unauthorized {});
}

#[test]
fn test_pause_does_not_block_withdrawals() {
    let mut deps = mock_dependencies();
    setup_contract(&mut deps);
    send_mega_for_auction(&mut deps, "mega_1", 1000, 3000, Some(1));

    send_bid_nft(&mut deps, BIDDER1, "mad_1", 1, 1500).unwrap();
    send_bid_nft(&mut deps, BIDDER2, "mad_2", 1, 2000).unwrap();
    send_bid_nft(&mut deps, BIDDER2, "mad_3", 1, 2000).unwrap();

    finalize(&mut deps, 4000, ADMIN, 1).unwrap();

    // Pause the contract
    set_paused(&mut deps, 4100, ADMIN, true).unwrap();

    // Withdrawal should still work (not gated by pause)
    let res = withdraw(&mut deps, 4200, BIDDER1, 1).unwrap();
    assert_eq!(res.messages.len(), 1);
}

// ═══════════════════════════════════════════════════════════════════════
// HARDENING: TWO-STEP ADMIN TRANSFER TESTS
// ═══════════════════════════════════════════════════════════════════════

fn propose(deps: &mut Deps, sender: &str, new_admin: &str) -> Result<Response, ContractError> {
    run_execute(deps, mock_env(), mock_info(sender, &[]), ExecuteMsg::ProposeAdmin { new_admin: checked(new_admin) })
}

fn accept(deps: &mut Deps, sender: &str) -> Result<Response, ContractError> {
    run_execute(deps, mock_env(), mock_info(sender, &[]), ExecuteMsg::AcceptAdmin {})
}

#[test]
fn test_two_step_admin_transfer() {
    let mut deps = mock_dependencies();
    instantiate_default(&mut deps);

    // Step 1: Admin proposes new admin
    propose(&mut deps, ADMIN, BIDDER1).unwrap();

    // Verify pending_admin set
    let config = query_config(&deps);
    assert_eq!(config.admin, ADMIN); // Still old admin
    assert_eq!(config.pending_admin, Some(BIDDER1.to_string()));

    // Step 2: New admin accepts
    accept(&mut deps, BIDDER1).unwrap();

    // Verify transfer complete
    let config = query_config(&deps);
    assert_eq!(config.admin, BIDDER1);
    assert!(config.pending_admin.is_none());
}

#[test]
fn test_propose_admin_unauthorized() {
    let mut deps = mock_dependencies();
    instantiate_default(&mut deps);

    let err = propose(&mut deps, BIDDER1, BIDDER2).unwrap_err();
    assert_eq!(err, ContractError::Unauthorized {});
}

#[test]
fn test_accept_admin_wrong_sender() {
    let mut deps = mock_dependencies();
    instantiate_default(&mut deps);

    // Propose BIDDER1
    propose(&mut deps, ADMIN, BIDDER1).unwrap();

    // BIDDER2 tries to accept (wrong person)
    let err = accept(&mut deps, BIDDER2).unwrap_err();
    assert_eq!(err, ContractError::NotPendingAdmin {});
}

#[test]
fn test_accept_admin_no_pending() {
    let mut deps = mock_dependencies();
    instantiate_default(&mut deps);

    let err = accept(&mut deps, BIDDER1).unwrap_err();
    assert_eq!(err, ContractError::NoPendingAdmin {});
}

// ═══════════════════════════════════════════════════════════════════════
// HARDENING: MAX BIDDERS PER AUCTION TESTS
// ═══════════════════════════════════════════════════════════════════════

#[test]
fn test_max_bidders_cap() {
    let mut deps = mock_dependencies();

    // Set max_bidders_per_auction to 2
    let msg = full_msg(Some(ADMIN), Some(1), Some(300), Some(300), Some(86400), Some(2), Some(50), Some(50));
    run_instantiate(&mut deps, mock_env_at(1000), mock_info(ADMIN, &[]), msg).unwrap();

    send_mega_for_auction(&mut deps, "mega_1", 1000, 5000, Some(1));

    // First two bidders succeed
    send_bid_nft(&mut deps, BIDDER1, "mad_1", 1, 2000).unwrap();
    send_bid_nft(&mut deps, BIDDER2, "mad_2", 1, 2000).unwrap();

    // Third bidder rejected
    let err = send_bid_nft(&mut deps, BIDDER3, "mad_3", 1, 2000).unwrap_err();
    assert!(matches!(err, ContractError::MaxBiddersReached { .. }));

    // Existing bidders can still add more NFTs
    send_bid_nft(&mut deps, BIDDER1, "mad_4", 1, 2000).unwrap();
}

#[test]
fn test_max_bidders_zero_rejected() {
    let mut deps = mock_dependencies();

    let msg = full_msg(Some(ADMIN), Some(1), Some(300), Some(300), Some(86400), Some(0), Some(50), Some(50));
    let err = run_instantiate(&mut deps, mock_env_at(1000), mock_info(ADMIN, &[]), msg).unwrap_err();
    assert!(matches!(err, ContractError::InvalidConfig { .. }));
}

// ═══════════════════════════════════════════════════════════════════════
// HARDENING: FORCE COMPLETE AUCTION TESTS
// ═══════════════════════════════════════════════════════════════════════

fn force_complete(deps: &mut Deps, time: u64, sender: &str, auction_id: u64) -> Result<Response, ContractError> {
    run_execute(deps, mock_env_at(time), mock_info(sender, &[]), ExecuteMsg::ForceCompleteAuction { auction_id })
}

#[test]
fn test_force_complete_finalizing_auction() {
    let mut deps = mock_dependencies();
    setup_contract(&mut deps);
    send_mega_for_auction(&mut deps, "mega_1", 1000, 3000, Some(1));

    send_bid_nft(&mut deps, BIDDER1, "mad_1", 1, 1500).unwrap();
    send_bid_nft(&mut deps, BIDDER2, "mad_2", 1, 2000).unwrap();
    send_bid_nft(&mut deps, BIDDER2, "mad_3", 1, 2000).unwrap();

    // Finalize → Finalizing
    finalize(&mut deps, 4000, ADMIN, 1).unwrap();

    // Force complete
    force_complete(&mut deps, 5000, ADMIN, 1).unwrap();

    let auction_resp = query_auction(&deps, 1);
    assert_eq!(auction_resp.auction.status, AuctionStatus::Completed);

    // Loser can still withdraw after force-complete (Completed is allowed).
    let res = withdraw(&mut deps, 5000, BIDDER1, 1).unwrap();
    assert_eq!(res.messages.len(), 1);
}

#[test]
fn test_force_complete_not_finalizing_fails() {
    let mut deps = mock_dependencies();
    setup_contract(&mut deps);
    send_mega_for_auction(&mut deps, "mega_1", 1000, 5000, Some(1));

    // Active auction — can't force complete
    let err = force_complete(&mut deps, 2000, ADMIN, 1).unwrap_err();
    assert!(matches!(err, ContractError::NotFinalizing { .. }));
}

#[test]
fn test_force_complete_unauthorized() {
    let mut deps = mock_dependencies();
    setup_contract(&mut deps);
    send_mega_for_auction(&mut deps, "mega_1", 1000, 3000, Some(1));

    send_bid_nft(&mut deps, BIDDER1, "mad_1", 1, 1500).unwrap();

    finalize(&mut deps, 4000, ADMIN, 1).unwrap();

    let err = force_complete(&mut deps, 5000, BIDDER1, 1).unwrap_err();
    assert_eq!(err, ContractError::Unauthorized {});
}

// ═══════════════════════════════════════════════════════════════════════
// HARDENING: SWAP STAGING SIZE CAP TESTS
// ═══════════════════════════════════════════════════════════════════════

#[test]
fn test_staging_size_cap() {
    let mut deps = mock_dependencies();

    // Set max_staging_size to 2
    let msg = full_msg(Some(ADMIN), Some(1), Some(300), Some(300), Some(86400), Some(100), Some(2), Some(50));
    run_instantiate(&mut deps, mock_env_at(1000), mock_info(ADMIN, &[]), msg).unwrap();

    send_swap_deposit(&mut deps, BIDDER1, "mad_1");
    send_swap_deposit(&mut deps, BIDDER1, "mad_2");

    // Third deposit rejected
    let msg = receive(BIDDER1, "mad_3", ReceiveNftAction::SwapDeposit);
    let err = run_execute(&mut deps, mock_env_at(5000), mock_info(MAD_COLLECTION, &[]), msg).unwrap_err();
    assert!(matches!(err, ContractError::StagingLimitReached { .. }));
}

#[test]
fn test_staging_size_zero_rejected() {
    let mut deps = mock_dependencies();

    let msg = full_msg(Some(ADMIN), Some(1), Some(300), Some(300), Some(86400), Some(100), Some(0), Some(50));
    let err = run_instantiate(&mut deps, mock_env_at(1000), mock_info(ADMIN, &[]), msg).unwrap_err();
    assert!(matches!(err, ContractError::InvalidConfig { .. }));
}

// ═══════════════════════════════════════════════════════════════════════
// HARDENING: TOTAL_BIDDERS COUNTER — CANCEL GUARD
// ═══════════════════════════════════════════════════════════════════════

#[test]
fn test_cancel_blocked_even_with_sub_minimum_bids() {
    let mut deps = mock_dependencies();
    setup_contract(&mut deps);
    send_mega_for_auction(&mut deps, "mega_1", 1000, 5000, Some(3));

    // Bid below minimum (only 1 NFT, min is 3) — accepted into escrow
    send_bid_nft(&mut deps, BIDDER1, "mad_1", 1, 2000).unwrap();

    // Cancel should fail because total_bidders > 0
    let err = run_execute(&mut deps, mock_env_at(2500), mock_info(ADMIN, &[]), ExecuteMsg::CancelAuction { auction_id: 1 })
        .unwrap_err();
    assert!(matches!(err, ContractError::CannotCancelWithBids { .. }));
}

// ═══════════════════════════════════════════════════════════════════════
// HARDENING: FUNDS REJECTION TESTS
// ═══════════════════════════════════════════════════════════════════════

#[test]
fn test_funds_rejected_on_execute() {
    let mut deps = mock_dependencies();
    setup_contract(&mut deps);

    // Attaching native tokens to any execute message should fail
    let info = mock_info(ADMIN, &[coin(1000, "uatom")]);
    let err = run_execute(&mut deps, mock_env_at(2000), info, ExecuteMsg::SetPaused { paused: true }).unwrap_err();
    assert_eq!(err, ContractError::FundsNotAllowed {});
}

#[test]
fn test_funds_rejected_on_finalize() {
    let mut deps = mock_dependencies();
    setup_contract(&mut deps);
    send_mega_for_auction(&mut deps, "mega_1", 1000, 5000, Some(1));
    send_bid_nft(&mut deps, BIDDER1, "mad_1", 1, 2000).unwrap();

    let info = mock_info(BIDDER1, &[coin(500, "uatom")]);
    let err = run_execute(&mut deps, mock_env_at(6000), info, ExecuteMsg::FinalizeAuction { auction_id: 1 }).unwrap_err();
    assert_eq!(err, ContractError::FundsNotAllowed {});
}

// ═══════════════════════════════════════════════════════════════════════
// HARDENING: COLLECTION ADDRESS COLLISION TESTS
// ═══════════════════════════════════════════════════════════════════════

#[test]
fn test_collection_address_collision_rejected() {
    let mut deps = mock_dependencies();
    let mut msg = full_msg(Some(ADMIN), Some(1), Some(300), Some(300), Some(86400), Some(100), Some(50), Some(50));
    msg.mega_mad_scientist_collection = checked(MAD_COLLECTION);
    let err = run_instantiate(&mut deps, mock_env(), mock_info(ADMIN, &[]), msg).unwrap_err();
    assert_eq!(err, ContractError::CollectionAddressCollision {});
}

// ═══════════════════════════════════════════════════════════════════════
// HARDENING: PER-BIDDER ESCROW CAP TESTS
// ═══════════════════════════════════════════════════════════════════════

#[test]
fn test_per_bidder_escrow_cap() {
    let mut deps = mock_dependencies();

    // Set max_nfts_per_bid to 2
    let msg = full_msg(Some(ADMIN), Some(1), Some(300), Some(300), Some(86400), Some(100), Some(50), Some(2));
    run_instantiate(&mut deps, mock_env_at(1000), mock_info(ADMIN, &[]), msg).unwrap();

    send_mega_for_auction(&mut deps, "mega_1", 1000, 5000, Some(1));

    // First two NFTs succeed
    send_bid_nft(&mut deps, BIDDER1, "mad_1", 1, 2000).unwrap();
    send_bid_nft(&mut deps, BIDDER1, "mad_2", 1, 2000).unwrap();

    // Third NFT from same bidder rejected
    let err = send_bid_nft(&mut deps, BIDDER1, "mad_3", 1, 2000).unwrap_err();
    assert!(matches!(err, ContractError::MaxEscrowPerBidder { .. }));

    // Different bidder can still bid
    send_bid_nft(&mut deps, BIDDER2, "mad_4", 1, 2000).unwrap();
}

#[test]
fn test_per_bidder_escrow_zero_rejected() {
    let mut deps = mock_dependencies();

    let msg = full_msg(Some(ADMIN), Some(1), Some(300), Some(300), Some(86400), Some(100), Some(50), Some(0));
    let err = run_instantiate(&mut deps, mock_env_at(1000), mock_info(ADMIN, &[]), msg).unwrap_err();
    assert!(matches!(err, ContractError::InvalidConfig { .. }));
}

// ═══════════════════════════════════════════════════════════════════════
// HARDENING: UPDATE CONFIG WITH NEW FIELDS
// ═══════════════════════════════════════════════════════════════════════

#[test]
fn test_update_config_max_nfts_per_bid() {
    let mut deps = mock_dependencies();
    setup_contract(&mut deps);

    run_execute(&mut deps, mock_env(), mock_info(ADMIN, &[]), update_config(None, None, None, None, None, None, Some(10)))
        .unwrap();

    let config = query_config(&deps);
    assert_eq!(config.max_nfts_per_bid, 10);
}

// ═══════════════════════════════════════════════════════════════════════
// FULL FLOW
// ═══════════════════════════════════════════════════════════════════════

#[test]
fn test_full_auction_to_pool_to_swap_flow() {
    let mut deps = mock_dependencies();
    setup_contract(&mut deps);

    // 1. Admin deposits Cosmic NFT to create auction
    send_mega_for_auction(&mut deps, "mega_1", 1000, 5000, Some(2));

    // 2. Bidder1 bids 3 NFTs (one at a time via CW721 Send)
    send_bid_nft(&mut deps, BIDDER1, "mad_1", 1, 2000).unwrap();
    send_bid_nft(&mut deps, BIDDER1, "mad_2", 1, 2000).unwrap();
    send_bid_nft(&mut deps, BIDDER1, "mad_3", 1, 2000).unwrap();

    // 3. Bidder2 bids 5 NFTs
    send_bid_nft(&mut deps, BIDDER2, "mad_4", 1, 2500).unwrap();
    send_bid_nft(&mut deps, BIDDER2, "mad_5", 1, 2500).unwrap();
    send_bid_nft(&mut deps, BIDDER2, "mad_6", 1, 2500).unwrap();
    send_bid_nft(&mut deps, BIDDER2, "mad_7", 1, 2500).unwrap();
    send_bid_nft(&mut deps, BIDDER2, "mad_8", 1, 2500).unwrap();

    // 4. Bidder3 bids 5 NFTs (equal — does NOT overtake Bidder2)
    send_bid_nft(&mut deps, BIDDER3, "mad_9", 1, 3000).unwrap();
    send_bid_nft(&mut deps, BIDDER3, "mad_10", 1, 3000).unwrap();
    send_bid_nft(&mut deps, BIDDER3, "mad_11", 1, 3000).unwrap();
    send_bid_nft(&mut deps, BIDDER3, "mad_12", 1, 3000).unwrap();
    let res = send_bid_nft(&mut deps, BIDDER3, "mad_13", 1, 3000).unwrap();
    assert!(has_attr(&res, "is_highest", "false"));

    // 5. Finalize auction
    let finalize_res = finalize(&mut deps, 6000, ADMIN, 1).unwrap();
    assert!(has_attr(&finalize_res, "winner", BIDDER2));

    // 6. Pool should contain Bidder2's 5 NFTs
    assert_eq!(query_pool_size(&deps).size, 5);

    // 7. Losers withdraw their NFTs
    let w1 = withdraw(&mut deps, 6000, BIDDER1, 1).unwrap();
    assert_eq!(w1.messages.len(), 3); // 3 NFTs returned

    let w3 = withdraw(&mut deps, 6000, BIDDER3, 1).unwrap();
    assert_eq!(w3.messages.len(), 5); // 5 NFTs returned

    // 8. Someone swaps 2 NFTs from the pool
    send_swap_deposit(&mut deps, BIDDER3, "mad_20");
    send_swap_deposit(&mut deps, BIDDER3, "mad_21");

    let requested_ids = vec!["mad_4".to_string(), "mad_5".to_string()];
    let swap_res =
        run_execute(&mut deps, mock_env_at(7000), mock_info(BIDDER3, &[]), ExecuteMsg::ClaimSwap { requested_ids }).unwrap();
    assert!(has_attr(&swap_res, "swap_count", "2"));

    // Pool size unchanged
    assert_eq!(query_pool_size(&deps).size, 5);
}
