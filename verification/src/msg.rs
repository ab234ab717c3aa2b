//! Messages the contract accepts and the answers its queries give.
//!
//! Addresses that a message carries for the contract to validate arrive as
//! the outcome of the host's address validation: `Ok` with the validated
//! address, or `Err` with the host's error.
use vstd::prelude::*;

use crate::state::{Auction, AuctionStatus, Bid};

verus! {

/// Outcome of the host's validation of an address given in a message.
pub type CheckedAddr = Result<String, cosmwasm_std::StdError>;

#[derive(Debug, PartialEq)]
pub struct InstantiateMsg {
    /// Optional admin; defaults to message sender
    pub admin: Option<CheckedAddr>,
    /// CW721 contract address for Standard Mad Scientists
    pub mad_scientist_collection: CheckedAddr,
    /// CW721 contract address for Cosmic Mad Scientists
    pub mega_mad_scientist_collection: CheckedAddr,
    /// Default minimum bid count (defaults to 1)
    pub default_min_bid: Option<u64>,
    /// Anti-sniping window in seconds (defaults to 300)
    pub anti_snipe_window: Option<u64>,
    /// Anti-sniping extension in seconds (defaults to 300)
    pub anti_snipe_extension: Option<u64>,
    /// Maximum total extension beyond original end time (defaults to 86400)
    pub max_extension: Option<u64>,
    /// Maximum unique bidders per auction (defaults to 100)
    pub max_bidders_per_auction: Option<u64>,
    /// Maximum tokens a user can stage for swapping (defaults to 50)
    pub max_staging_size: Option<u64>,
    /// Maximum NFTs a single bidder can escrow per auction (defaults to 50)
    pub max_nfts_per_bid: Option<u64>,
}

#[derive(Debug, Clone, PartialEq)]
pub struct MigrateMsg {}

/// The CW721 receive hook's message: who sent which token, with the
/// embedded action decoded (`None` when the payload does not decode).
#[derive(Debug, PartialEq)]
pub struct Cw721ReceiveMsg {
    pub sender: CheckedAddr,
    pub token_id: String,
    pub msg: Option<ReceiveNftAction>,
}

#[derive(Debug, PartialEq)]
pub enum ExecuteMsg {
    /// End an auction, transfer Cosmic to winner, mark as Finalizing.
    FinalizeAuction { auction_id: u64 },
    /// Cancel an auction (admin only), only before any bids are placed.
    CancelAuction { auction_id: u64 },
    /// Withdraw escrowed NFTs after the auction is finalized or cancelled.
    WithdrawBid { auction_id: u64 },
    /// Complete a 1:1 swap of staged tokens against pool tokens.
    ClaimSwap { requested_ids: Vec<String> },
    /// Return all tokens currently staged by the caller.
    WithdrawStaged {},
    /// Pause or unpause the contract (admin only).
    SetPaused { paused: bool },
    /// Step 1 of the two-step admin transfer (admin only).
    ProposeAdmin { new_admin: CheckedAddr },
    /// Step 2 of the two-step admin transfer (pending admin only).
    AcceptAdmin {},
    /// Force-complete a Finalizing auction (admin only).
    ForceCompleteAuction { auction_id: u64 },
    /// Update contract configuration (admin only).
    UpdateConfig {
        default_min_bid: Option<u64>,
        anti_snipe_window: Option<u64>,
        anti_snipe_extension: Option<u64>,
        max_extension: Option<u64>,
        max_bidders_per_auction: Option<u64>,
        max_staging_size: Option<u64>,
        max_nfts_per_bid: Option<u64>,
    },
    /// CW721 receive hook: routes incoming NFTs.
    ReceiveNft(Cw721ReceiveMsg),
}

/// Inner message embedded in CW721 Send's `msg` field to route NFTs.
#[derive(Debug, Clone, Copy, PartialEq)]
pub enum ReceiveNftAction {
    /// Bid on an auction with this NFT (cumulative)
    Bid { auction_id: u64 },
    /// Deposit a Cosmic Mad Scientist for a new auction (admin only)
    DepositMega { start_time: u64, end_time: u64, min_bid: Option<u64> },
    /// Deposit a Standard Mad Scientist into the swap staging area
    SwapDeposit,
}

#[derive(Debug, PartialEq)]
pub enum QueryMsg {
    GetConfig {},
    GetAuction { auction_id: u64 },
    GetAllAuctions { status: Option<AuctionStatus>, start_after: Option<u64>, limit: Option<u32> },
    GetBids { auction_id: u64, start_after: Option<CheckedAddr>, limit: Option<u32> },
    GetUserBid { auction_id: u64, bidder: CheckedAddr },
    GetPoolContents { start_after: Option<String>, limit: Option<u32> },
    GetPoolSize {},
    GetSwapStaging { user: CheckedAddr },
}

#[derive(Debug, Clone, PartialEq)]
pub struct ConfigResponse {
    pub admin: String,
    pub pending_admin: Option<String>,
    pub paused: bool,
    pub mad_scientist_collection: String,
    pub mega_mad_scientist_collection: String,
    pub default_min_bid: u64,
    pub anti_snipe_window: u64,
    pub anti_snipe_extension: u64,
    pub max_extension: u64,
    pub max_bidders_per_auction: u64,
    pub max_staging_size: u64,
    pub max_nfts_per_bid: u64,
}

#[derive(Debug, Clone, PartialEq)]
pub struct AuctionResponse {
    pub auction: Auction,
    pub bids: Vec<Bid>,
}

#[derive(Debug, Clone, PartialEq)]
pub struct AuctionsResponse {
    pub auctions: Vec<Auction>,
}

#[derive(Debug, Clone, PartialEq)]
pub struct BidsResponse {
    pub bids: Vec<Bid>,
}

#[derive(Debug, Clone, PartialEq)]
pub struct BidResponse {
    pub bid: Option<Bid>,
}

#[derive(Debug, Clone, PartialEq)]
pub struct PoolContentsResponse {
    pub token_ids: Vec<String>,
}

#[derive(Debug, Clone, Copy, PartialEq)]
pub struct PoolSizeResponse {
    pub size: u64,
}

#[derive(Debug, Clone, PartialEq)]
pub struct SwapStagingResponse {
    pub token_ids: Vec<String>,
}

/// The answer to a query, one variant per query.
#[derive(Debug, Clone, PartialEq)]
pub enum QueryResponse {
    Config(ConfigResponse),
    Auction(AuctionResponse),
    Auctions(AuctionsResponse),
    Bids(BidsResponse),
    UserBid(BidResponse),
    PoolContents(PoolContentsResponse),
    PoolSize(PoolSizeResponse),
    SwapStaging(SwapStagingResponse),
}

} // verus!
