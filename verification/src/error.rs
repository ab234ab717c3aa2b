use vstd::prelude::*;

verus! {

/// Declares the host's error type, `cosmwasm_std::StdError`, to Verus as an
/// opaque type. Values of it arise outside this library (address validation,
/// missing storage entries) and are carried through unchanged.
#[verifier::external_type_specification]
#[verifier::external_body]
pub struct ExStdError(cosmwasm_std::StdError);

/// Every way a query can fail.
#[derive(Debug, PartialEq)]
pub enum QueryError {
    /// The host's error for an address given in the query.
    Std(cosmwasm_std::StdError),
    /// No auction has this identifier.
    AuctionNotFound { auction_id: u64 },
}

/// Every way an entry point of the contract can refuse a message.
#[derive(Debug, PartialEq)]
pub enum ContractError {
    Std(cosmwasm_std::StdError),
    Unauthorized {},
    AuctionNotFound { auction_id: u64 },
    AuctionNotActive { auction_id: u64 },
    AuctionNotEnded { auction_id: u64, end_time: u64 },
    AuctionAlreadyEnded { auction_id: u64 },
    AuctionNotStarted { start_time: u64 },
    BidBelowMinimum { bid_count: u64, min_bid: u64 },
    BidNotHighEnough { highest: u64 },
    InvalidAuctionTimes { start_time: u64, end_time: u64 },
    SwapLengthMismatch {},
    SwapEmpty {},
    TokenNotInPool { token_id: String },
    SwapOverlap { token_id: String },
    DuplicateTokenId { token_id: String },
    TokenAlreadyEscrowedInAuction { token_id: String, auction_id: u64 },
    UnexpectedCollection { collection: String },
    InvalidReceiveMsg {},
    NoBids { auction_id: u64 },
    NotTokenOwner { token_id: String },
    MegaNotEscrowed { token_id: String },
    DuplicateMegaAuction { token_id: String, auction_id: u64 },
    CannotCancelWithBids { auction_id: u64 },
    WithdrawNotAllowed { auction_id: u64 },
    NothingToWithdraw { auction_id: u64 },
    NoStagedTokens {},
    SwapCountMismatch { staged: u64, requested: u64 },
    ContractPaused {},
    NoPendingAdmin {},
    NotPendingAdmin {},
    MaxBiddersReached { auction_id: u64, max: u64 },
    StagingLimitReached { max: u64 },
    NotFinalizing { auction_id: u64 },
    InvalidConfig { reason: String },
    FundsNotAllowed {},
    CollectionAddressCollision {},
    MaxEscrowPerBidder { auction_id: u64, max: u64 },
}

} // verus!
