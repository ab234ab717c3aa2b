//! Contract state: configuration, auctions, bids, the swap pool and the
//! bookkeeping maps, held as plain values.
use vstd::prelude::*;

use crate::order::str_lt;

verus! {

/// Top-level contract configuration
#[derive(Debug, Clone, PartialEq)]
pub struct Config {
    /// Contract administrator
    pub admin: String,
    /// Pending admin for two-step transfer (None if no transfer in progress)
    pub pending_admin: Option<String>,
    /// Whether the contract is paused (blocks all ReceiveNft operations)
    pub paused: bool,
    /// CW721 contract address for Standard Mad Scientist NFTs
    pub mad_scientist_collection: String,
    /// CW721 contract address for Cosmic Mad Scientist NFTs
    pub mega_mad_scientist_collection: String,
    /// Default minimum bid (number of Standard Mad Scientists)
    pub default_min_bid: u64,
    /// Anti-sniping window in seconds.
    pub anti_snipe_window: u64,
    /// Anti-sniping extension in seconds (how much time to add)
    pub anti_snipe_extension: u64,
    /// Maximum total extension allowed beyond original_end_time.
    pub max_extension: u64,
    /// Maximum unique bidders per auction.
    pub max_bidders_per_auction: u64,
    /// Maximum tokens a user can stage for swapping.
    pub max_staging_size: u64,
    /// Maximum NFTs a single bidder can escrow per auction.
    pub max_nfts_per_bid: u64,
}

/// Status of an auction
#[derive(Debug, Clone, Copy, PartialEq, Eq, Structural)]
pub enum AuctionStatus {
    Active,
    Completed,
    Cancelled,
    /// Auction ended, winner determined, but losers still need to withdraw.
    /// Transitions to Completed once all losers have withdrawn (or admin force-completes).
    Finalizing,
}

/// An auction for a single Cosmic Mad Scientist NFT
#[derive(Debug, Clone, PartialEq)]
pub struct Auction {
    pub auction_id: u64,
    /// Address that deposited the Cosmic Mad Scientist NFT that this auction is selling
    pub depositor: String,
    /// Token ID of the Cosmic Mad Scientist NFT being auctioned
    pub mega_token_id: String,
    /// Block time when auction starts (seconds)
    pub start_time: u64,
    /// Block time when auction ends (seconds), may be extended by anti-sniping
    pub end_time: u64,
    /// Original end time before any anti-snipe extensions
    pub original_end_time: u64,
    pub status: AuctionStatus,
    /// Minimum number of Standard Mad Scientists required to bid
    pub min_bid: u64,
    /// Current highest bid quantity
    pub highest_bid_count: u64,
    /// Address of the current highest bidder (None if no bids)
    pub highest_bidder: Option<String>,
    /// Timestamp of the highest bid
    pub highest_bid_time: u64,
    /// Total number of unique bidders (any escrow deposit counts)
    pub total_bidders: u64,
}

/// A bid placed by a user on a specific auction
#[derive(Debug, Clone, PartialEq)]
pub struct Bid {
    pub bidder: String,
    /// Standard Mad Scientist token IDs offered (and escrowed) in this bid
    pub token_ids: Vec<String>,
    /// Timestamp when this bid was last extended
    pub timestamp: u64,
}

/// Record of a swap transaction (emitted as attributes, not stored)
#[derive(Debug, Clone, PartialEq)]
pub struct SwapRecord {
    pub swapper: String,
    /// Token IDs the swapper sent into the pool
    pub offered_ids: Vec<String>,
    /// Token IDs the swapper received from the pool
    pub received_ids: Vec<String>,
    /// Block time of the swap
    pub timestamp: u64,
}

/// A bid stored under its auction: the entry of key `(auction_id, bid.bidder)`.
#[derive(Debug, Clone, PartialEq)]
pub struct BidEntry {
    pub auction_id: u64,
    pub bid: Bid,
}

/// An entry `token_id -> auction_id` of a token-keyed map.
#[derive(Debug, Clone, PartialEq)]
pub struct TokenLock {
    pub token_id: String,
    pub auction_id: u64,
}

/// The tokens one user has staged for a swap.
#[derive(Debug, Clone, PartialEq)]
pub struct StagedTokens {
    pub owner: String,
    pub token_ids: Vec<String>,
}

/// Everything the contract stores.
#[derive(Debug, Clone, PartialEq)]
pub struct State {
    pub config: Config,
    /// Identifier the next auction will get
    pub next_auction_id: u64,
    /// Auctions in order of their identifiers, which run from 1
    pub auctions: Vec<Auction>,
    /// Bids keyed by `(auction_id, bidder)`, in ascending key order
    pub bids: Vec<BidEntry>,
    /// Token IDs in the swap pool, in ascending key order
    pub pool: Vec<String>,
    /// Counter of the pool's size
    pub pool_size: u64,
    /// Bid token -> auction it is escrowed in
    pub escrowed_bid_tokens: Vec<TokenLock>,
    /// Cosmic token -> its active auction
    pub active_mega_auctions: Vec<TokenLock>,
    /// Per-user swap staging areas
    pub swap_staging: Vec<StagedTokens>,
}

/// The characters of each string of a sequence.
pub open spec fn seq_view(s: Seq<String>) -> Seq<Seq<char>> {
    s.map_values(|t: String| t@)
}

/// Storage order of bid keys: by auction, then by bidder.
pub open spec fn bid_key_lt(a1: u64, b1: Seq<char>, a2: u64, b2: Seq<char>) -> bool {
    a1 < a2 || (a1 == a2 && str_lt(b1, b2))
}

pub open spec fn entry_lt(x: BidEntry, y: BidEntry) -> bool {
    bid_key_lt(x.auction_id, x.bid.bidder@, y.auction_id, y.bid.bidder@)
}

/// Bid entries in strictly ascending key order.
pub open spec fn bids_sorted(s: Seq<BidEntry>) -> bool {
    forall|i: int, j: int| 0 <= i < j < s.len() ==> entry_lt(#[trigger] s[i], #[trigger] s[j])
}

/// Strings in strictly ascending key order.
pub open spec fn strs_sorted(s: Seq<String>) -> bool {
    forall|i: int, j: int| 0 <= i < j < s.len() ==> str_lt((#[trigger] s[i])@, (#[trigger] s[j])@)
}

pub open spec fn locks_unique(s: Seq<TokenLock>) -> bool {
    forall|i: int, j: int|
        0 <= i < s.len() && 0 <= j < s.len() && i != j ==> (#[trigger] s[i]).token_id@
            != (#[trigger] s[j]).token_id@
}

pub open spec fn staging_unique(s: Seq<StagedTokens>) -> bool {
    forall|i: int, j: int|
        0 <= i < s.len() && 0 <= j < s.len() && i != j ==> (#[trigger] s[i]).owner@
            != (#[trigger] s[j]).owner@
}

/// Position of the last entry of `s` for token `t`, or -1.
pub open spec fn lock_index(s: Seq<TokenLock>, t: Seq<char>) -> int
    decreases s.len(),
{
    if s.len() == 0 {
        -1
    } else if s.last().token_id@ == t {
        s.len() - 1
    } else {
        lock_index(s.drop_last(), t)
    }
}

/// Position of the last staging area of `owner`, or -1.
pub open spec fn staging_index(s: Seq<StagedTokens>, owner: Seq<char>) -> int
    decreases s.len(),
{
    if s.len() == 0 {
        -1
    } else if s.last().owner@ == owner {
        s.len() - 1
    } else {
        staging_index(s.drop_last(), owner)
    }
}

/// Position of the last bid entry of key `(id, bidder)`, or -1.
pub open spec fn bid_index(s: Seq<BidEntry>, id: u64, bidder: Seq<char>) -> int
    decreases s.len(),
{
    if s.len() == 0 {
        -1
    } else if s.last().auction_id == id && s.last().bid.bidder@ == bidder {
        s.len() - 1
    } else {
        bid_index(s.drop_last(), id, bidder)
    }
}

/// Number of leading bid entries whose keys come before `(id, bidder)`:
/// where a new entry of that key goes in a sorted sequence.
pub open spec fn bid_insert_pos(s: Seq<BidEntry>, id: u64, bidder: Seq<char>) -> int
    decreases s.len(),
{
    if s.len() == 0 {
        0
    } else if bid_key_lt(s[0].auction_id, s[0].bid.bidder@, id, bidder) {
        1 + bid_insert_pos(s.drop_first(), id, bidder)
    } else {
        0
    }
}

/// Number of leading strings that come before `t`.
pub open spec fn str_insert_pos(s: Seq<String>, t: Seq<char>) -> int
    decreases s.len(),
{
    if s.len() == 0 {
        0
    } else if str_lt(s[0]@, t) {
        1 + str_insert_pos(s.drop_first(), t)
    } else {
        0
    }
}

/// Whether some string of `s` has the characters `t`.
pub open spec fn has_str(s: Seq<String>, t: Seq<char>) -> bool {
    exists|i: int| 0 <= i < s.len() && (#[trigger] s[i])@ == t
}

/// Whether some bidder other than `winner` still has tokens escrowed in auction `id`.
pub open spec fn losers_remain(bids: Seq<BidEntry>, id: u64, winner: Option<String>) -> bool {
    exists|i: int|
        0 <= i < bids.len() && (#[trigger] bids[i]).auction_id == id && bids[i].bid.token_ids@.len() > 0
            && match winner {
            Some(w) => bids[i].bid.bidder@ != w@,
            None => true,
        }
}

impl State {
    /// Representation invariant: auction identifiers match positions,
    /// keyed collections hold each key once and ordered ones are sorted.
    pub open spec fn wf(&self) -> bool {
        &&& self.next_auction_id == self.auctions@.len() + 1
        &&& forall|i: int|
            0 <= i < self.auctions@.len() ==> (#[trigger] self.auctions@[i]).auction_id == i + 1
        &&& bids_sorted(self.bids@)
        &&& strs_sorted(self.pool@)
        &&& locks_unique(self.escrowed_bid_tokens@)
        &&& locks_unique(self.active_mega_auctions@)
        &&& staging_unique(self.swap_staging@)
    }

    pub open spec fn has_auction(&self, id: u64) -> bool {
        1 <= id <= self.auctions@.len()
    }

    pub open spec fn auction(&self, id: u64) -> Auction {
        self.auctions@[id - 1]
    }
}

pub proof fn lemma_lock_index(s: Seq<TokenLock>, t: Seq<char>)
    ensures
        -1 <= lock_index(s, t) < s.len(),
        lock_index(s, t) >= 0 ==> s[lock_index(s, t)].token_id@ == t,
        forall|j: int| lock_index(s, t) < j < s.len() ==> (#[trigger] s[j]).token_id@ != t,
    decreases s.len(),
{
    if s.len() > 0 {
        lemma_lock_index(s.drop_last(), t);
        assert(forall|j: int| 0 <= j < s.len() - 1 ==> s.drop_last()[j] == #[trigger] s[j]);
    }
}

pub proof fn lemma_staging_index(s: Seq<StagedTokens>, owner: Seq<char>)
    ensures
        -1 <= staging_index(s, owner) < s.len(),
        staging_index(s, owner) >= 0 ==> s[staging_index(s, owner)].owner@ == owner,
        forall|j: int| staging_index(s, owner) < j < s.len() ==> (#[trigger] s[j]).owner@ != owner,
    decreases s.len(),
{
    if s.len() > 0 {
        lemma_staging_index(s.drop_last(), owner);
        assert(forall|j: int| 0 <= j < s.len() - 1 ==> s.drop_last()[j] == #[trigger] s[j]);
    }
}

pub proof fn lemma_bid_index(s: Seq<BidEntry>, id: u64, bidder: Seq<char>)
    ensures
        -1 <= bid_index(s, id, bidder) < s.len(),
        bid_index(s, id, bidder) >= 0 ==> s[bid_index(s, id, bidder)].auction_id == id
            && s[bid_index(s, id, bidder)].bid.bidder@ == bidder,
        forall|j: int|
            bid_index(s, id, bidder) < j < s.len() ==> !((#[trigger] s[j]).auction_id == id
                && s[j].bid.bidder@ == bidder),
    decreases s.len(),
{
    if s.len() > 0 {
        lemma_bid_index(s.drop_last(), id, bidder);
        assert(forall|j: int| 0 <= j < s.len() - 1 ==> s.drop_last()[j] == #[trigger] s[j]);
    }
}

} // verus!

verus! {

/// A copy of an optional string.
pub fn copy_opt_string(o: &Option<String>) -> (r: Option<String>)
    ensures
        r == *o,
{
    match o {
        Some(x) => Some(x.clone()),
        None => None,
    }
}

/// A copy of a list of strings.
pub fn copy_strings(v: &Vec<String>) -> (r: Vec<String>)
    ensures
        r@ == v@,
{
    let r = v.clone();
    assert(r@ =~= v@);
    r
}

impl Config {
    /// A copy of the configuration.
    pub fn clone_config(&self) -> (c: Config)
        ensures
            c == *self,
    {
        Config {
            admin: self.admin.clone(),
            pending_admin: copy_opt_string(&self.pending_admin),
            paused: self.paused,
            mad_scientist_collection: self.mad_scientist_collection.clone(),
            mega_mad_scientist_collection: self.mega_mad_scientist_collection.clone(),
            default_min_bid: self.default_min_bid,
            anti_snipe_window: self.anti_snipe_window,
            anti_snipe_extension: self.anti_snipe_extension,
            max_extension: self.max_extension,
            max_bidders_per_auction: self.max_bidders_per_auction,
            max_staging_size: self.max_staging_size,
            max_nfts_per_bid: self.max_nfts_per_bid,
        }
    }
}

impl Auction {
    /// A copy of the auction.
    pub fn clone_auction(&self) -> (a: Auction)
        ensures
            a == *self,
    {
        Auction {
            auction_id: self.auction_id,
            depositor: self.depositor.clone(),
            mega_token_id: self.mega_token_id.clone(),
            start_time: self.start_time,
            end_time: self.end_time,
            original_end_time: self.original_end_time,
            status: self.status,
            min_bid: self.min_bid,
            highest_bid_count: self.highest_bid_count,
            highest_bidder: copy_opt_string(&self.highest_bidder),
            highest_bid_time: self.highest_bid_time,
            total_bidders: self.total_bidders,
        }
    }
}

impl Bid {
    /// A copy of the bid.
    pub fn clone_bid(&self) -> (b: Bid)
        ensures
            b.bidder == self.bidder,
            b.token_ids@ == self.token_ids@,
            b.timestamp == self.timestamp,
    {
        Bid {
            bidder: self.bidder.clone(),
            token_ids: copy_strings(&self.token_ids),
            timestamp: self.timestamp,
        }
    }
}

} // verus!
