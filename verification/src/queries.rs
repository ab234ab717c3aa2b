//! Read-only queries over the state.
use vstd::prelude::*;

use crate::collections::find_bid;
use crate::contract::{DEFAULT_LIMIT, MAX_LIMIT};
use crate::error::QueryError;
use crate::msg::{
    AuctionResponse, AuctionsResponse, BidResponse, BidsResponse, CheckedAddr, ConfigResponse,
    PoolContentsResponse, PoolSizeResponse, QueryMsg, QueryResponse, SwapStagingResponse,
};
use crate::order::{str_less, str_lt};
use crate::state::{
    bid_index, copy_strings, strs_sorted, Auction, AuctionStatus, Bid, BidEntry, Config, State,
};
use crate::swap::staged_of;

verus! {

/// How many entries a page holds: the requested limit (by default 30), at most 100.
pub open spec fn page_size(limit: Option<u32>) -> nat {
    let l = match limit {
        Some(l) => l,
        None => DEFAULT_LIMIT,
    };
    if l <= MAX_LIMIT {
        l as nat
    } else {
        MAX_LIMIT as nat
    }
}

/// How many auctions a page holds: as `page_size`, but never fewer than one,
/// since an auction is taken before the page is checked for room.
pub open spec fn auction_page_size(limit: Option<u32>) -> nat {
    if page_size(limit) == 0 {
        1
    } else {
        page_size(limit)
    }
}

/// Whether `e` is a bid on auction `id` by a bidder after `start`.
pub open spec fn bid_selected(e: BidEntry, id: u64, start: Option<Seq<char>>) -> bool {
    e.auction_id == id && match start {
        Some(st) => str_lt(st, e.bid.bidder@),
        None => true,
    }
}

/// The entries of `s` on auction `id` with bidders after `start`, in order.
pub open spec fn bids_selected(s: Seq<BidEntry>, id: u64, start: Option<Seq<char>>) -> Seq<BidEntry>
    decreases s.len(),
{
    if s.len() == 0 {
        Seq::empty()
    } else if bid_selected(s.last(), id, start) {
        bids_selected(s.drop_last(), id, start).push(s.last())
    } else {
        bids_selected(s.drop_last(), id, start)
    }
}

/// Whether auction `a` comes after `start` and has status `status` (when given).
pub open spec fn auction_selected(a: Auction, status: Option<AuctionStatus>, start: Option<u64>) -> bool {
    &&& match start {
        Some(st) => a.auction_id > st,
        None => true,
    }
    &&& match status {
        Some(st) => a.status == st,
        None => true,
    }
}

pub open spec fn auctions_selected(
    s: Seq<Auction>,
    status: Option<AuctionStatus>,
    start: Option<u64>,
) -> Seq<Auction>
    decreases s.len(),
{
    if s.len() == 0 {
        Seq::empty()
    } else if auction_selected(s.last(), status, start) {
        auctions_selected(s.drop_last(), status, start).push(s.last())
    } else {
        auctions_selected(s.drop_last(), status, start)
    }
}

pub open spec fn token_selected(t: String, start: Option<Seq<char>>) -> bool {
    match start {
        Some(st) => str_lt(st, t@),
        None => true,
    }
}

pub open spec fn tokens_selected(s: Seq<String>, start: Option<Seq<char>>) -> Seq<String>
    decreases s.len(),
{
    if s.len() == 0 {
        Seq::empty()
    } else if token_selected(s.last(), start) {
        tokens_selected(s.drop_last(), start).push(s.last())
    } else {
        tokens_selected(s.drop_last(), start)
    }
}

/// `b` is a copy of the bid of entry `e`.
pub open spec fn bid_copy(b: Bid, e: BidEntry) -> bool {
    b.bidder == e.bid.bidder && b.token_ids@ == e.bid.token_ids@ && b.timestamp == e.bid.timestamp
}

/// `out` holds copies of the first `n` entries of `sel` (all, if fewer).
pub open spec fn bids_page(out: Seq<Bid>, sel: Seq<BidEntry>, n: nat) -> bool {
    &&& out.len() == if sel.len() < n {
        sel.len()
    } else {
        n
    }
    &&& forall|i: int| 0 <= i < out.len() ==> bid_copy(#[trigger] out[i], sel[i])
}

proof fn lemma_bids_selected_prefix(s: Seq<BidEntry>, id: u64, start: Option<Seq<char>>, i: int)
    requires
        0 <= i <= s.len(),
    ensures
        bids_selected(s.take(i), id, start).len() <= bids_selected(s, id, start).len(),
        forall|j: int|
            0 <= j < bids_selected(s.take(i), id, start).len() ==> #[trigger] bids_selected(
                s.take(i),
                id,
                start,
            )[j] == bids_selected(s, id, start)[j],
    decreases s.len(),
{
    if i == s.len() {
        assert(s.take(i) =~= s);
    } else {
        assert(s.drop_last().take(i) =~= s.take(i));
        lemma_bids_selected_prefix(s.drop_last(), id, start, i);
    }
}

proof fn lemma_auctions_selected_prefix(
    s: Seq<Auction>,
    status: Option<AuctionStatus>,
    start: Option<u64>,
    i: int,
)
    requires
        0 <= i <= s.len(),
    ensures
        auctions_selected(s.take(i), status, start).len() <= auctions_selected(s, status, start).len(),
        forall|j: int|
            0 <= j < auctions_selected(s.take(i), status, start).len() ==> #[trigger] auctions_selected(
                s.take(i),
                status,
                start,
            )[j] == auctions_selected(s, status, start)[j],
    decreases s.len(),
{
    if i == s.len() {
        assert(s.take(i) =~= s);
    } else {
        assert(s.drop_last().take(i) =~= s.take(i));
        lemma_auctions_selected_prefix(s.drop_last(), status, start, i);
    }
}

proof fn lemma_tokens_selected_prefix(s: Seq<String>, start: Option<Seq<char>>, i: int)
    requires
        0 <= i <= s.len(),
    ensures
        tokens_selected(s.take(i), start).len() <= tokens_selected(s, start).len(),
        forall|j: int|
            0 <= j < tokens_selected(s.take(i), start).len() ==> #[trigger] tokens_selected(
                s.take(i),
                start,
            )[j] == tokens_selected(s, start)[j],
    decreases s.len(),
{
    if i == s.len() {
        assert(s.take(i) =~= s);
    } else {
        assert(s.drop_last().take(i) =~= s.take(i));
        lemma_tokens_selected_prefix(s.drop_last(), start, i);
    }
}

fn page_limit(limit: Option<u32>) -> (n: usize)
    ensures
        n == page_size(limit),
{
    let l = match limit {
        Some(l) => l,
        None => DEFAULT_LIMIT,
    };
    if l <= MAX_LIMIT {
        l as usize
    } else {
        MAX_LIMIT as usize
    }
}

/// Copies of the bids on auction `id` by bidders after `start`, at most `limit` of them.
fn select_bids(entries: &Vec<BidEntry>, id: u64, start: Option<&String>, limit: usize) -> (out: Vec<Bid>)
    ensures
        bids_page(
            out@,
            bids_selected(
                entries@,
                id,
                match start {
                    Some(st) => Some(st@),
                    None => None,
                },
            ),
            limit as nat,
        ),
{
    let ghost st = match start {
        Some(st) => Some(st@),
        None => None::<Seq<char>>,
    };
    let mut out: Vec<Bid> = Vec::new();
    let mut i: usize = 0;
    assert(entries@.take(0) =~= Seq::<BidEntry>::empty());
    while i < entries.len() && out.len() < limit
        invariant
            st == match start {
                Some(s0) => Some(s0@),
                None => None::<Seq<char>>,
            },
            i <= entries@.len(),
            out@.len() <= limit,
            out@.len() == bids_selected(entries@.take(i as int), id, st).len(),
            forall|j: int|
                0 <= j < out@.len() ==> bid_copy(
                    #[trigger] out@[j],
                    bids_selected(entries@.take(i as int), id, st)[j],
                ),
        decreases entries@.len() - i,
    {
        let e = &entries[i];
        let selected = e.auction_id == id && match start {
            Some(s0) => str_less(s0.as_str(), e.bid.bidder.as_str()),
            None => true,
        };
        assert(entries@.take(i + 1).drop_last() =~= entries@.take(i as int));
        assert(entries@.take(i + 1).last() == entries@[i as int]);
        if selected {
            out.push(e.bid.clone_bid());
        }
        i = i + 1;
    }
    proof {
        lemma_bids_selected_prefix(entries@, id, st, i as int);
        if i == entries@.len() {
            assert(entries@.take(i as int) =~= entries@);
        }
    }
    out
}

/// The auctions after `start` with status `status`, at most `limit` of them.
fn select_auctions(
    auctions: &Vec<Auction>,
    status: Option<AuctionStatus>,
    start: Option<u64>,
    limit: usize,
) -> (out: Vec<Auction>)
    ensures
        out@ == auctions_selected(auctions@, status, start).take(
            if auctions_selected(auctions@, status, start).len() < limit {
                auctions_selected(auctions@, status, start).len() as int
            } else {
                limit as int
            },
        ),
{
    let mut out: Vec<Auction> = Vec::new();
    let mut i: usize = 0;
    assert(auctions@.take(0) =~= Seq::<Auction>::empty());
    while i < auctions.len() && out.len() < limit
        invariant
            i <= auctions@.len(),
            out@.len() <= limit,
            out@ == auctions_selected(auctions@.take(i as int), status, start),
        decreases auctions@.len() - i,
    {
        let a = &auctions[i];
        let after = match start {
            Some(st) => a.auction_id > st,
            None => true,
        };
        let matches_status = match status {
            Some(st) => a.status == st,
            None => true,
        };
        assert(auctions@.take(i + 1).drop_last() =~= auctions@.take(i as int));
        assert(auctions@.take(i + 1).last() == auctions@[i as int]);
        if after && matches_status {
            out.push(a.clone_auction());
        }
        i = i + 1;
    }
    proof {
        lemma_auctions_selected_prefix(auctions@, status, start, i as int);
        if i == auctions@.len() {
            assert(auctions@.take(i as int) =~= auctions@);
        }
        let sel = auctions_selected(auctions@, status, start);
        let n = if sel.len() < limit {
            sel.len() as int
        } else {
            limit as int
        };
        assert(out@ =~= sel.take(n));
    }
    out
}

/// The pool tokens after `start`, at most `limit` of them.
fn select_tokens(pool: &Vec<String>, start: Option<&String>, limit: usize) -> (out: Vec<String>)
    ensures
        ({
            let sel = tokens_selected(
                pool@,
                match start {
                    Some(st) => Some(st@),
                    None => None,
                },
            );
            out@ == sel.take(
                if sel.len() < limit {
                    sel.len() as int
                } else {
                    limit as int
                },
            )
        }),
{
    let ghost st = match start {
        Some(st) => Some(st@),
        None => None::<Seq<char>>,
    };
    let mut out: Vec<String> = Vec::new();
    let mut i: usize = 0;
    assert(pool@.take(0) =~= Seq::<String>::empty());
    while i < pool.len() && out.len() < limit
        invariant
            st == match start {
                Some(s0) => Some(s0@),
                None => None::<Seq<char>>,
            },
            i <= pool@.len(),
            out@.len() <= limit,
            out@ == tokens_selected(pool@.take(i as int), st),
        decreases pool@.len() - i,
    {
        let selected = match start {
            Some(s0) => str_less(s0.as_str(), pool[i].as_str()),
            None => true,
        };
        assert(pool@.take(i + 1).drop_last() =~= pool@.take(i as int));
        assert(pool@.take(i + 1).last() == pool@[i as int]);
        if selected {
            out.push(pool[i].clone());
        }
        i = i + 1;
    }
    proof {
        lemma_tokens_selected_prefix(pool@, st, i as int);
        if i == pool@.len() {
            assert(pool@.take(i as int) =~= pool@);
        }
        let sel = tokens_selected(pool@, st);
        let n = if sel.len() < limit {
            sel.len() as int
        } else {
            limit as int
        };
        assert(out@ =~= sel.take(n));
    }
    out
}

/// `c` reports configuration `config`.
pub open spec fn reports_config(c: ConfigResponse, config: Config) -> bool {
    &&& c.admin == config.admin
    &&& c.pending_admin == config.pending_admin
    &&& c.paused == config.paused
    &&& c.mad_scientist_collection == config.mad_scientist_collection
    &&& c.mega_mad_scientist_collection == config.mega_mad_scientist_collection
    &&& c.default_min_bid == config.default_min_bid
    &&& c.anti_snipe_window == config.anti_snipe_window
    &&& c.anti_snipe_extension == config.anti_snipe_extension
    &&& c.max_extension == config.max_extension
    &&& c.max_bidders_per_auction == config.max_bidders_per_auction
    &&& c.max_staging_size == config.max_staging_size
    &&& c.max_nfts_per_bid == config.max_nfts_per_bid
}

pub open spec fn checked_start(start: Option<CheckedAddr>) -> Option<Seq<char>> {
    match start {
        Some(Ok(a)) => Some(a@),
        _ => None,
    }
}

pub open spec fn query_post(s: State, msg: QueryMsg, r: Result<QueryResponse, QueryError>) -> bool {
    match msg {
        QueryMsg::GetConfig {} => r matches Ok(QueryResponse::Config(c)) && reports_config(c, s.config),
        QueryMsg::GetAuction { auction_id } => if !s.has_auction(auction_id) {
            r == Err::<QueryResponse, QueryError>(QueryError::AuctionNotFound { auction_id })
        } else {
            r matches Ok(QueryResponse::Auction(resp)) && resp.auction == s.auction(auction_id)
                && bids_page(
                resp.bids@,
                bids_selected(s.bids@, auction_id, None),
                MAX_LIMIT as nat,
            )
        },
        QueryMsg::GetAllAuctions { status, start_after, limit } => {
            let sel = auctions_selected(s.auctions@, status, start_after);
            r matches Ok(QueryResponse::Auctions(resp)) && resp.auctions@ == sel.take(
                if sel.len() < auction_page_size(limit) {
                    sel.len() as int
                } else {
                    auction_page_size(limit) as int
                },
            )
        },
        QueryMsg::GetBids { auction_id, start_after, limit } => match start_after {
            Some(Err(e)) => r == Err::<QueryResponse, QueryError>(QueryError::Std(e)),
            _ => r matches Ok(QueryResponse::Bids(resp)) && bids_page(
                resp.bids@,
                bids_selected(s.bids@, auction_id, checked_start(start_after)),
                page_size(limit),
            ),
        },
        QueryMsg::GetUserBid { auction_id, bidder } => match bidder {
            Err(e) => r == Err::<QueryResponse, QueryError>(QueryError::Std(e)),
            Ok(b) => r matches Ok(QueryResponse::UserBid(resp)) && if bid_index(
                s.bids@,
                auction_id,
                b@,
            ) >= 0 {
                resp.bid matches Some(x) && bid_copy(x, s.bids@[bid_index(s.bids@, auction_id, b@)])
            } else {
                resp.bid is None
            },
        },
        QueryMsg::GetPoolContents { start_after, limit } => {
            let sel = tokens_selected(
                s.pool@,
                match start_after {
                    Some(st) => Some(st@),
                    None => None,
                },
            );
            r matches Ok(QueryResponse::PoolContents(resp)) && resp.token_ids@ == sel.take(
                if sel.len() < page_size(limit) {
                    sel.len() as int
                } else {
                    page_size(limit) as int
                },
            )
        },
        QueryMsg::GetPoolSize {} => r matches Ok(QueryResponse::PoolSize(resp)) && resp.size
            == s.pool_size,
        QueryMsg::GetSwapStaging { user } => match user {
            Err(e) => r == Err::<QueryResponse, QueryError>(QueryError::Std(e)),
            Ok(u) => r matches Ok(QueryResponse::SwapStaging(resp)) && resp.token_ids@ == staged_of(
                s,
                u@,
            ),
        },
    }
}

/// Answers `msg` from state `s`.
pub fn query(s: &State, msg: QueryMsg) -> (r: Result<QueryResponse, QueryError>)
    requires
        s.wf(),
    ensures
        query_post(*s, msg, r),
{
    match msg {
        QueryMsg::GetConfig {} => Ok(QueryResponse::Config(query_config(s))),
        QueryMsg::GetAuction { auction_id } => match query_auction(s, auction_id) {
            Ok(resp) => Ok(QueryResponse::Auction(resp)),
            Err(e) => Err(e),
        },
        QueryMsg::GetAllAuctions { status, start_after, limit } => Ok(
            QueryResponse::Auctions(query_all_auctions(s, status, start_after, limit)),
        ),
        QueryMsg::GetBids { auction_id, start_after, limit } => match query_bids(
            s,
            auction_id,
            start_after,
            limit,
        ) {
            Ok(resp) => Ok(QueryResponse::Bids(resp)),
            Err(e) => Err(QueryError::Std(e)),
        },
        QueryMsg::GetUserBid { auction_id, bidder } => match query_user_bid(s, auction_id, bidder) {
            Ok(resp) => Ok(QueryResponse::UserBid(resp)),
            Err(e) => Err(QueryError::Std(e)),
        },
        QueryMsg::GetPoolContents { start_after, limit } => Ok(
            QueryResponse::PoolContents(query_pool_contents(s, start_after, limit)),
        ),
        QueryMsg::GetPoolSize {} => Ok(QueryResponse::PoolSize(query_pool_size(s))),
        QueryMsg::GetSwapStaging { user } => match query_swap_staging(s, user) {
            Ok(resp) => Ok(QueryResponse::SwapStaging(resp)),
            Err(e) => Err(QueryError::Std(e)),
        },
    }
}

/// Auction `auction_id` with the first of its bids, in bidder order (at
/// most 100 of them); an error when there is no such auction.
pub fn query_auction(s: &State, auction_id: u64) -> (r: Result<AuctionResponse, QueryError>)
    requires
        s.wf(),
    ensures
        !s.has_auction(auction_id) ==> r == Err::<AuctionResponse, QueryError>(
            QueryError::AuctionNotFound { auction_id },
        ),
        s.has_auction(auction_id) ==> r is Ok,
        r matches Ok(resp) ==> resp.auction == s.auction(auction_id) && bids_page(
            resp.bids@,
            bids_selected(s.bids@, auction_id, None),
            MAX_LIMIT as nat,
        ),
{
    if auction_id < 1 || auction_id > s.auctions.len() as u64 {
        return Err(QueryError::AuctionNotFound { auction_id });
    }
    let auction = s.auctions[(auction_id - 1) as usize].clone_auction();
    let bids = select_bids(&s.bids, auction_id, None, MAX_LIMIT as usize);
    Ok(AuctionResponse { auction, bids })
}

/// One page of the auctions after `start_after` with status `status` (when
/// given), in identifier order; a limit of zero still gives the first match.
pub fn query_all_auctions(
    s: &State,
    status: Option<AuctionStatus>,
    start_after: Option<u64>,
    limit: Option<u32>,
) -> (resp: AuctionsResponse)
    ensures
        ({
            let sel = auctions_selected(s.auctions@, status, start_after);
            resp.auctions@ == sel.take(
                if sel.len() < auction_page_size(limit) {
                    sel.len() as int
                } else {
                    auction_page_size(limit) as int
                },
            )
        }),
{
    let n = page_limit(limit);
    let n = if n == 0 {
        1
    } else {
        n
    };
    AuctionsResponse { auctions: select_auctions(&s.auctions, status, start_after, n) }
}

/// One page of the bids on auction `auction_id` by bidders after
/// `start_after`, in bidder order; the host's error for an invalid address.
pub fn query_bids(s: &State, auction_id: u64, start_after: Option<CheckedAddr>, limit: Option<u32>) -> (r:
    Result<BidsResponse, cosmwasm_std::StdError>)
    ensures
        match start_after {
            Some(Err(e)) => r == Err::<BidsResponse, cosmwasm_std::StdError>(e),
            _ => r matches Ok(resp) && bids_page(
                resp.bids@,
                bids_selected(s.bids@, auction_id, checked_start(start_after)),
                page_size(limit),
            ),
        },
{
    let start = match start_after {
        Some(Ok(a)) => Some(a),
        Some(Err(e)) => {
            return Err(e);
        },
        None => None,
    };
    let bids = match &start {
        Some(a) => select_bids(&s.bids, auction_id, Some(a), page_limit(limit)),
        None => select_bids(&s.bids, auction_id, None, page_limit(limit)),
    };
    Ok(BidsResponse { bids })
}

/// The bid of `bidder` on auction `auction_id`, if there is one; the host's
/// error for an invalid address.
pub fn query_user_bid(s: &State, auction_id: u64, bidder: CheckedAddr) -> (r: Result<
    BidResponse,
    cosmwasm_std::StdError,
>)
    ensures
        match bidder {
            Err(e) => r == Err::<BidResponse, cosmwasm_std::StdError>(e),
            Ok(b) => r matches Ok(resp) && if bid_index(s.bids@, auction_id, b@) >= 0 {
                resp.bid matches Some(x) && bid_copy(x, s.bids@[bid_index(s.bids@, auction_id, b@)])
            } else {
                resp.bid is None
            },
        },
{
    let b = match bidder {
        Ok(b) => b,
        Err(e) => {
            return Err(e);
        },
    };
    let bid = match find_bid(&s.bids, auction_id, &b) {
        Some(i) => Some(s.bids[i].bid.clone_bid()),
        None => None,
    };
    Ok(BidResponse { bid })
}

/// One page of the pool's tokens after `start_after`, in token order.
pub fn query_pool_contents(s: &State, start_after: Option<String>, limit: Option<u32>) -> (resp:
    PoolContentsResponse)
    ensures
        ({
            let sel = tokens_selected(
                s.pool@,
                match start_after {
                    Some(st) => Some(st@),
                    None => None,
                },
            );
            resp.token_ids@ == sel.take(
                if sel.len() < page_size(limit) {
                    sel.len() as int
                } else {
                    page_size(limit) as int
                },
            )
        }),
{
    let token_ids = match &start_after {
        Some(st) => select_tokens(&s.pool, Some(st), page_limit(limit)),
        None => select_tokens(&s.pool, None, page_limit(limit)),
    };
    PoolContentsResponse { token_ids }
}

/// The pool's size counter.
pub fn query_pool_size(s: &State) -> (resp: PoolSizeResponse)
    ensures
        resp.size == s.pool_size,
{
    PoolSizeResponse { size: s.pool_size }
}

/// The tokens `user` has staged; the host's error for an invalid address.
pub fn query_swap_staging(s: &State, user: CheckedAddr) -> (r: Result<
    SwapStagingResponse,
    cosmwasm_std::StdError,
>)
    ensures
        match user {
            Err(e) => r == Err::<SwapStagingResponse, cosmwasm_std::StdError>(e),
            Ok(u) => r matches Ok(resp) && resp.token_ids@ == staged_of(*s, u@),
        },
{
    let u = match user {
        Ok(u) => u,
        Err(e) => {
            return Err(e);
        },
    };
    let token_ids = match crate::collections::find_staging(&s.swap_staging, &u) {
        Some(i) => copy_strings(&s.swap_staging[i].token_ids),
        None => Vec::new(),
    };
    Ok(SwapStagingResponse { token_ids })
}

/// The configuration, as reported.
pub fn query_config(s: &State) -> (c: ConfigResponse)
    ensures
        reports_config(c, s.config),
{
    let config = s.config.clone_config();
    ConfigResponse {
        admin: config.admin,
        pending_admin: config.pending_admin,
        paused: config.paused,
        mad_scientist_collection: config.mad_scientist_collection,
        mega_mad_scientist_collection: config.mega_mad_scientist_collection,
        default_min_bid: config.default_min_bid,
        anti_snipe_window: config.anti_snipe_window,
        anti_snipe_extension: config.anti_snipe_extension,
        max_extension: config.max_extension,
        max_bidders_per_auction: config.max_bidders_per_auction,
        max_staging_size: config.max_staging_size,
        max_nfts_per_bid: config.max_nfts_per_bid,
    }
}


/// Each auction a selection gives is one of `s`, of the requested status and
/// after `start`.
pub proof fn lemma_auctions_selected_sound(s: Seq<Auction>, status: Option<AuctionStatus>, start: Option<u64>)
    ensures
        forall|i: int|
            0 <= i < auctions_selected(s, status, start).len() ==> exists|j: int|
                0 <= j < s.len() && s[j] == #[trigger] auctions_selected(s, status, start)[i],
        forall|i: int|
            0 <= i < auctions_selected(s, status, start).len() ==> (status matches Some(st) ==> (
            #[trigger] auctions_selected(s, status, start)[i]).status == st),
        forall|i: int|
            0 <= i < auctions_selected(s, status, start).len() ==> (start matches Some(k) ==> (
            #[trigger] auctions_selected(s, status, start)[i]).auction_id > k),
    decreases s.len(),
{
    if s.len() > 0 {
        let d = s.drop_last();
        lemma_auctions_selected_sound(d, status, start);
        let p = auctions_selected(d, status, start);
        let q = auctions_selected(s, status, start);
        assert forall|i: int| 0 <= i < q.len() implies exists|j: int|
            0 <= j < s.len() && s[j] == #[trigger] q[i] by {
            if i < p.len() {
                let j = choose|j: int| 0 <= j < d.len() && d[j] == p[i];
                assert(s[j] == q[i]);
            } else {
                assert(s[s.len() - 1] == q[i]);
            }
        }
        assert forall|i: int| 0 <= i < q.len() implies (status matches Some(st) ==> (
        #[trigger] q[i]).status == st) && (start matches Some(k) ==> q[i].auction_id > k) by {
            if i < p.len() {
                assert(q[i] == p[i]);
            }
        }
    }
}

/// Every auction of `s` of the requested status and after `start` is in the selection.
pub proof fn lemma_auctions_selected_complete(
    s: Seq<Auction>,
    status: Option<AuctionStatus>,
    start: Option<u64>,
    j: int,
)
    requires
        0 <= j < s.len(),
        status matches Some(st) ==> s[j].status == st,
        start matches Some(k) ==> s[j].auction_id > k,
    ensures
        auctions_selected(s, status, start).contains(s[j]),
    decreases s.len(),
{
    let q = auctions_selected(s, status, start);
    let d = s.drop_last();
    let p = auctions_selected(d, status, start);
    if j == s.len() - 1 {
        assert(q[q.len() - 1] == s[j]);
    } else {
        lemma_auctions_selected_complete(d, status, start, j);
        assert(d[j] == s[j]);
        let k = choose|k: int| 0 <= k < p.len() && p[k] == s[j];
        assert(q[k] == s[j]);
    }
}

/// A selection of auctions keeps the order of `s`: where identifiers rise
/// along `s`, they rise along the selection.
pub proof fn lemma_auctions_selected_ordered(s: Seq<Auction>, status: Option<AuctionStatus>, start: Option<u64>)
    requires
        forall|a: int, b: int| 0 <= a < b < s.len() ==> (#[trigger] s[a]).auction_id < (#[trigger] s[b]).auction_id,
    ensures
        forall|a: int, b: int|
            0 <= a < b < auctions_selected(s, status, start).len() ==> (#[trigger] auctions_selected(
                s,
                status,
                start,
            )[a]).auction_id < (#[trigger] auctions_selected(s, status, start)[b]).auction_id,
    decreases s.len(),
{
    if s.len() > 0 {
        let d = s.drop_last();
        assert forall|a: int, b: int| 0 <= a < b < d.len() implies (#[trigger] d[a]).auction_id < (
        #[trigger] d[b]).auction_id by {
            assert(d[a] == s[a] && d[b] == s[b]);
        }
        lemma_auctions_selected_ordered(d, status, start);
        lemma_auctions_selected_sound(d, status, start);
        let p = auctions_selected(d, status, start);
        let q = auctions_selected(s, status, start);
        assert forall|a: int, b: int| 0 <= a < b < q.len() implies (#[trigger] q[a]).auction_id < (
        #[trigger] q[b]).auction_id by {
            if b < p.len() {
                assert(q[a] == p[a] && q[b] == p[b]);
            } else {
                assert(q[a] == p[a]);
                let j = choose|j: int| 0 <= j < d.len() && d[j] == p[a];
                assert(s[j] == p[a]);
                assert(q[b] == s[s.len() - 1]);
            }
        }
    }
}

/// Each entry a bid selection gives is one of `s`, on auction `id`, by a
/// bidder after `start`.
pub proof fn lemma_bids_selected_sound(s: Seq<BidEntry>, id: u64, start: Option<Seq<char>>)
    ensures
        forall|i: int|
            0 <= i < bids_selected(s, id, start).len() ==> exists|j: int|
                0 <= j < s.len() && s[j] == #[trigger] bids_selected(s, id, start)[i],
        forall|i: int|
            0 <= i < bids_selected(s, id, start).len() ==> (#[trigger] bids_selected(s, id, start)[i]).auction_id
                == id,
        forall|i: int|
            0 <= i < bids_selected(s, id, start).len() ==> (start matches Some(st) ==> str_lt(
                st,
                (#[trigger] bids_selected(s, id, start)[i]).bid.bidder@,
            )),
    decreases s.len(),
{
    if s.len() > 0 {
        let d = s.drop_last();
        lemma_bids_selected_sound(d, id, start);
        let p = bids_selected(d, id, start);
        let q = bids_selected(s, id, start);
        assert forall|i: int| 0 <= i < q.len() implies exists|j: int|
            0 <= j < s.len() && s[j] == #[trigger] q[i] by {
            if i < p.len() {
                let j = choose|j: int| 0 <= j < d.len() && d[j] == p[i];
                assert(s[j] == q[i]);
            } else {
                assert(s[s.len() - 1] == q[i]);
            }
        }
        assert forall|i: int| 0 <= i < q.len() implies (#[trigger] q[i]).auction_id == id && (
        start matches Some(st) ==> str_lt(st, q[i].bid.bidder@)) by {
            if i < p.len() {
                assert(q[i] == p[i]);
            }
        }
    }
}

/// Every entry of `s` on auction `id` by a bidder after `start` is in the selection.
pub proof fn lemma_bids_selected_complete(s: Seq<BidEntry>, id: u64, start: Option<Seq<char>>, j: int)
    requires
        0 <= j < s.len(),
        s[j].auction_id == id,
        start matches Some(st) ==> str_lt(st, s[j].bid.bidder@),
    ensures
        bids_selected(s, id, start).contains(s[j]),
    decreases s.len(),
{
    let q = bids_selected(s, id, start);
    let d = s.drop_last();
    let p = bids_selected(d, id, start);
    if j == s.len() - 1 {
        assert(q[q.len() - 1] == s[j]);
    } else {
        lemma_bids_selected_complete(d, id, start, j);
        assert(d[j] == s[j]);
        let k = choose|k: int| 0 <= k < p.len() && p[k] == s[j];
        assert(q[k] == s[j]);
    }
}

/// Each token a selection gives is one of `s`, after `start`, and the
/// selection keeps the order of `s` where `s` is sorted.
pub proof fn lemma_tokens_selected_sound(s: Seq<String>, start: Option<Seq<char>>)
    ensures
        forall|i: int|
            0 <= i < tokens_selected(s, start).len() ==> exists|j: int|
                0 <= j < s.len() && s[j] == #[trigger] tokens_selected(s, start)[i],
        forall|i: int|
            0 <= i < tokens_selected(s, start).len() ==> (start matches Some(st) ==> str_lt(
                st,
                (#[trigger] tokens_selected(s, start)[i])@,
            )),
        strs_sorted(s) ==> strs_sorted(tokens_selected(s, start)),
    decreases s.len(),
{
    if s.len() > 0 {
        let d = s.drop_last();
        lemma_tokens_selected_sound(d, start);
        let p = tokens_selected(d, start);
        let q = tokens_selected(s, start);
        assert forall|i: int| 0 <= i < q.len() implies exists|j: int|
            0 <= j < s.len() && s[j] == #[trigger] q[i] by {
            if i < p.len() {
                let j = choose|j: int| 0 <= j < d.len() && d[j] == p[i];
                assert(s[j] == q[i]);
            } else {
                assert(s[s.len() - 1] == q[i]);
            }
        }
        assert forall|i: int| 0 <= i < q.len() implies (start matches Some(st) ==> str_lt(
            st,
            (#[trigger] q[i])@,
        )) by {
            if i < p.len() {
                assert(q[i] == p[i]);
            }
        }
        if strs_sorted(s) {
            assert forall|a: int, b: int| 0 <= a < b < d.len() implies str_lt(
                (#[trigger] d[a])@,
                (#[trigger] d[b])@,
            ) by {
                assert(d[a] == s[a] && d[b] == s[b]);
            }
            assert forall|a: int, b: int| 0 <= a < b < q.len() implies str_lt(
                (#[trigger] q[a])@,
                (#[trigger] q[b])@,
            ) by {
                if b < p.len() {
                    assert(q[a] == p[a] && q[b] == p[b]);
                } else {
                    assert(q[a] == p[a]);
                    let j = choose|j: int| 0 <= j < d.len() && d[j] == p[a];
                    assert(s[j] == p[a]);
                    assert(q[b] == s[s.len() - 1]);
                }
            }
        }
    }
}

/// Every token of `s` after `start` is in the selection.
pub proof fn lemma_tokens_selected_complete(s: Seq<String>, start: Option<Seq<char>>, j: int)
    requires
        0 <= j < s.len(),
        start matches Some(st) ==> str_lt(st, s[j]@),
    ensures
        tokens_selected(s, start).contains(s[j]),
    decreases s.len(),
{
    let q = tokens_selected(s, start);
    let d = s.drop_last();
    let p = tokens_selected(d, start);
    if j == s.len() - 1 {
        assert(q[q.len() - 1] == s[j]);
    } else {
        lemma_tokens_selected_complete(d, start, j);
        assert(d[j] == s[j]);
        let k = choose|k: int| 0 <= k < p.len() && p[k] == s[j];
        assert(q[k] == s[j]);
    }
}

} // verus!
