//! Auction messages: creating an auction, bidding, finalizing, and
//! withdrawing escrowed bids.
use vstd::prelude::*;
use vstd::string::*;

use crate::admin::{auction_slot, bool_str};
use crate::collections::{
    any_loser_escrow, bid_position, find_bid, find_lock, lemma_bid_insert_pos, lemma_bids_sorted_remove,
    lemma_sorted_bid_lookup, locks_without, locks_without_all, pool_insert_all, pool_with_all,
    remove_lock, remove_locks_of,
};
use crate::env::{attr, attr_str, decimal, transfer, u64_to_string, MessageInfo, Response};
use crate::error::ContractError;
use crate::state::{
    bid_index, bid_insert_pos, bids_sorted, entry_lt, has_str, lemma_bid_index,
    lemma_lock_index, lock_index, locks_unique, losers_remain, Auction, AuctionStatus, Bid, BidEntry, Config,
    State, TokenLock,
};

verus! {

/// The auction a deposit of Cosmic token `mega` creates.
pub open spec fn new_auction(
    id: u64,
    depositor: String,
    mega: String,
    start_time: u64,
    end_time: u64,
    min_bid: u64,
) -> Auction {
    Auction {
        auction_id: id,
        depositor,
        mega_token_id: mega,
        start_time,
        end_time,
        original_end_time: end_time,
        status: AuctionStatus::Active,
        min_bid,
        highest_bid_count: 0,
        highest_bidder: None,
        highest_bid_time: 0,
        total_bidders: 0,
    }
}

pub open spec fn min_bid_for(c: Config, min_bid: Option<u64>) -> u64 {
    match min_bid {
        Some(m) => m,
        None => c.default_min_bid,
    }
}

pub proof fn lemma_locks_unique_push(s: Seq<TokenLock>, e: TokenLock)
    requires
        locks_unique(s),
        lock_index(s, e.token_id@) == -1,
    ensures
        locks_unique(s.push(e)),
{
    lemma_lock_index(s, e.token_id@);
    let r = s.push(e);
    assert forall|a: int, b: int|
        0 <= a < r.len() && 0 <= b < r.len() && a != b implies (#[trigger] r[a]).token_id@
        != (#[trigger] r[b]).token_id@ by {
        if a < s.len() && b < s.len() {
            assert(r[a] == s[a] && r[b] == s[b]);
        } else if a < s.len() {
            assert(r[a] == s[a]);
        } else {
            assert(r[b] == s[b]);
        }
    }
}

/// Whether a deposit of `mega_token_id` with these settings passes every
/// check and opens a new auction.
pub open spec fn opens_auction(s: State, mega_token_id: Seq<char>, start_time: u64, end_time: u64, min_bid: Option<u64>) -> bool {
    &&& start_time < end_time
    &&& lock_index(s.active_mega_auctions@, mega_token_id) < 0
    &&& min_bid_for(s.config, min_bid) != 0
}

pub open spec fn create_auction_post(old: State, new: State, admin: String, mega_token_id: String, start_time: u64, end_time: u64, min_bid: Option<u64>, r: Result<Response, ContractError>) -> bool {
    &&& (r is Err ==> new == old)
    &&& (start_time >= end_time ==> r == Err::<Response, ContractError>(
            ContractError::InvalidAuctionTimes { start_time, end_time },
        ))
    &&& (start_time < end_time && lock_index(old.active_mega_auctions@, mega_token_id@) >= 0
            ==> r == Err::<Response, ContractError>(
            ContractError::DuplicateMegaAuction {
                token_id: mega_token_id,
                auction_id: old.active_mega_auctions@[lock_index(
                    old.active_mega_auctions@,
                    mega_token_id@,
                )].auction_id,
            },
        ))
    &&& (start_time < end_time && lock_index(old.active_mega_auctions@, mega_token_id@) < 0
            && min_bid_for(old.config, min_bid) == 0 ==> (r matches Err(
            ContractError::InvalidConfig { reason },
        ) && reason@ == "auction min_bid must be >= 1"@))
    &&& (start_time < end_time && lock_index(old.active_mega_auctions@, mega_token_id@) < 0
            && min_bid_for(old.config, min_bid) != 0 ==> {
            let id = old.next_auction_id;
            let min = min_bid_for(old.config, min_bid);
            &&& new == (State {
                next_auction_id: (id + 1) as u64,
                auctions: new.auctions,
                active_mega_auctions: new.active_mega_auctions,
                ..old
            })
            &&& new.auctions@ == old.auctions@.push(
                new_auction(id, admin, mega_token_id, start_time, end_time, min),
            )
            &&& new.active_mega_auctions@ == old.active_mega_auctions@.push(
                TokenLock { token_id: mega_token_id, auction_id: id },
            )
            &&& r matches Ok(res) && res.messages@.len() == 0 && res.attrs() == seq![
                ("action"@, "create_auction"@),
                ("auction_id"@, decimal(id as nat)),
                ("mega_token_id"@, mega_token_id@),
                ("depositor"@, admin@),
                ("start_time"@, decimal(start_time as nat)),
                ("end_time"@, decimal(end_time as nat)),
                ("min_bid"@, decimal(min as nat)),
            ]
        })
}

/// Opens an auction for the Cosmic token the admin deposited.
pub fn execute_create_auction(
    s: &mut State,
    admin: String,
    mega_token_id: String,
    start_time: u64,
    end_time: u64,
    min_bid: Option<u64>,
) -> (r: Result<Response, ContractError>)
    requires
        old(s).wf(),
        opens_auction(*old(s), mega_token_id@, start_time, end_time, min_bid) ==> old(s).next_auction_id
            < u64::MAX,
    ensures
        final(s).wf(),
        create_auction_post(*old(s), *final(s), admin, mega_token_id, start_time, end_time, min_bid, r),
{
    if start_time >= end_time {
        return Err(ContractError::InvalidAuctionTimes { start_time, end_time });
    }
    if let Some(i) = find_lock(&s.active_mega_auctions, &mega_token_id) {
        let existing_id = s.active_mega_auctions[i].auction_id;
        return Err(
            ContractError::DuplicateMegaAuction { token_id: mega_token_id, auction_id: existing_id },
        );
    }
    let auction_id = s.next_auction_id;
    let min = match min_bid {
        Some(m) => m,
        None => s.config.default_min_bid,
    };
    if min == 0 {
        return Err(
            ContractError::InvalidConfig { reason: String::from_str("auction min_bid must be >= 1") },
        );
    }
    let auction = Auction {
        auction_id,
        depositor: admin.clone(),
        mega_token_id: mega_token_id.clone(),
        start_time,
        end_time,
        original_end_time: end_time,
        status: AuctionStatus::Active,
        min_bid: min,
        highest_bid_count: 0,
        highest_bidder: None,
        highest_bid_time: 0,
        total_bidders: 0,
    };
    s.auctions.push(auction);
    s.next_auction_id = auction_id + 1;
    let lock = TokenLock { token_id: mega_token_id.clone(), auction_id };
    proof {
        lemma_locks_unique_push(s.active_mega_auctions@, lock);
    }
    s.active_mega_auctions.push(lock);
    let mut attributes = Vec::new();
    attributes.push(attr_str("action", "create_auction"));
    attributes.push(attr("auction_id", u64_to_string(auction_id)));
    attributes.push(attr("mega_token_id", mega_token_id));
    attributes.push(attr("depositor", admin));
    attributes.push(attr("start_time", u64_to_string(start_time)));
    attributes.push(attr("end_time", u64_to_string(end_time)));
    attributes.push(attr("min_bid", u64_to_string(min)));
    let res = Response { messages: Vec::new(), attributes };
    assert(res.attrs() =~= seq![
        ("action"@, "create_auction"@),
        ("auction_id"@, decimal(auction_id as nat)),
        ("mega_token_id"@, mega_token_id@),
        ("depositor"@, admin@),
        ("start_time"@, decimal(start_time as nat)),
        ("end_time"@, decimal(end_time as nat)),
        ("min_bid"@, decimal(min as nat)),
    ]);
    Ok(res)
}

} // verus!

verus! {

/// The tokens `who` has escrowed in auction `id`.
pub open spec fn escrow_of(s: State, id: u64, who: Seq<char>) -> Seq<String> {
    if bid_index(s.bids@, id, who) >= 0 {
        s.bids@[bid_index(s.bids@, id, who)].bid.token_ids@
    } else {
        Seq::empty()
    }
}

/// The first reason a bid of `token` by `bidder` on auction `id` at time
/// `now` is refused, if there is one.
pub open spec fn bid_refusal(s: State, now: u64, bidder: String, id: u64, token: String) -> Option<
    ContractError,
> {
    if !s.has_auction(id) {
        Some(ContractError::AuctionNotFound { auction_id: id })
    } else {
        let a = s.auction(id);
        let li = lock_index(s.escrowed_bid_tokens@, token@);
        let held = escrow_of(s, id, bidder@);
        if a.status != AuctionStatus::Active {
            Some(ContractError::AuctionNotActive { auction_id: id })
        } else if now < a.start_time {
            Some(ContractError::AuctionNotStarted { start_time: a.start_time })
        } else if now >= a.end_time {
            Some(ContractError::AuctionAlreadyEnded { auction_id: id })
        } else if li >= 0 && s.escrowed_bid_tokens@[li].auction_id != id {
            Some(
                ContractError::TokenAlreadyEscrowedInAuction {
                    token_id: token,
                    auction_id: s.escrowed_bid_tokens@[li].auction_id,
                },
            )
        } else if li >= 0 {
            Some(ContractError::DuplicateTokenId { token_id: token })
        } else if held.len() == 0 && a.total_bidders >= s.config.max_bidders_per_auction {
            Some(
                ContractError::MaxBiddersReached {
                    auction_id: id,
                    max: s.config.max_bidders_per_auction,
                },
            )
        } else if held.len() >= s.config.max_nfts_per_bid {
            Some(ContractError::MaxEscrowPerBidder { auction_id: id, max: s.config.max_nfts_per_bid })
        } else if has_str(held, token@) {
            Some(ContractError::DuplicateTokenId { token_id: token })
        } else {
            None
        }
    }
}

/// Whether a bidder now escrowing `total` tokens takes (or keeps) the lead:
/// the bid meets the minimum and strictly exceeds the current highest bid,
/// or there is no highest bidder yet, or the bidder already leads.
pub open spec fn takes_lead(a: Auction, who: Seq<char>, total: u64) -> bool {
    &&& total >= a.min_bid
    &&& total > a.highest_bid_count || a.highest_bidder is None || (a.highest_bidder matches Some(
        h,
    ) && h@ == who)
}

/// End time after a leading bid at `now`: inside the anti-snipe window the
/// auction is extended to `now + anti_snipe_extension`, but not beyond
/// `original_end_time + max_extension`; it never ends earlier than before.
pub open spec fn sniped_end(a: Auction, c: Config, now: u64) -> u64 {
    if now.saturating_add(c.anti_snipe_window) >= a.end_time && now <= a.end_time {
        let proposed = now.saturating_add(c.anti_snipe_extension);
        let cap = a.original_end_time.saturating_add(c.max_extension);
        let extended = if proposed <= cap {
            proposed
        } else {
            cap
        };
        if extended >= a.end_time {
            extended
        } else {
            a.end_time
        }
    } else {
        a.end_time
    }
}

/// The auction after `bidder` escrows one more token, for `total` in all.
pub open spec fn auction_after_bid(a: Auction, c: Config, bidder: String, total: u64, now: u64) -> Auction {
    let counted = if total == 1 {
        Auction { total_bidders: (a.total_bidders + 1) as u64, ..a }
    } else {
        a
    };
    if takes_lead(a, bidder@, total) {
        Auction {
            highest_bid_count: total,
            highest_bidder: Some(bidder),
            highest_bid_time: now,
            end_time: sniped_end(a, c, now),
            ..counted
        }
    } else {
        counted
    }
}

/// Entry `e` is the bid of `who` on auction `id`, of `tokens`, placed at `ts`.
pub open spec fn entry_is(e: BidEntry, id: u64, who: Seq<char>, tokens: Seq<String>, ts: u64) -> bool {
    &&& e.auction_id == id
    &&& e.bid.bidder@ == who
    &&& e.bid.token_ids@ == tokens
    &&& e.bid.timestamp == ts
}

/// The bid list after the bid of `(id, who)` became `tokens` at `ts`:
/// the entry is updated in place, or inserted at its sorted position.
pub open spec fn bids_after_bid(
    old: Seq<BidEntry>,
    new: Seq<BidEntry>,
    id: u64,
    who: Seq<char>,
    tokens: Seq<String>,
    ts: u64,
) -> bool {
    let bi = bid_index(old, id, who);
    if bi >= 0 {
        &&& new.len() == old.len()
        &&& forall|j: int| 0 <= j < old.len() && j != bi ==> new[j] == old[j]
        &&& entry_is(new[bi], id, who, tokens, ts)
    } else {
        let p = bid_insert_pos(old, id, who);
        &&& new.len() == old.len() + 1
        &&& new.remove(p) == old
        &&& entry_is(new[p], id, who, tokens, ts)
    }
}

pub proof fn lemma_bids_sorted_insert(s: Seq<BidEntry>, e: BidEntry)
    requires
        bids_sorted(s),
        bid_index(s, e.auction_id, e.bid.bidder@) == -1,
    ensures
        bids_sorted(s.insert(bid_insert_pos(s, e.auction_id, e.bid.bidder@), e)),
{
    let p = bid_insert_pos(s, e.auction_id, e.bid.bidder@);
    lemma_sorted_bid_lookup(s, e.auction_id, e.bid.bidder@);
    lemma_bid_insert_pos(s, e.auction_id, e.bid.bidder@);
    lemma_bid_index(s, e.auction_id, e.bid.bidder@);
    let r = s.insert(p, e);
    assert forall|i: int, j: int| 0 <= i < j < r.len() implies entry_lt(
        #[trigger] r[i],
        #[trigger] r[j],
    ) by {
        if j < p {
            assert(r[i] == s[i] && r[j] == s[j]);
        } else if j == p {
            assert(r[i] == s[i]);
        } else if i < p {
            assert(r[i] == s[i] && r[j] == s[j - 1]);
            crate::collections::lemma_bid_key_lt_trans(
                s[i].auction_id,
                s[i].bid.bidder@,
                e.auction_id,
                e.bid.bidder@,
                s[j - 1].auction_id,
                s[j - 1].bid.bidder@,
            );
        } else if i == p {
            assert(r[j] == s[j - 1]);
        } else {
            assert(r[i] == s[i - 1] && r[j] == s[j - 1]);
        }
    }
}

/// Whether string `t` is one of `v`'s.
pub fn strs_contain(v: &Vec<String>, t: &String) -> (r: bool)
    ensures
        r == has_str(v@, t@),
{
    let mut i: usize = 0;
    while i < v.len()
        invariant
            i <= v@.len(),
            forall|j: int| 0 <= j < i ==> (#[trigger] v@[j])@ != t@,
        decreases v@.len() - i,
    {
        if v[i] == *t {
            return true;
        }
        i = i + 1;
    }
    false
}

pub open spec fn receive_bid_post(old: State, new: State, now: u64, bidder: String, auction_id: u64, token_id: String, r: Result<Response, ContractError>) -> bool {
    &&& (match bid_refusal(old, now, bidder, auction_id, token_id) {
            Some(e) => r == Err::<Response, ContractError>(e) && new == old,
            None => {
                let a = old.auction(auction_id);
                let tokens = escrow_of(old, auction_id, bidder@).push(token_id);
                let total = tokens.len() as u64;
                let a2 = auction_after_bid(a, old.config, bidder, total, now);
                &&& new == (State {
                    auctions: new.auctions,
                    bids: new.bids,
                    escrowed_bid_tokens: new.escrowed_bid_tokens,
                    ..old
                })
                &&& new.auctions@ == old.auctions@.update(auction_id - 1, a2)
                &&& bids_after_bid(old.bids@, new.bids@, auction_id, bidder@, tokens, now)
                &&& new.escrowed_bid_tokens@ == old.escrowed_bid_tokens@.push(
                    TokenLock { token_id, auction_id },
                )
                &&& r matches Ok(res) && res.messages@.len() == 0 && res.attrs() == seq![
                    ("action"@, "place_bid"@),
                    ("auction_id"@, decimal(auction_id as nat)),
                    ("bidder"@, bidder@),
                    ("token_id"@, token_id@),
                    ("total_bid_count"@, decimal(total as nat)),
                    ("is_highest"@, bool_str(takes_lead(a, bidder@, total))),
                    ("new_end_time"@, decimal(a2.end_time as nat)),
                ]
            },
        })
}

/// Escrows one more token of `bidder` in auction `auction_id`: the bid takes
/// the lead when it meets the minimum and strictly exceeds the highest bid,
/// and a leading bid inside the anti-snipe window extends the auction.
pub fn execute_receive_bid(
    s: &mut State,
    now: u64,
    bidder: String,
    auction_id: u64,
    token_id: String,
) -> (r: Result<Response, ContractError>)
    requires
        old(s).wf(),
    ensures
        final(s).wf(),
        receive_bid_post(*old(s), *final(s), now, bidder, auction_id, token_id, r),
{
    let k = match auction_slot(s, auction_id) {
        Some(k) => k,
        None => {
            return Err(ContractError::AuctionNotFound { auction_id });
        },
    };
    if s.auctions[k].status != AuctionStatus::Active {
        return Err(ContractError::AuctionNotActive { auction_id });
    }
    if now < s.auctions[k].start_time {
        return Err(ContractError::AuctionNotStarted { start_time: s.auctions[k].start_time });
    }
    if now >= s.auctions[k].end_time {
        return Err(ContractError::AuctionAlreadyEnded { auction_id });
    }
    if let Some(li) = find_lock(&s.escrowed_bid_tokens, &token_id) {
        let locked_auction_id = s.escrowed_bid_tokens[li].auction_id;
        if locked_auction_id != auction_id {
            return Err(
                ContractError::TokenAlreadyEscrowedInAuction {
                    token_id,
                    auction_id: locked_auction_id,
                },
            );
        }
        return Err(ContractError::DuplicateTokenId { token_id });
    }
    let (p, found) = bid_position(&s.bids, auction_id, &bidder);
    let held: u64 = if found {
        s.bids[p].bid.token_ids.len() as u64
    } else {
        0
    };
    let is_new_bidder = held == 0;
    if is_new_bidder && s.auctions[k].total_bidders >= s.config.max_bidders_per_auction {
        return Err(
            ContractError::MaxBiddersReached {
                auction_id,
                max: s.config.max_bidders_per_auction,
            },
        );
    }
    if held >= s.config.max_nfts_per_bid {
        return Err(
            ContractError::MaxEscrowPerBidder { auction_id, max: s.config.max_nfts_per_bid },
        );
    }
    if found && strs_contain(&s.bids[p].bid.token_ids, &token_id) {
        return Err(ContractError::DuplicateTokenId { token_id });
    }
    let ghost a = old(s).auction(auction_id);
    let ghost tokens = escrow_of(*old(s), auction_id, bidder@).push(token_id);
    let total: u64 = held + 1;
    assert(total == tokens.len());
    // Decide whether this bid takes the lead.
    let min_bid = s.auctions[k].min_bid;
    let highest = s.auctions[k].highest_bid_count;
    let is_same_bidder = match &s.auctions[k].highest_bidder {
        Some(h) => *h == bidder,
        None => false,
    };
    let no_leader = s.auctions[k].highest_bidder.is_none();
    let qualifies = total >= min_bid && (total > highest || no_leader || is_same_bidder);
    assert(qualifies == takes_lead(a, bidder@, total));
    if is_new_bidder {
        s.auctions[k].total_bidders = s.auctions[k].total_bidders + 1;
    }
    if qualifies {
        s.auctions[k].highest_bid_count = total;
        s.auctions[k].highest_bidder = Some(bidder.clone());
        s.auctions[k].highest_bid_time = now;
        let end = s.auctions[k].end_time;
        if now.saturating_add(s.config.anti_snipe_window) >= end && now <= end {
            let max_allowed = s.auctions[k].original_end_time.saturating_add(
                s.config.max_extension,
            );
            let proposed = now.saturating_add(s.config.anti_snipe_extension);
            let extended = if proposed <= max_allowed {
                proposed
            } else {
                max_allowed
            };
            if extended > end {
                s.auctions[k].end_time = extended;
            }
        }
    }
    let new_end = s.auctions[k].end_time;
    assert(s.auctions@ =~= old(s).auctions@.update(
        auction_id - 1,
        auction_after_bid(a, old(s).config, bidder, total, now),
    ));
    // Record the escrowed token in the bid.
    if found {
        s.bids[p].bid.token_ids.push(token_id.clone());
        s.bids[p].bid.timestamp = now;
        proof {
            lemma_bid_index(old(s).bids@, auction_id, bidder@);
            assert(s.bids@[p as int].bid.token_ids@ =~= tokens);
            assert forall|i: int, j: int| 0 <= i < j < s.bids@.len() implies entry_lt(
                #[trigger] s.bids@[i],
                #[trigger] s.bids@[j],
            ) by {
                assert(entry_lt(old(s).bids@[i], old(s).bids@[j]));
            }
        }
    } else {
        let mut token_ids = Vec::new();
        token_ids.push(token_id.clone());
        let entry = BidEntry {
            auction_id,
            bid: Bid { bidder: bidder.clone(), token_ids, timestamp: now },
        };
        proof {
            lemma_bid_index(s.bids@, auction_id, bidder@);
            lemma_bids_sorted_insert(s.bids@, entry);
        }
        s.bids.insert(p, entry);
        assert(s.bids@.remove(p as int) =~= old(s).bids@);
    }
    let lock = TokenLock { token_id: token_id.clone(), auction_id };
    proof {
        lemma_locks_unique_push(s.escrowed_bid_tokens@, lock);
    }
    s.escrowed_bid_tokens.push(lock);
    let mut attributes = Vec::new();
    attributes.push(attr_str("action", "place_bid"));
    attributes.push(attr("auction_id", u64_to_string(auction_id)));
    attributes.push(attr("bidder", bidder));
    attributes.push(attr("token_id", token_id));
    attributes.push(attr("total_bid_count", u64_to_string(total)));
    attributes.push(attr_str("is_highest", if qualifies { "true" } else { "false" }));
    attributes.push(attr("new_end_time", u64_to_string(new_end)));
    let res = Response { messages: Vec::new(), attributes };
    assert(res.attrs() =~= seq![
        ("action"@, "place_bid"@),
        ("auction_id"@, decimal(auction_id as nat)),
        ("bidder"@, bidder@),
        ("token_id"@, token_id@),
        ("total_bid_count"@, decimal(total as nat)),
        ("is_highest"@, bool_str(qualifies)),
        ("new_end_time"@, decimal(new_end as nat)),
    ]);
    Ok(res)
}

} // verus!

verus! {

/// The tokens the leader of auction `id` has escrowed.
pub open spec fn winner_escrow(s: State, id: u64) -> Seq<String> {
    match s.auction(id).highest_bidder {
        Some(w) => escrow_of(s, id, w@),
        None => Seq::empty(),
    }
}

/// Whether finalizing auction `auction_id` at time `now` succeeds: it is active and has ended.
pub open spec fn finalizes(s: State, now: u64, auction_id: u64) -> bool {
    &&& s.has_auction(auction_id)
    &&& s.auction(auction_id).status == AuctionStatus::Active
    &&& now >= s.auction(auction_id).end_time
}

pub open spec fn finalize_post(old: State, new: State, now: u64, auction_id: u64, r: Result<Response, ContractError>) -> bool {
    &&& (r is Err ==> new == old)
    &&& (!old.has_auction(auction_id) ==> r == Err::<Response, ContractError>(
            ContractError::AuctionNotFound { auction_id },
        ))
    &&& (old.has_auction(auction_id) && old.auction(auction_id).status != AuctionStatus::Active
            ==> r == Err::<Response, ContractError>(ContractError::AuctionNotActive { auction_id }))
    &&& (old.has_auction(auction_id) && old.auction(auction_id).status == AuctionStatus::Active
            && now < old.auction(auction_id).end_time ==> r == Err::<Response, ContractError>(
            ContractError::AuctionNotEnded {
                auction_id,
                end_time: old.auction(auction_id).end_time,
            },
        ))
    &&& (old.has_auction(auction_id) && old.auction(auction_id).status == AuctionStatus::Active
            && now >= old.auction(auction_id).end_time ==> {
            let a = old.auction(auction_id);
            let coll = old.config.mega_mad_scientist_collection@;
            let fin = if a.highest_bidder is Some {
                AuctionStatus::Finalizing
            } else {
                AuctionStatus::Completed
            };
            &&& new.config == old.config
            &&& new.next_auction_id == old.next_auction_id
            &&& new.swap_staging == old.swap_staging
            &&& new.auctions@ == old.auctions@.update(
                auction_id - 1,
                Auction { status: fin, ..a },
            )
            &&& new.active_mega_auctions@ == locks_without(
                old.active_mega_auctions@,
                a.mega_token_id@,
            )
            &&& match a.highest_bidder {
                Some(w) => {
                    let wi = bid_index(old.bids@, auction_id, w@);
                    &&& if wi >= 0 {
                        let tokens = old.bids@[wi].bid.token_ids@;
                        &&& new.bids@ == old.bids@.remove(wi)
                        &&& new.pool@ == pool_with_all(old.pool@, tokens)
                        &&& new.pool_size == old.pool_size + tokens.len()
                        &&& new.escrowed_bid_tokens@ == locks_without_all(
                            old.escrowed_bid_tokens@,
                            tokens,
                        )
                    } else {
                        &&& new.bids == old.bids
                        &&& new.pool == old.pool
                        &&& new.pool_size == old.pool_size
                        &&& new.escrowed_bid_tokens == old.escrowed_bid_tokens
                    }
                    &&& r matches Ok(res) && res.transfers() == seq![(coll, w@, a.mega_token_id@)]
                        && res.attrs() == seq![
                        ("action"@, "finalize_auction"@),
                        ("auction_id"@, decimal(auction_id as nat)),
                        ("winner"@, w@),
                        ("winning_bid_count"@, decimal(a.highest_bid_count as nat)),
                        ("status"@, "Finalizing"@),
                    ]
                },
                None => {
                    &&& new.bids == old.bids
                    &&& new.pool == old.pool
                    &&& new.pool_size == old.pool_size
                    &&& new.escrowed_bid_tokens == old.escrowed_bid_tokens
                    &&& r matches Ok(res) && res.transfers() == seq![
                        (coll, a.depositor@, a.mega_token_id@),
                    ] && res.attrs() == seq![
                        ("action"@, "finalize_auction"@),
                        ("auction_id"@, decimal(auction_id as nat)),
                        ("winner"@, "none"@),
                        ("winning_bid_count"@, decimal(a.highest_bid_count as nat)),
                        ("status"@, "Completed"@),
                    ]
                },
            }
        })
}

/// Ends an auction whose time is up: the Cosmic token goes to the leader,
/// whose tokens go into the pool, or back to the depositor if nobody leads.
pub fn execute_finalize_auction(s: &mut State, now: u64, auction_id: u64) -> (r: Result<
    Response,
    ContractError,
>)
    requires
        old(s).wf(),
        finalizes(*old(s), now, auction_id) ==> old(s).pool_size + winner_escrow(*old(s), auction_id).len()
            <= u64::MAX,
    ensures
        final(s).wf(),
        finalize_post(*old(s), *final(s), now, auction_id, r),
{
    let k = match auction_slot(s, auction_id) {
        Some(k) => k,
        None => {
            return Err(ContractError::AuctionNotFound { auction_id });
        },
    };
    if s.auctions[k].status != AuctionStatus::Active {
        return Err(ContractError::AuctionNotActive { auction_id });
    }
    if now < s.auctions[k].end_time {
        return Err(ContractError::AuctionNotEnded { auction_id, end_time: s.auctions[k].end_time });
    }
    let ghost a = old(s).auction(auction_id);
    let mega = s.auctions[k].mega_token_id.clone();
    let mut messages = Vec::new();
    let mut attributes = Vec::new();
    attributes.push(attr_str("action", "finalize_auction"));
    attributes.push(attr("auction_id", u64_to_string(auction_id)));
    let count = s.auctions[k].highest_bid_count;
    match copy_winner(&s.auctions[k].highest_bidder) {
        Some(winner) => {
            messages.push(transfer(&s.config.mega_mad_scientist_collection, &winner, &mega));
            match find_bid(&s.bids, auction_id, &winner) {
                Some(wi) => {
                    proof {
                        lemma_bids_sorted_remove(s.bids@, wi as int);
                    }
                    let entry = s.bids.remove(wi);
                    let tokens = entry.bid.token_ids;
                    pool_insert_all(&mut s.pool, &tokens);
                    remove_locks_of(&mut s.escrowed_bid_tokens, &tokens);
                    s.pool_size = s.pool_size + tokens.len() as u64;
                },
                None => {},
            }
            s.auctions[k].status = AuctionStatus::Finalizing;
            attributes.push(attr("winner", winner));
            attributes.push(attr("winning_bid_count", u64_to_string(count)));
            attributes.push(attr_str("status", "Finalizing"));
        },
        None => {
            messages.push(
                transfer(&s.config.mega_mad_scientist_collection, &s.auctions[k].depositor, &mega),
            );
            s.auctions[k].status = AuctionStatus::Completed;
            attributes.push(attr_str("winner", "none"));
            attributes.push(attr("winning_bid_count", u64_to_string(count)));
            attributes.push(attr_str("status", "Completed"));
        },
    }
    remove_lock(&mut s.active_mega_auctions, &mega);
    let res = Response { messages, attributes };
    proof {
        let fin = if a.highest_bidder is Some {
            AuctionStatus::Finalizing
        } else {
            AuctionStatus::Completed
        };
        assert(s.auctions@ =~= old(s).auctions@.update(
            auction_id - 1,
            Auction { status: fin, ..a },
        ));
        let coll = old(s).config.mega_mad_scientist_collection@;
        match a.highest_bidder {
            Some(w) => {
                assert(res.transfers() =~= seq![(coll, w@, a.mega_token_id@)]);
                assert(res.attrs() =~= seq![
                    ("action"@, "finalize_auction"@),
                    ("auction_id"@, decimal(auction_id as nat)),
                    ("winner"@, w@),
                    ("winning_bid_count"@, decimal(a.highest_bid_count as nat)),
                    ("status"@, "Finalizing"@),
                ]);
            },
            None => {
                assert(res.transfers() =~= seq![(coll, a.depositor@, a.mega_token_id@)]);
                assert(res.attrs() =~= seq![
                    ("action"@, "finalize_auction"@),
                    ("auction_id"@, decimal(auction_id as nat)),
                    ("winner"@, "none"@),
                    ("winning_bid_count"@, decimal(a.highest_bid_count as nat)),
                    ("status"@, "Completed"@),
                ]);
            },
        }
    }
    Ok(res)
}

/// A copy of the current leader, if any.
fn copy_winner(o: &Option<String>) -> (r: Option<String>)
    ensures
        r == *o,
{
    match o {
        Some(w) => Some(w.clone()),
        None => None,
    }
}

/// The auction record after a withdrawal from it, with `bids` the remaining
/// bids: a finalizing auction completes once no loser's escrow is left.
pub open spec fn auction_after_withdraw(a: Auction, bids: Seq<BidEntry>, auction_id: u64) -> Auction {
    if a.status == AuctionStatus::Finalizing && !losers_remain(bids, auction_id, a.highest_bidder) {
        Auction { status: AuctionStatus::Completed, ..a }
    } else {
        a
    }
}

pub open spec fn withdraw_bid_post(old: State, new: State, info: MessageInfo, auction_id: u64, r: Result<Response, ContractError>) -> bool {
    &&& (r is Err ==> new == old)
    &&& (!old.has_auction(auction_id) ==> r == Err::<Response, ContractError>(
            ContractError::AuctionNotFound { auction_id },
        ))
    &&& (old.has_auction(auction_id) && old.auction(auction_id).status == AuctionStatus::Active
            ==> r == Err::<Response, ContractError>(ContractError::WithdrawNotAllowed { auction_id }))
    &&& (old.has_auction(auction_id) && old.auction(auction_id).status != AuctionStatus::Active
            && escrow_of(old, auction_id, info.sender@).len() == 0 ==> r == Err::<Response, ContractError>(ContractError::NothingToWithdraw { auction_id }))
    &&& (old.has_auction(auction_id) && old.auction(auction_id).status != AuctionStatus::Active
            && escrow_of(old, auction_id, info.sender@).len() > 0 ==> {
            let bi = bid_index(old.bids@, auction_id, info.sender@);
            let tokens = old.bids@[bi].bid.token_ids@;
            let coll = old.config.mad_scientist_collection@;
            &&& new == (State {
                bids: new.bids,
                escrowed_bid_tokens: new.escrowed_bid_tokens,
                auctions: new.auctions,
                ..old
            })
            &&& new.bids@ == old.bids@.remove(bi)
            &&& new.auctions@ == old.auctions@.update(
                auction_id - 1,
                auction_after_withdraw(old.auction(auction_id), new.bids@, auction_id),
            )
            &&& new.escrowed_bid_tokens@ == locks_without_all(
                old.escrowed_bid_tokens@,
                tokens,
            )
            &&& r matches Ok(res) && res.transfers().len() == tokens.len() && (forall|i: int|
                0 <= i < tokens.len() ==> #[trigger] res.transfers()[i] == (
                    coll,
                    info.sender@,
                    tokens[i]@,
                )) && res.attrs() == seq![
                ("action"@, "withdraw_bid"@),
                ("auction_id"@, decimal(auction_id as nat)),
                ("bidder"@, info.sender@),
                ("nfts_returned"@, decimal(tokens.len())),
            ]
        })
}

/// Returns the sender's escrowed tokens once the auction is no longer active.
pub fn execute_withdraw_bid(s: &mut State, info: &MessageInfo, auction_id: u64) -> (r: Result<
    Response,
    ContractError,
>)
    requires
        old(s).wf(),
    ensures
        final(s).wf(),
        withdraw_bid_post(*old(s), *final(s), *info, auction_id, r),
{
    let k = match auction_slot(s, auction_id) {
        Some(k) => k,
        None => {
            return Err(ContractError::AuctionNotFound { auction_id });
        },
    };
    if s.auctions[k].status == AuctionStatus::Active {
        return Err(ContractError::WithdrawNotAllowed { auction_id });
    }
    let bi = match find_bid(&s.bids, auction_id, &info.sender) {
        Some(bi) => bi,
        None => {
            return Err(ContractError::NothingToWithdraw { auction_id });
        },
    };
    if s.bids[bi].bid.token_ids.len() == 0 {
        return Err(ContractError::NothingToWithdraw { auction_id });
    }
    let ghost tokens = old(s).bids@[bi as int].bid.token_ids@;
    let ghost coll = old(s).config.mad_scientist_collection@;
    proof {
        lemma_bids_sorted_remove(s.bids@, bi as int);
    }
    let entry = s.bids.remove(bi);
    let escrowed = entry.bid.token_ids;
    let mut messages: Vec<crate::env::NftTransfer> = Vec::new();
    let mut i: usize = 0;
    while i < escrowed.len()
        invariant
            escrowed@ == tokens,
            coll == s.config.mad_scientist_collection@,
            i <= escrowed@.len(),
            messages@.len() == i,
            forall|j: int|
                0 <= j < i ==> #[trigger] crate::env::transfer_view(messages@[j]) == (
                    coll,
                    info.sender@,
                    tokens[j]@,
                ),
        decreases escrowed@.len() - i,
    {
        messages.push(transfer(&s.config.mad_scientist_collection, &info.sender, &escrowed[i]));
        i = i + 1;
    }
    remove_locks_of(&mut s.escrowed_bid_tokens, &escrowed);
    if s.auctions[k].status == AuctionStatus::Finalizing {
        let winner = copy_winner(&s.auctions[k].highest_bidder);
        if !any_loser_escrow(&s.bids, auction_id, &winner) {
            s.auctions[k].status = AuctionStatus::Completed;
        }
    }
    assert(s.auctions@ =~= old(s).auctions@.update(
        auction_id - 1,
        auction_after_withdraw(old(s).auction(auction_id), s.bids@, auction_id),
    ));
    let mut attributes = Vec::new();
    attributes.push(attr_str("action", "withdraw_bid"));
    attributes.push(attr("auction_id", u64_to_string(auction_id)));
    attributes.push(attr("bidder", info.sender.clone()));
    attributes.push(attr("nfts_returned", u64_to_string(escrowed.len() as u64)));
    let res = Response { messages, attributes };
    assert(res.attrs() =~= seq![
        ("action"@, "withdraw_bid"@),
        ("auction_id"@, decimal(auction_id as nat)),
        ("bidder"@, info.sender@),
        ("nfts_returned"@, decimal(tokens.len())),
    ]);
    Ok(res)
}

} // verus!
