//! Properties of the whole state that every message keeps, and the facts
//! about the keyed collections that their proofs use.
use vstd::prelude::*;

use crate::auction::{auction_after_bid, bids_after_bid, entry_is, escrow_of, takes_lead};
use crate::collections::{
    lemma_bid_insert_pos, lemma_bids_sorted_remove, lemma_locks_unique_remove,
    lemma_sorted_str_lookup, lemma_str_insert_pos, lemma_strs_sorted_insert,
    lemma_strs_sorted_remove, locks_without, locks_without_all, pool_with, pool_with_all,
};
use crate::swap::{first_missing, first_repeat, first_shared, pool_without, pool_without_all};
use crate::order::lemma_str_lt_irrefl;
use crate::state::{
    bid_index, bid_insert_pos, bids_sorted, entry_lt, has_str, lemma_bid_index, lemma_lock_index,
    lock_index, locks_unique, str_insert_pos, strs_sorted, Auction, AuctionStatus, BidEntry,
    State, TokenLock,
};

verus! {

/// The auction token `t` is locked to, if it is locked.
pub open spec fn lock_of(locks: Seq<TokenLock>, t: Seq<char>) -> Option<u64> {
    if lock_index(locks, t) >= 0 {
        Some(locks[lock_index(locks, t)].auction_id)
    } else {
        None
    }
}

/// `(j, k)` designates the `k`-th token of the `j`-th bid entry.
pub open spec fn pos_ok(b: Seq<BidEntry>, j: int, k: int) -> bool {
    0 <= j < b.len() && 0 <= k < b[j].bid.token_ids@.len()
}

/// The `k`-th token of the `j`-th bid entry.
pub open spec fn token_at(b: Seq<BidEntry>, j: int, k: int) -> Seq<char> {
    b[j].bid.token_ids@[k]@
}

/// Bid escrow and token locks agree: each escrowed token is locked to the
/// auction of its bid, each lock belongs to an escrowed token, and no token
/// is escrowed twice, in one bid or across bids and auctions.
pub open spec fn escrow_consistent(bids: Seq<BidEntry>, locks: Seq<TokenLock>) -> bool {
    &&& forall|j: int, k: int|
        pos_ok(bids, j, k) ==> lock_of(locks, #[trigger] token_at(bids, j, k)) == Some(
            bids[j].auction_id,
        )
    &&& forall|t: Seq<char>|
        (#[trigger] lock_of(locks, t)) is Some ==> exists|j: int, k: int|
            pos_ok(bids, j, k) && #[trigger] token_at(bids, j, k) == t
    &&& forall|j1: int, k1: int, j2: int, k2: int|
        pos_ok(bids, j1, k1) && pos_ok(bids, j2, k2) && (j1 != j2 || k1 != k2) ==> #[trigger] token_at(
            bids,
            j1,
            k1,
        ) != #[trigger] token_at(bids, j2, k2)
}

/// In a sequence where tokens occur once, a token's lock is the entry that
/// names it.
pub proof fn lemma_lock_of_unique(s: Seq<TokenLock>, t: Seq<char>)
    requires
        locks_unique(s),
    ensures
        forall|i: int|
            0 <= i < s.len() && (#[trigger] s[i]).token_id@ == t ==> lock_of(s, t) == Some(
                s[i].auction_id,
            ),
        lock_of(s, t) is None ==> forall|i: int| 0 <= i < s.len() ==> (#[trigger] s[i]).token_id@ != t,
{
    lemma_lock_index(s, t);
}

pub proof fn lemma_lock_of_push(s: Seq<TokenLock>, e: TokenLock)
    ensures
        forall|t: Seq<char>|
            #[trigger] lock_of(s.push(e), t) == if e.token_id@ == t {
                Some(e.auction_id)
            } else {
                lock_of(s, t)
            },
{
    assert(s.push(e).drop_last() =~= s);
    assert forall|t: Seq<char>|
        #[trigger] lock_of(s.push(e), t) == if e.token_id@ == t {
            Some(e.auction_id)
        } else {
            lock_of(s, t)
        } by {
        lemma_lock_index(s, t);
        if e.token_id@ != t && lock_index(s, t) >= 0 {
            assert(s.push(e)[lock_index(s, t)] == s[lock_index(s, t)]);
        }
    }
}

pub proof fn lemma_lock_of_remove(s: Seq<TokenLock>, k: int)
    requires
        locks_unique(s),
        0 <= k < s.len(),
    ensures
        locks_unique(s.remove(k)),
        forall|t: Seq<char>|
            #[trigger] lock_of(s.remove(k), t) == if t == s[k].token_id@ {
                None
            } else {
                lock_of(s, t)
            },
{
    let r = s.remove(k);
    lemma_locks_unique_remove(s, k);
    assert forall|t: Seq<char>|
        #[trigger] lock_of(r, t) == if t == s[k].token_id@ {
            None
        } else {
            lock_of(s, t)
        } by {
        lemma_lock_of_unique(r, t);
        lemma_lock_of_unique(s, t);
        lemma_lock_index(r, t);
        lemma_lock_index(s, t);
        if t == s[k].token_id@ {
            if lock_index(r, t) >= 0 {
                let i = lock_index(r, t);
                let i0 = if i < k {
                    i
                } else {
                    i + 1
                };
                assert(r[i] == s[i0]);
            }
        } else {
            if lock_index(s, t) >= 0 {
                let i0 = lock_index(s, t);
                let i = if i0 < k {
                    i0
                } else {
                    i0 - 1
                };
                assert(r[i] == s[i0]);
            } else {
                if lock_index(r, t) >= 0 {
                    let i = lock_index(r, t);
                    let i0 = if i < k {
                        i
                    } else {
                        i + 1
                    };
                    assert(r[i] == s[i0]);
                }
            }
        }
    }
}

pub proof fn lemma_lock_of_without(s: Seq<TokenLock>, t0: Seq<char>)
    requires
        locks_unique(s),
    ensures
        locks_unique(locks_without(s, t0)),
        forall|t: Seq<char>|
            #[trigger] lock_of(locks_without(s, t0), t) == if t == t0 {
                None
            } else {
                lock_of(s, t)
            },
{
    lemma_lock_index(s, t0);
    if lock_index(s, t0) >= 0 {
        lemma_lock_of_remove(s, lock_index(s, t0));
    }
}

pub proof fn lemma_lock_of_without_all(s: Seq<TokenLock>, tokens: Seq<String>)
    requires
        locks_unique(s),
    ensures
        locks_unique(locks_without_all(s, tokens)),
        forall|t: Seq<char>|
            #[trigger] lock_of(locks_without_all(s, tokens), t) == if has_str(tokens, t) {
                None
            } else {
                lock_of(s, t)
            },
    decreases tokens.len(),
{
    if tokens.len() > 0 {
        let rest = tokens.drop_last();
        lemma_lock_of_without_all(s, rest);
        lemma_lock_of_without(locks_without_all(s, rest), tokens.last()@);
        assert forall|t: Seq<char>| has_str(tokens, t) <==> (has_str(rest, t) || tokens.last()@ == t) by {
            if has_str(rest, t) {
                let i = choose|i: int| 0 <= i < rest.len() && (#[trigger] rest[i])@ == t;
                assert(tokens[i] == rest[i]);
            }
            if tokens.last()@ == t {
                assert(tokens[tokens.len() - 1]@ == t);
            }
            if has_str(tokens, t) {
                let i = choose|i: int| 0 <= i < tokens.len() && (#[trigger] tokens[i])@ == t;
                if i < tokens.len() - 1 {
                    assert(rest[i] == tokens[i]);
                }
            }
        }
    } else {
        assert forall|t: Seq<char>| !has_str(tokens, t) by {}
    }
}

/// In a sorted bid list each key occurs once: an entry is found where it is.
pub proof fn lemma_bid_index_sorted(s: Seq<BidEntry>, j: int)
    requires
        bids_sorted(s),
        0 <= j < s.len(),
    ensures
        bid_index(s, s[j].auction_id, s[j].bid.bidder@) == j,
{
    let bi = bid_index(s, s[j].auction_id, s[j].bid.bidder@);
    lemma_bid_index(s, s[j].auction_id, s[j].bid.bidder@);
    if bi > j {
        assert(entry_lt(s[j], s[bi]));
        lemma_str_lt_irrefl(s[j].bid.bidder@);
    }
}

/// Where the entry of key `(id, who)` stands after a bid: in its old place,
/// or at its sorted position if it is new.
pub open spec fn bid_target(ob: Seq<BidEntry>, id: u64, who: Seq<char>) -> int {
    if bid_index(ob, id, who) >= 0 {
        bid_index(ob, id, who)
    } else {
        bid_insert_pos(ob, id, who)
    }
}

/// The old position of the entry at new position `j` (other than the target).
pub open spec fn back_index(ob: Seq<BidEntry>, id: u64, who: Seq<char>, j: int) -> int {
    if bid_index(ob, id, who) >= 0 || j < bid_insert_pos(ob, id, who) {
        j
    } else {
        j - 1
    }
}

/// The new position of the entry at old position `j`.
pub open spec fn fwd_index(ob: Seq<BidEntry>, id: u64, who: Seq<char>, j: int) -> int {
    if bid_index(ob, id, who) >= 0 || j < bid_insert_pos(ob, id, who) {
        j
    } else {
        j + 1
    }
}

/// The shape of the bid list after a bid, position by position.
pub proof fn lemma_after_bid_shape(
    ob: Seq<BidEntry>,
    nb: Seq<BidEntry>,
    id: u64,
    who: Seq<char>,
    tokens: Seq<String>,
    ts: u64,
)
    requires
        bids_after_bid(ob, nb, id, who, tokens, ts),
    ensures
        0 <= bid_target(ob, id, who) < nb.len(),
        entry_is(nb[bid_target(ob, id, who)], id, who, tokens, ts),
        forall|j: int|
            0 <= j < nb.len() && j != bid_target(ob, id, who) ==> 0 <= back_index(ob, id, who, j)
                < ob.len() && back_index(ob, id, who, j) != bid_index(ob, id, who) && #[trigger] nb[j]
                == ob[back_index(ob, id, who, j)] && fwd_index(ob, id, who, back_index(ob, id, who, j))
                == j,
        forall|j: int|
            0 <= j < ob.len() && j != bid_index(ob, id, who) ==> 0 <= fwd_index(ob, id, who, j)
                < nb.len() && fwd_index(ob, id, who, j) != bid_target(ob, id, who) && nb[fwd_index(
                ob,
                id,
                who,
                j,
            )] == #[trigger] ob[j],
{
    let bi = bid_index(ob, id, who);
    let p = bid_insert_pos(ob, id, who);
    lemma_bid_index(ob, id, who);
    lemma_bid_insert_pos(ob, id, who);
    if bi < 0 {
        assert forall|j: int| 0 <= j < nb.len() && j != p implies 0 <= back_index(ob, id, who, j)
            < ob.len() && #[trigger] nb[j] == ob[back_index(ob, id, who, j)] by {
            assert(ob[back_index(ob, id, who, j)] == nb.remove(p)[back_index(ob, id, who, j)]);
        }
        assert forall|j: int| 0 <= j < ob.len() implies nb[fwd_index(ob, id, who, j)]
            == #[trigger] ob[j] by {
            assert(ob[j] == nb.remove(p)[j]);
        }
    }
}

/// The tokens each bidder holds in each auction after a bid of `who` on
/// auction `id`: `tokens` for that bidder, unchanged for all others.
pub proof fn lemma_escrow_after_bid(
    old: State,
    new: State,
    id: u64,
    who: Seq<char>,
    tokens: Seq<String>,
    ts: u64,
)
    requires
        bids_sorted(old.bids@),
        bids_sorted(new.bids@),
        bids_after_bid(old.bids@, new.bids@, id, who, tokens, ts),
    ensures
        forall|id2: u64, who2: Seq<char>|
            #[trigger] escrow_of(new, id2, who2) == if id2 == id && who2 == who {
                tokens
            } else {
                escrow_of(old, id2, who2)
            },
{
    let ob = old.bids@;
    let nb = new.bids@;
    let tgt = bid_target(ob, id, who);
    lemma_after_bid_shape(ob, nb, id, who, tokens, ts);
    assert forall|id2: u64, who2: Seq<char>|
        #[trigger] escrow_of(new, id2, who2) == if id2 == id && who2 == who {
            tokens
        } else {
            escrow_of(old, id2, who2)
        } by {
        lemma_bid_index(ob, id2, who2);
        lemma_bid_index(nb, id2, who2);
        if id2 == id && who2 == who {
            lemma_bid_index_sorted(nb, tgt);
        } else {
            let oj = bid_index(ob, id2, who2);
            if oj >= 0 {
                lemma_bid_index(ob, id, who);
                lemma_bid_index_sorted(nb, fwd_index(ob, id, who, oj));
            } else {
                let nj = bid_index(nb, id2, who2);
                if nj >= 0 {
                    lemma_bid_index_sorted(ob, back_index(ob, id, who, nj));
                }
            }
        }
    }
}

/// The tokens each bidder holds after the entry at `wi` is removed.
pub proof fn lemma_escrow_after_remove(old: State, new: State, wi: int)
    requires
        bids_sorted(old.bids@),
        0 <= wi < old.bids@.len(),
        new.bids@ == old.bids@.remove(wi),
    ensures
        forall|id2: u64, who2: Seq<char>|
            #[trigger] escrow_of(new, id2, who2) == if id2 == old.bids@[wi].auction_id && who2
                == old.bids@[wi].bid.bidder@ {
                Seq::<String>::empty()
            } else {
                escrow_of(old, id2, who2)
            },
{
    let ob = old.bids@;
    let nb = new.bids@;
    lemma_bids_sorted_remove(ob, wi);
    assert forall|id2: u64, who2: Seq<char>|
        #[trigger] escrow_of(new, id2, who2) == if id2 == ob[wi].auction_id && who2
            == ob[wi].bid.bidder@ {
            Seq::<String>::empty()
        } else {
            escrow_of(old, id2, who2)
        } by {
        lemma_bid_index(ob, id2, who2);
        lemma_bid_index(nb, id2, who2);
        lemma_bid_index_sorted(ob, wi);
        let oj = bid_index(ob, id2, who2);
        let nj = bid_index(nb, id2, who2);
        if nj >= 0 {
            let j0 = if nj < wi {
                nj
            } else {
                nj + 1
            };
            assert(nb[nj] == ob[j0]);
            lemma_bid_index_sorted(ob, j0);
        } else if oj >= 0 && oj != wi {
            let j1 = if oj < wi {
                oj
            } else {
                oj - 1
            };
            assert(nb[j1] == ob[oj]);
            lemma_bid_index_sorted(nb, j1);
        }
    }
}

/// A bid that escrows a token not locked anywhere keeps escrow and locks in
/// agreement.
pub proof fn lemma_escrow_consistent_after_bid(
    ob: Seq<BidEntry>,
    nb: Seq<BidEntry>,
    ol: Seq<TokenLock>,
    id: u64,
    who: Seq<char>,
    tokens: Seq<String>,
    ts: u64,
    token: String,
)
    requires
        escrow_consistent(ob, ol),
        bids_after_bid(ob, nb, id, who, tokens, ts),
        tokens == (if bid_index(ob, id, who) >= 0 {
            ob[bid_index(ob, id, who)].bid.token_ids@
        } else {
            Seq::<String>::empty()
        }).push(token),
        lock_of(ol, token@) is None,
    ensures
        escrow_consistent(nb, ol.push(TokenLock { token_id: token, auction_id: id })),
{
    let lock = TokenLock { token_id: token, auction_id: id };
    let nl = ol.push(lock);
    let bi = bid_index(ob, id, who);
    let tgt = bid_target(ob, id, who);
    let last = tokens.len() - 1;
    lemma_lock_of_push(ol, lock);
    lemma_bid_index(ob, id, who);
    lemma_after_bid_shape(ob, nb, id, who, tokens, ts);
    // Every new position other than the new token comes from an old one.
    assert forall|j: int, k: int| pos_ok(nb, j, k) && !(j == tgt && k == last) implies ({
        let oj = if j == tgt {
            bi
        } else {
            back_index(ob, id, who, j)
        };
        pos_ok(ob, oj, k) && token_at(ob, oj, k) == token_at(nb, j, k) && ob[oj].auction_id
            == nb[j].auction_id
    }) by {
        if j == tgt {
            assert(tokens[k] == ob[bi].bid.token_ids@[k]);
        }
    }
    assert forall|j: int, k: int| pos_ok(nb, j, k) implies lock_of(
        nl,
        #[trigger] token_at(nb, j, k),
    ) == Some(nb[j].auction_id) by {
        if !(j == tgt && k == last) {
            let oj = if j == tgt {
                bi
            } else {
                back_index(ob, id, who, j)
            };
            assert(lock_of(ol, token_at(ob, oj, k)) == Some(ob[oj].auction_id));
        }
    }
    assert forall|t: Seq<char>| (#[trigger] lock_of(nl, t)) is Some implies exists|j: int, k: int|
        pos_ok(nb, j, k) && #[trigger] token_at(nb, j, k) == t by {
        if t == token@ {
            assert(pos_ok(nb, tgt, last) && token_at(nb, tgt, last) == t);
        } else {
            assert(lock_of(ol, t) is Some);
            let (j, k) = choose|j: int, k: int| pos_ok(ob, j, k) && #[trigger] token_at(ob, j, k) == t;
            if j == bi {
                assert(tokens[k] == ob[bi].bid.token_ids@[k]);
                assert(pos_ok(nb, tgt, k) && token_at(nb, tgt, k) == t);
            } else {
                let nj = fwd_index(ob, id, who, j);
                assert(pos_ok(nb, nj, k) && token_at(nb, nj, k) == t);
            }
        }
    }
    assert forall|j1: int, k1: int, j2: int, k2: int|
        pos_ok(nb, j1, k1) && pos_ok(nb, j2, k2) && (j1 != j2 || k1 != k2) implies #[trigger] token_at(
        nb,
        j1,
        k1,
    ) != #[trigger] token_at(nb, j2, k2) by {
        let o1 = if j1 == tgt {
            bi
        } else {
            back_index(ob, id, who, j1)
        };
        let o2 = if j2 == tgt {
            bi
        } else {
            back_index(ob, id, who, j2)
        };
        if j1 == tgt && k1 == last {
            assert(lock_of(ol, token_at(ob, o2, k2)) is Some);
        } else if j2 == tgt && k2 == last {
            assert(lock_of(ol, token_at(ob, o1, k1)) is Some);
        } else {
            assert(token_at(ob, o1, k1) != token_at(ob, o2, k2));
        }
    }
}

/// Removing the entry at `wi` and unlocking its tokens keeps escrow and
/// locks in agreement.
pub proof fn lemma_escrow_consistent_after_remove(ob: Seq<BidEntry>, ol: Seq<TokenLock>, wi: int)
    requires
        escrow_consistent(ob, ol),
        locks_unique(ol),
        0 <= wi < ob.len(),
    ensures
        escrow_consistent(ob.remove(wi), locks_without_all(ol, ob[wi].bid.token_ids@)),
{
    let nb = ob.remove(wi);
    let gone = ob[wi].bid.token_ids@;
    let nl = locks_without_all(ol, gone);
    lemma_lock_of_without_all(ol, gone);
    // A token of another entry is none of the removed ones.
    assert forall|j: int, k: int| pos_ok(ob, j, k) && j != wi implies !has_str(
        gone,
        #[trigger] token_at(ob, j, k),
    ) by {
        if has_str(gone, token_at(ob, j, k)) {
            let i = choose|i: int| 0 <= i < gone.len() && (#[trigger] gone[i])@ == token_at(ob, j, k);
            assert(token_at(ob, wi, i) == token_at(ob, j, k));
        }
    }
    assert forall|j: int, k: int| pos_ok(nb, j, k) implies lock_of(
        nl,
        #[trigger] token_at(nb, j, k),
    ) == Some(nb[j].auction_id) by {
        let j0 = if j < wi {
            j
        } else {
            j + 1
        };
        assert(nb[j] == ob[j0]);
        assert(token_at(nb, j, k) == token_at(ob, j0, k));
    }
    assert forall|t: Seq<char>| (#[trigger] lock_of(nl, t)) is Some implies exists|j: int, k: int|
        pos_ok(nb, j, k) && #[trigger] token_at(nb, j, k) == t by {
        assert(!has_str(gone, t) && lock_of(ol, t) is Some);
        let (j, k) = choose|j: int, k: int| pos_ok(ob, j, k) && #[trigger] token_at(ob, j, k) == t;
        if j == wi {
            assert(gone[k]@ == t);
        }
        let j1 = if j < wi {
            j
        } else {
            j - 1
        };
        assert(nb[j1] == ob[j]);
        assert(pos_ok(nb, j1, k) && token_at(nb, j1, k) == t);
    }
    assert forall|j1: int, k1: int, j2: int, k2: int|
        pos_ok(nb, j1, k1) && pos_ok(nb, j2, k2) && (j1 != j2 || k1 != k2) implies #[trigger] token_at(
        nb,
        j1,
        k1,
    ) != #[trigger] token_at(nb, j2, k2) by {
        let a = if j1 < wi {
            j1
        } else {
            j1 + 1
        };
        let b = if j2 < wi {
            j2
        } else {
            j2 + 1
        };
        assert(nb[j1] == ob[a] && nb[j2] == ob[b]);
        assert(token_at(ob, a, k1) != token_at(ob, b, k2));
    }
}

/// The active-auction locks of Cosmic tokens agree with the auctions: each
/// lock names an active auction of that token, and each active auction's
/// token is locked to it.
pub open spec fn mega_consistent(s: State) -> bool {
    &&& forall|t: Seq<char>|
        (#[trigger] lock_of(s.active_mega_auctions@, t)) is Some ==> {
            let id = lock_of(s.active_mega_auctions@, t)->0;
            &&& s.has_auction(id)
            &&& s.auction(id).status == AuctionStatus::Active
            &&& s.auction(id).mega_token_id@ == t
        }
    &&& forall|id: u64|
        s.has_auction(id) && (#[trigger] s.auction(id)).status == AuctionStatus::Active ==> lock_of(
            s.active_mega_auctions@,
            s.auction(id).mega_token_id@,
        ) == Some(id)
}

/// An auction update that keeps the auction's token and whether it is active
/// keeps the Cosmic locks in agreement.
pub proof fn lemma_mega_after_update(old: State, new: State, id: u64, a2: Auction)
    requires
        mega_consistent(old),
        old.has_auction(id),
        new.auctions@ == old.auctions@.update(id - 1, a2),
        new.active_mega_auctions == old.active_mega_auctions,
        a2.mega_token_id == old.auction(id).mega_token_id,
        (a2.status == AuctionStatus::Active) == (old.auction(id).status == AuctionStatus::Active),
    ensures
        mega_consistent(new),
{
    assert forall|id2: u64| new.has_auction(id2) implies #[trigger] new.auction(id2) == if id2 == id {
        a2
    } else {
        old.auction(id2)
    } by {}
    assert forall|id2: u64|
        new.has_auction(id2) && (#[trigger] new.auction(id2)).status == AuctionStatus::Active implies lock_of(
        new.active_mega_auctions@,
        new.auction(id2).mega_token_id@,
    ) == Some(id2) by {
        assert(old.auction(id2).status == AuctionStatus::Active);
    }
}

/// Closing an active auction and dropping its token's lock keeps the Cosmic
/// locks in agreement.
pub proof fn lemma_mega_after_close(old: State, new: State, id: u64, st: AuctionStatus)
    requires
        mega_consistent(old),
        locks_unique(old.active_mega_auctions@),
        old.has_auction(id),
        old.auction(id).status == AuctionStatus::Active,
        st != AuctionStatus::Active,
        new.auctions@ == old.auctions@.update(id - 1, Auction { status: st, ..old.auction(id) }),
        new.active_mega_auctions@ == locks_without(
            old.active_mega_auctions@,
            old.auction(id).mega_token_id@,
        ),
    ensures
        mega_consistent(new),
{
    let mega = old.auction(id).mega_token_id@;
    lemma_lock_of_without(old.active_mega_auctions@, mega);
    assert forall|id2: u64| new.has_auction(id2) implies #[trigger] new.auction(id2) == if id2 == id {
        Auction { status: st, ..old.auction(id) }
    } else {
        old.auction(id2)
    } by {}
    assert(lock_of(old.active_mega_auctions@, mega) == Some(id));
    assert forall|t: Seq<char>| (#[trigger] lock_of(new.active_mega_auctions@, t)) is Some implies {
        let id2 = lock_of(new.active_mega_auctions@, t)->0;
        &&& new.has_auction(id2)
        &&& new.auction(id2).status == AuctionStatus::Active
        &&& new.auction(id2).mega_token_id@ == t
    } by {
        assert(lock_of(old.active_mega_auctions@, t) is Some);
    }
    assert forall|id2: u64|
        new.has_auction(id2) && (#[trigger] new.auction(id2)).status == AuctionStatus::Active implies lock_of(
        new.active_mega_auctions@,
        new.auction(id2).mega_token_id@,
    ) == Some(id2) by {
        assert(old.auction(id2).status == AuctionStatus::Active);
    }
}

/// Opening auction `id` for token `mega`, not locked yet, keeps the Cosmic
/// locks in agreement.
pub proof fn lemma_mega_after_open(old: State, new: State, a: Auction)
    requires
        mega_consistent(old),
        old.wf(),
        a.auction_id == old.next_auction_id,
        a.status == AuctionStatus::Active,
        lock_of(old.active_mega_auctions@, a.mega_token_id@) is None,
        new.auctions@ == old.auctions@.push(a),
        new.active_mega_auctions@ == old.active_mega_auctions@.push(
            TokenLock { token_id: a.mega_token_id, auction_id: a.auction_id },
        ),
    ensures
        mega_consistent(new),
{
    lemma_lock_of_push(
        old.active_mega_auctions@,
        TokenLock { token_id: a.mega_token_id, auction_id: a.auction_id },
    );
    assert forall|id2: u64| new.has_auction(id2) implies #[trigger] new.auction(id2) == if id2
        == a.auction_id {
        a
    } else {
        old.auction(id2)
    } by {}
    assert forall|t: Seq<char>| (#[trigger] lock_of(new.active_mega_auctions@, t)) is Some implies {
        let id2 = lock_of(new.active_mega_auctions@, t)->0;
        &&& new.has_auction(id2)
        &&& new.auction(id2).status == AuctionStatus::Active
        &&& new.auction(id2).mega_token_id@ == t
    } by {
        if t != a.mega_token_id@ {
            assert(lock_of(old.active_mega_auctions@, t) is Some);
        }
    }
    assert forall|id2: u64|
        new.has_auction(id2) && (#[trigger] new.auction(id2)).status == AuctionStatus::Active implies lock_of(
        new.active_mega_auctions@,
        new.auction(id2).mega_token_id@,
    ) == Some(id2) by {
        if id2 != a.auction_id {
            assert(old.auction(id2).status == AuctionStatus::Active);
        }
    }
}

/// The Cosmic locks agree with the auctions as long as neither changes.
pub proof fn lemma_mega_same(old: State, new: State)
    requires
        mega_consistent(old),
        new.auctions == old.auctions,
        new.active_mega_auctions == old.active_mega_auctions,
    ensures
        mega_consistent(new),
{
    assert forall|id: u64| new.has_auction(id) implies #[trigger] new.auction(id) == old.auction(id) by {}
    assert forall|id: u64|
        new.has_auction(id) && (#[trigger] new.auction(id)).status == AuctionStatus::Active implies lock_of(
        new.active_mega_auctions@,
        new.auction(id).mega_token_id@,
    ) == Some(id) by {
        assert(old.auction(id).status == AuctionStatus::Active);
    }
}

/// The leader of auction `id` holds the highest escrow, at least the minimum
/// bid, and no bidder holds more; with no leader, no bidder has reached the
/// minimum.
pub open spec fn leader_consistent(s: State, id: u64) -> bool {
    let a = s.auction(id);
    match a.highest_bidder {
        Some(w) => {
            &&& a.highest_bid_count >= a.min_bid
            &&& escrow_of(s, id, w@).len() == a.highest_bid_count
            &&& forall|who: Seq<char>| #[trigger] escrow_of(s, id, who).len() <= a.highest_bid_count
        },
        None => {
            &&& a.highest_bid_count == 0
            &&& forall|who: Seq<char>| #[trigger] escrow_of(s, id, who).len() < a.min_bid
        },
    }
}

/// Every bid belongs to an existing auction, and every active auction's
/// leader bookkeeping agrees with the escrow.
pub open spec fn leaders_consistent(s: State) -> bool {
    &&& forall|j: int| 0 <= j < s.bids@.len() ==> s.has_auction(#[trigger] s.bids@[j].auction_id)
    &&& forall|id: u64|
        s.has_auction(id) && (#[trigger] s.auction(id)).status == AuctionStatus::Active
            ==> leader_consistent(s, id)
}

/// Escrows depend on the bids alone.
pub proof fn lemma_escrow_same(old: State, new: State)
    requires
        new.bids == old.bids,
    ensures
        forall|id: u64, who: Seq<char>| #[trigger] escrow_of(new, id, who) == escrow_of(old, id, who),
{
}

/// Changing neither bids nor auctions keeps the leader bookkeeping.
pub proof fn lemma_leaders_same(old: State, new: State)
    requires
        leaders_consistent(old),
        new.bids == old.bids,
        new.auctions == old.auctions,
    ensures
        leaders_consistent(new),
{
    lemma_escrow_same(old, new);
    assert forall|id: u64| new.has_auction(id) implies #[trigger] new.auction(id) == old.auction(id) by {}
    assert forall|id: u64|
        new.has_auction(id) && (#[trigger] new.auction(id)).status == AuctionStatus::Active implies leader_consistent(
        new,
        id,
    ) by {
        assert(leader_consistent(old, id));
    }
}

/// The bookkeeping of auction `id` after one more token of `who`, now
/// holding `total`, is counted.
pub proof fn lemma_leader_after_bid(
    old: State,
    new: State,
    id: u64,
    who: String,
    total: u64,
    now: u64,
)
    requires
        old.has_auction(id),
        leader_consistent(old, id),
        total == escrow_of(old, id, who@).len() + 1,
        new.auctions@ == old.auctions@.update(
            id - 1,
            auction_after_bid(old.auction(id), old.config, who, total, now),
        ),
        forall|who2: Seq<char>|
            #[trigger] escrow_of(new, id, who2) == if who2 == who@ {
                escrow_of(old, id, who@).push(escrow_of(new, id, who@).last())
            } else {
                escrow_of(old, id, who2)
            },
    ensures
        leader_consistent(new, id),
{
    let a = old.auction(id);
    let a2 = new.auction(id);
    assert(a2 == auction_after_bid(a, old.config, who, total, now));
    assert(escrow_of(new, id, who@).len() == total);
    if takes_lead(a, who@, total) {
        assert forall|who2: Seq<char>| #[trigger] escrow_of(new, id, who2).len() <= a2.highest_bid_count by {
            if who2 != who@ {
                assert(escrow_of(old, id, who2).len() <= a.highest_bid_count || escrow_of(
                    old,
                    id,
                    who2,
                ).len() < a.min_bid);
                if let Some(w) = a.highest_bidder {
                    if w@ == who@ {
                        assert(escrow_of(old, id, w@).len() == a.highest_bid_count);
                    }
                }
            }
        }
    } else {
        match a.highest_bidder {
            Some(w) => {
                assert(w@ != who@);
                assert(escrow_of(new, id, w@) == escrow_of(old, id, w@));
                assert forall|who2: Seq<char>| #[trigger] escrow_of(new, id, who2).len()
                    <= a2.highest_bid_count by {
                    assert(escrow_of(old, id, who2).len() <= a.highest_bid_count);
                }
            },
            None => {
                assert forall|who2: Seq<char>| #[trigger] escrow_of(new, id, who2).len() < a2.min_bid by {
                    assert(escrow_of(old, id, who2).len() < a.min_bid);
                }
            },
        }
    }
}

/// A bid of `who` on active auction `id` keeps the leader bookkeeping.
pub proof fn lemma_leaders_after_bid(
    old: State,
    new: State,
    id: u64,
    who: String,
    token: String,
    now: u64,
)
    requires
        leaders_consistent(old),
        bids_sorted(old.bids@),
        bids_sorted(new.bids@),
        old.has_auction(id),
        old.auction(id).status == AuctionStatus::Active,
        escrow_of(old, id, who@).len() < u64::MAX,
        bids_after_bid(old.bids@, new.bids@, id, who@, escrow_of(old, id, who@).push(token), now),
        new.auctions@ == old.auctions@.update(
            id - 1,
            auction_after_bid(
                old.auction(id),
                old.config,
                who,
                escrow_of(old, id, who@).push(token).len() as u64,
                now,
            ),
        ),
    ensures
        leaders_consistent(new),
{
    let tokens = escrow_of(old, id, who@).push(token);
    let total = tokens.len() as u64;
    lemma_escrow_after_bid(old, new, id, who@, tokens, now);
    lemma_after_bid_shape(old.bids@, new.bids@, id, who@, tokens, now);
    assert forall|j: int| 0 <= j < new.bids@.len() implies new.has_auction(
        #[trigger] new.bids@[j].auction_id,
    ) by {
        if j != bid_target(old.bids@, id, who@) {
            assert(old.has_auction(old.bids@[back_index(old.bids@, id, who@, j)].auction_id));
        }
    }
    assert forall|id2: u64| new.has_auction(id2) implies #[trigger] new.auction(id2) == if id2 == id {
        auction_after_bid(old.auction(id), old.config, who, total, now)
    } else {
        old.auction(id2)
    } by {}
    assert forall|id2: u64|
        new.has_auction(id2) && (#[trigger] new.auction(id2)).status == AuctionStatus::Active implies leader_consistent(
        new,
        id2,
    ) by {
        assert(leader_consistent(old, id2));
        if id2 == id {
            lemma_leader_after_bid(old, new, id, who, total, now);
        } else {
            assert forall|who2: Seq<char>| #[trigger] escrow_of(new, id2, who2) == escrow_of(
                old,
                id2,
                who2,
            ) by {}
        }
    }
}

/// Closing auction `id` (it is no longer active), possibly taking the entry
/// at `wi` of a bid in it out of the list, keeps the leader bookkeeping.
pub proof fn lemma_leaders_after_close(old: State, new: State, id: u64, a2: Auction, wi: int)
    requires
        leaders_consistent(old),
        bids_sorted(old.bids@),
        old.has_auction(id),
        a2.status != AuctionStatus::Active,
        new.auctions@ == old.auctions@.update(id - 1, a2),
        wi < 0 ==> new.bids == old.bids,
        wi >= 0 ==> wi < old.bids@.len() && old.bids@[wi].auction_id == id && new.bids@
            == old.bids@.remove(wi),
    ensures
        leaders_consistent(new),
{
    if wi >= 0 {
        lemma_escrow_after_remove(old, new, wi);
        assert forall|j: int| 0 <= j < new.bids@.len() implies new.has_auction(
            #[trigger] new.bids@[j].auction_id,
        ) by {
            let j0 = if j < wi {
                j
            } else {
                j + 1
            };
            assert(new.bids@[j] == old.bids@[j0]);
            assert(old.has_auction(old.bids@[j0].auction_id));
        }
    } else {
        lemma_escrow_same(old, new);
        assert forall|j: int| 0 <= j < new.bids@.len() implies new.has_auction(
            #[trigger] new.bids@[j].auction_id,
        ) by {
            assert(old.has_auction(old.bids@[j].auction_id));
        }
    }
    assert forall|id2: u64| new.has_auction(id2) implies #[trigger] new.auction(id2) == if id2 == id {
        a2
    } else {
        old.auction(id2)
    } by {}
    assert forall|id2: u64|
        new.has_auction(id2) && (#[trigger] new.auction(id2)).status == AuctionStatus::Active implies leader_consistent(
        new,
        id2,
    ) by {
        assert(leader_consistent(old, id2));
        assert forall|who2: Seq<char>| #[trigger] escrow_of(new, id2, who2) == escrow_of(
            old,
            id2,
            who2,
        ) by {}
    }
}

/// Opening a new auction with no leader and a positive minimum keeps the
/// leader bookkeeping.
pub proof fn lemma_leaders_after_open(old: State, new: State, a: Auction)
    requires
        leaders_consistent(old),
        old.wf(),
        a.auction_id == old.next_auction_id,
        a.highest_bidder is None,
        a.highest_bid_count == 0,
        a.min_bid >= 1,
        new.auctions@ == old.auctions@.push(a),
        new.bids == old.bids,
    ensures
        leaders_consistent(new),
{
    lemma_escrow_same(old, new);
    assert forall|id2: u64| new.has_auction(id2) implies #[trigger] new.auction(id2) == if id2
        == a.auction_id {
        a
    } else {
        old.auction(id2)
    } by {}
    assert forall|j: int| 0 <= j < new.bids@.len() implies new.has_auction(
        #[trigger] new.bids@[j].auction_id,
    ) by {
        assert(old.has_auction(old.bids@[j].auction_id));
    }
    assert forall|id2: u64|
        new.has_auction(id2) && (#[trigger] new.auction(id2)).status == AuctionStatus::Active implies leader_consistent(
        new,
        id2,
    ) by {
        if id2 == a.auction_id {
            assert forall|who2: Seq<char>| #[trigger] escrow_of(new, id2, who2).len() < a.min_bid by {
                lemma_bid_index(old.bids@, id2, who2);
                if bid_index(old.bids@, id2, who2) >= 0 {
                    assert(old.has_auction(old.bids@[bid_index(old.bids@, id2, who2)].auction_id));
                }
            }
        } else {
            assert(leader_consistent(old, id2));
            assert forall|who2: Seq<char>| #[trigger] escrow_of(new, id2, who2) == escrow_of(
                old,
                id2,
                who2,
            ) by {}
        }
    }
}

/// No string of `s` occurs twice.
pub open spec fn strs_distinct(s: Seq<String>) -> bool {
    forall|i: int, j: int| 0 <= i < s.len() && 0 <= j < s.len() && i != j ==> (#[trigger] s[i])@
        != (#[trigger] s[j])@
}

pub proof fn lemma_has_str_push(s: Seq<String>, t: String)
    ensures
        forall|x: Seq<char>| #[trigger] has_str(s.push(t), x) <==> (has_str(s, x) || t@ == x),
{
    assert forall|x: Seq<char>| #[trigger] has_str(s.push(t), x) <==> (has_str(s, x) || t@ == x) by {
        if has_str(s, x) {
            let i = choose|i: int| 0 <= i < s.len() && (#[trigger] s[i])@ == x;
            assert(s.push(t)[i] == s[i]);
        }
        if t@ == x {
            assert(s.push(t)[s.len() as int] == t);
        }
        if has_str(s.push(t), x) {
            let i = choose|i: int| 0 <= i < s.push(t).len() && (#[trigger] s.push(t)[i])@ == x;
            if i < s.len() {
                assert(s.push(t)[i] == s[i]);
            }
        }
    }
}

pub proof fn lemma_has_str_last(s: Seq<String>)
    requires
        s.len() > 0,
    ensures
        forall|x: Seq<char>| #[trigger] has_str(s, x) <==> (has_str(s.drop_last(), x) || s.last()@ == x),
{
    assert(s.drop_last().push(s.last()) =~= s);
    lemma_has_str_push(s.drop_last(), s.last());
}

/// A sorted sequence holds each string once.
pub proof fn lemma_sorted_distinct(s: Seq<String>)
    requires
        strs_sorted(s),
    ensures
        strs_distinct(s),
{
    assert forall|i: int, j: int| 0 <= i < s.len() && 0 <= j < s.len() && i != j implies (#[trigger] s[i])@
        != (#[trigger] s[j])@ by {
        if i < j {
            assert(crate::order::str_lt(s[i]@, s[j]@));
            lemma_str_lt_irrefl(s[i]@);
        } else {
            assert(crate::order::str_lt(s[j]@, s[i]@));
            lemma_str_lt_irrefl(s[j]@);
        }
    }
}

/// Putting `t` in a sorted pool adds it, once.
pub proof fn lemma_pool_with(p: Seq<String>, t: String)
    requires
        strs_sorted(p),
    ensures
        strs_sorted(pool_with(p, t)),
        forall|x: Seq<char>| #[trigger] has_str(pool_with(p, t), x) <==> (has_str(p, x) || t@ == x),
        pool_with(p, t).len() == p.len() + if has_str(p, t@) {
            0int
        } else {
            1int
        },
{
    if !has_str(p, t@) {
        let k = str_insert_pos(p, t@);
        lemma_str_insert_pos(p, t@);
        lemma_strs_sorted_insert(p, t);
        let r = p.insert(k, t);
        assert forall|x: Seq<char>| #[trigger] has_str(r, x) <==> (has_str(p, x) || t@ == x) by {
            if has_str(p, x) {
                let i = choose|i: int| 0 <= i < p.len() && (#[trigger] p[i])@ == x;
                if i < k {
                    assert(r[i] == p[i]);
                } else {
                    assert(r[i + 1] == p[i]);
                }
            }
            if t@ == x {
                assert(r[k] == t);
            }
            if has_str(r, x) {
                let i = choose|i: int| 0 <= i < r.len() && (#[trigger] r[i])@ == x;
                if i < k {
                    assert(r[i] == p[i]);
                } else if i > k {
                    assert(r[i] == p[i - 1]);
                }
            }
        }
    } else {
        assert forall|x: Seq<char>| #[trigger] has_str(pool_with(p, t), x) <==> (has_str(p, x) || t@ == x) by {}
    }
}

/// Putting distinct tokens, none in the pool yet, in a sorted pool adds
/// them all.
pub proof fn lemma_pool_with_all(p: Seq<String>, tokens: Seq<String>)
    requires
        strs_sorted(p),
    ensures
        strs_sorted(pool_with_all(p, tokens)),
        forall|x: Seq<char>|
            #[trigger] has_str(pool_with_all(p, tokens), x) <==> (has_str(p, x) || has_str(tokens, x)),
        strs_distinct(tokens) && (forall|i: int| 0 <= i < tokens.len() ==> !has_str(p, #[trigger] tokens[i]@))
            ==> pool_with_all(p, tokens).len() == p.len() + tokens.len(),
    decreases tokens.len(),
{
    if tokens.len() == 0 {
        assert forall|x: Seq<char>| #[trigger] has_str(pool_with_all(p, tokens), x) <==> (has_str(p, x)
            || has_str(tokens, x)) by {}
    } else {
        let rest = tokens.drop_last();
        lemma_pool_with_all(p, rest);
        let q = pool_with_all(p, rest);
        lemma_pool_with(q, tokens.last());
        lemma_has_str_last(tokens);
        if strs_distinct(tokens) && (forall|i: int| 0 <= i < tokens.len() ==> !has_str(p, #[trigger] tokens[i]@)) {
            assert(strs_distinct(rest)) by {
                assert forall|i: int, j: int| 0 <= i < rest.len() && 0 <= j < rest.len() && i != j implies (#[trigger] rest[i])@
                    != (#[trigger] rest[j])@ by {
                    assert(rest[i] == tokens[i] && rest[j] == tokens[j]);
                }
            }
            assert forall|i: int| 0 <= i < rest.len() implies !has_str(p, #[trigger] rest[i]@) by {
                assert(rest[i] == tokens[i]);
            }
            assert(!has_str(q, tokens.last()@)) by {
                assert(!has_str(p, tokens[tokens.len() - 1]@));
                if has_str(rest, tokens.last()@) {
                    let i = choose|i: int| 0 <= i < rest.len() && (#[trigger] rest[i])@ == tokens.last()@;
                    assert(rest[i] == tokens[i]);
                }
            }
        }
    }
}

/// Taking `t` out of a sorted pool removes it, if it is there.
pub proof fn lemma_pool_without(p: Seq<String>, t: Seq<char>)
    requires
        strs_sorted(p),
    ensures
        strs_sorted(pool_without(p, t)),
        forall|x: Seq<char>| #[trigger] has_str(pool_without(p, t), x) <==> (has_str(p, x) && x != t),
        pool_without(p, t).len() == p.len() - if has_str(p, t) {
            1int
        } else {
            0int
        },
{
    lemma_sorted_str_lookup(p, t);
    lemma_sorted_distinct(p);
    if has_str(p, t) {
        let k = str_insert_pos(p, t);
        lemma_str_insert_pos(p, t);
        assert(k < p.len() && p[k]@ == t);
        lemma_strs_sorted_remove(p, k);
        let r = p.remove(k);
        assert forall|x: Seq<char>| #[trigger] has_str(r, x) <==> (has_str(p, x) && x != t) by {
            if has_str(p, x) && x != t {
                let i = choose|i: int| 0 <= i < p.len() && (#[trigger] p[i])@ == x;
                if i < k {
                    assert(r[i] == p[i]);
                } else {
                    assert(r[i - 1] == p[i]);
                }
            }
            if has_str(r, x) {
                let i = choose|i: int| 0 <= i < r.len() && (#[trigger] r[i])@ == x;
                if i < k {
                    assert(r[i] == p[i]);
                } else {
                    assert(r[i] == p[i + 1]);
                }
            }
        }
    } else {
        assert forall|x: Seq<char>| #[trigger] has_str(pool_without(p, t), x) <==> (has_str(p, x) && x
            != t) by {}
    }
}

/// Taking distinct tokens, all in the pool, out of a sorted pool removes
/// them all.
pub proof fn lemma_pool_without_all(p: Seq<String>, tokens: Seq<String>)
    requires
        strs_sorted(p),
    ensures
        strs_sorted(pool_without_all(p, tokens)),
        forall|x: Seq<char>|
            #[trigger] has_str(pool_without_all(p, tokens), x) <==> (has_str(p, x) && !has_str(tokens, x)),
        strs_distinct(tokens) && (forall|i: int| 0 <= i < tokens.len() ==> has_str(p, #[trigger] tokens[i]@))
            ==> pool_without_all(p, tokens).len() == p.len() - tokens.len(),
    decreases tokens.len(),
{
    if tokens.len() == 0 {
        assert forall|x: Seq<char>| #[trigger] has_str(pool_without_all(p, tokens), x) <==> (has_str(p, x)
            && !has_str(tokens, x)) by {}
    } else {
        let rest = tokens.drop_last();
        lemma_pool_without_all(p, rest);
        let q = pool_without_all(p, rest);
        lemma_pool_without(q, tokens.last()@);
        lemma_has_str_last(tokens);
        if strs_distinct(tokens) && (forall|i: int| 0 <= i < tokens.len() ==> has_str(p, #[trigger] tokens[i]@)) {
            assert(strs_distinct(rest)) by {
                assert forall|i: int, j: int| 0 <= i < rest.len() && 0 <= j < rest.len() && i != j implies (#[trigger] rest[i])@
                    != (#[trigger] rest[j])@ by {
                    assert(rest[i] == tokens[i] && rest[j] == tokens[j]);
                }
            }
            assert forall|i: int| 0 <= i < rest.len() implies has_str(p, #[trigger] rest[i]@) by {
                assert(rest[i] == tokens[i]);
            }
            assert(has_str(q, tokens.last()@)) by {
                assert(has_str(p, tokens[tokens.len() - 1]@));
                if has_str(rest, tokens.last()@) {
                    let i = choose|i: int| 0 <= i < rest.len() && (#[trigger] rest[i])@ == tokens.last()@;
                    assert(rest[i] == tokens[i]);
                }
            }
        }
    }
}

pub proof fn lemma_first_repeat_none(s: Seq<String>)
    requires
        first_repeat(s) < 0,
    ensures
        strs_distinct(s),
    decreases s.len(),
{
    if s.len() > 0 {
        let rest = s.drop_last();
        lemma_first_repeat_none(rest);
        assert forall|i: int, j: int| 0 <= i < s.len() && 0 <= j < s.len() && i != j implies (#[trigger] s[i])@
            != (#[trigger] s[j])@ by {
            if i < s.len() - 1 && j < s.len() - 1 {
                assert(rest[i] == s[i] && rest[j] == s[j]);
            } else if i < s.len() - 1 {
                assert(rest[i] == s[i]);
            } else {
                assert(rest[j] == s[j]);
            }
        }
    }
}

pub proof fn lemma_first_shared_none(s: Seq<String>, other: Seq<String>)
    requires
        first_shared(s, other) < 0,
    ensures
        forall|i: int| 0 <= i < s.len() ==> !has_str(other, #[trigger] s[i]@),
    decreases s.len(),
{
    if s.len() > 0 {
        let rest = s.drop_last();
        lemma_first_shared_none(rest, other);
        assert forall|i: int| 0 <= i < s.len() implies !has_str(other, #[trigger] s[i]@) by {
            if i < s.len() - 1 {
                assert(rest[i] == s[i]);
            }
        }
    }
}

pub proof fn lemma_first_missing_none(s: Seq<String>, other: Seq<String>)
    requires
        first_missing(s, other) < 0,
    ensures
        forall|i: int| 0 <= i < s.len() ==> has_str(other, #[trigger] s[i]@),
    decreases s.len(),
{
    if s.len() > 0 {
        let rest = s.drop_last();
        lemma_first_missing_none(rest, other);
        assert forall|i: int| 0 <= i < s.len() implies has_str(other, #[trigger] s[i]@) by {
            if i < s.len() - 1 {
                assert(rest[i] == s[i]);
            }
        }
    }
}

} // verus!
