//! Lookups in the keyed collections of the state.
use vstd::prelude::*;

use crate::order::{lemma_str_lt_asym, lemma_str_lt_total, lemma_str_lt_trans, str_less, str_lt};
use crate::state::{
    bid_index, bid_insert_pos, bid_key_lt, bids_sorted, entry_lt, has_str, lemma_bid_index, lemma_lock_index,
    lemma_staging_index, lock_index, locks_unique, losers_remain, staging_index, staging_unique, str_insert_pos,
    strs_sorted, BidEntry, StagedTokens,
    TokenLock,
};

verus! {

/// Finds the entry of token `t`.
pub fn find_lock(locks: &Vec<TokenLock>, t: &String) -> (r: Option<usize>)
    ensures
        match r {
            Some(i) => i == lock_index(locks@, t@) && i < locks@.len() && locks@[i as int].token_id@ == t@,
            None => lock_index(locks@, t@) == -1,
        },
{
    proof {
        lemma_lock_index(locks@, t@);
    }
    let mut i = locks.len();
    while i > 0
        invariant
            i <= locks@.len(),
            forall|j: int| i <= j < locks@.len() ==> (#[trigger] locks@[j]).token_id@ != t@,
        decreases i,
    {
        i = i - 1;
        if locks[i].token_id == *t {
            proof {
                lemma_lock_index(locks@, t@);
            }
            return Some(i);
        }
    }
    None
}

/// Finds the staging area of `owner`.
pub fn find_staging(staging: &Vec<StagedTokens>, owner: &String) -> (r: Option<usize>)
    ensures
        match r {
            Some(i) => i == staging_index(staging@, owner@) && i < staging@.len()
                && staging@[i as int].owner@ == owner@,
            None => staging_index(staging@, owner@) == -1,
        },
{
    proof {
        lemma_staging_index(staging@, owner@);
    }
    let mut i = staging.len();
    while i > 0
        invariant
            i <= staging@.len(),
            forall|j: int| i <= j < staging@.len() ==> (#[trigger] staging@[j]).owner@ != owner@,
        decreases i,
    {
        i = i - 1;
        if staging[i].owner == *owner {
            proof {
                lemma_staging_index(staging@, owner@);
            }
            return Some(i);
        }
    }
    None
}

/// Whether a bidder other than `winner` still has tokens escrowed in auction `id`.
pub fn any_loser_escrow(bids: &Vec<BidEntry>, id: u64, winner: &Option<String>) -> (r: bool)
    ensures
        r == losers_remain(bids@, id, *winner),
{
    let mut i: usize = 0;
    while i < bids.len()
        invariant
            i <= bids@.len(),
            forall|j: int|
                0 <= j < i ==> !((#[trigger] bids@[j]).auction_id == id && bids@[j].bid.token_ids@.len() > 0
                    && match *winner {
                    Some(w) => bids@[j].bid.bidder@ != w@,
                    None => true,
                }),
        decreases bids@.len() - i,
    {
        let e = &bids[i];
        if e.auction_id == id && e.bid.token_ids.len() > 0 {
            let other = match winner {
                Some(w) => e.bid.bidder != *w,
                None => true,
            };
            if other {
                return true;
            }
        }
        i = i + 1;
    }
    false
}

/// Finds the bid entry of key `(id, bidder)`.
pub fn find_bid(bids: &Vec<BidEntry>, id: u64, bidder: &String) -> (r: Option<usize>)
    ensures
        match r {
            Some(i) => i == bid_index(bids@, id, bidder@) && i < bids@.len() && bids@[i as int].auction_id
                == id && bids@[i as int].bid.bidder@ == bidder@,
            None => bid_index(bids@, id, bidder@) == -1,
        },
{
    proof {
        lemma_bid_index(bids@, id, bidder@);
    }
    let mut i = bids.len();
    while i > 0
        invariant
            i <= bids@.len(),
            forall|j: int|
                i <= j < bids@.len() ==> !((#[trigger] bids@[j]).auction_id == id
                    && bids@[j].bid.bidder@ == bidder@),
        decreases i,
    {
        i = i - 1;
        if bids[i].auction_id == id && bids[i].bid.bidder == *bidder {
            proof {
                lemma_bid_index(bids@, id, bidder@);
            }
            return Some(i);
        }
    }
    None
}

pub proof fn lemma_bid_insert_pos(s: Seq<BidEntry>, id: u64, bidder: Seq<char>)
    ensures
        0 <= bid_insert_pos(s, id, bidder) <= s.len(),
        forall|j: int|
            0 <= j < bid_insert_pos(s, id, bidder) ==> bid_key_lt(
                (#[trigger] s[j]).auction_id,
                s[j].bid.bidder@,
                id,
                bidder,
            ),
        bid_insert_pos(s, id, bidder) < s.len() ==> !bid_key_lt(
            s[bid_insert_pos(s, id, bidder)].auction_id,
            s[bid_insert_pos(s, id, bidder)].bid.bidder@,
            id,
            bidder,
        ),
    decreases s.len(),
{
    if s.len() > 0 && bid_key_lt(s[0].auction_id, s[0].bid.bidder@, id, bidder) {
        lemma_bid_insert_pos(s.drop_first(), id, bidder);
        assert forall|j: int| 0 <= j < bid_insert_pos(s, id, bidder) implies bid_key_lt(
            (#[trigger] s[j]).auction_id,
            s[j].bid.bidder@,
            id,
            bidder,
        ) by {
            if j > 0 {
                assert(s[j] == s.drop_first()[j - 1]);
            }
        }
    }
}

pub proof fn lemma_str_insert_pos(s: Seq<String>, t: Seq<char>)
    ensures
        0 <= str_insert_pos(s, t) <= s.len(),
        forall|j: int| 0 <= j < str_insert_pos(s, t) ==> str_lt((#[trigger] s[j])@, t),
        str_insert_pos(s, t) < s.len() ==> !str_lt(s[str_insert_pos(s, t)]@, t),
    decreases s.len(),
{
    if s.len() > 0 && str_lt(s[0]@, t) {
        lemma_str_insert_pos(s.drop_first(), t);
        assert forall|j: int| 0 <= j < str_insert_pos(s, t) implies str_lt((#[trigger] s[j])@, t) by {
            if j > 0 {
                assert(s[j] == s.drop_first()[j - 1]);
            }
        }
    }
}

pub proof fn lemma_bid_key_lt_trans(
    a1: u64,
    b1: Seq<char>,
    a2: u64,
    b2: Seq<char>,
    a3: u64,
    b3: Seq<char>,
)
    requires
        bid_key_lt(a1, b1, a2, b2),
        bid_key_lt(a2, b2, a3, b3),
    ensures
        bid_key_lt(a1, b1, a3, b3),
{
    if a1 == a2 && a2 == a3 {
        lemma_str_lt_trans(b1, b2, b3);
    }
}

pub proof fn lemma_bid_key_lt_asym(a1: u64, b1: Seq<char>, a2: u64, b2: Seq<char>)
    requires
        bid_key_lt(a1, b1, a2, b2),
    ensures
        !bid_key_lt(a2, b2, a1, b1),
        !(a1 == a2 && b1 == b2),
{
    if a1 == a2 {
        lemma_str_lt_asym(b1, b2);
    }
}

pub proof fn lemma_bid_key_lt_total(a1: u64, b1: Seq<char>, a2: u64, b2: Seq<char>)
    requires
        !(a1 == a2 && b1 == b2),
    ensures
        bid_key_lt(a1, b1, a2, b2) || bid_key_lt(a2, b2, a1, b1),
{
    if a1 == a2 {
        lemma_str_lt_total(b1, b2);
    }
}

/// In a sorted sequence, a key is present exactly where it would be inserted.
pub proof fn lemma_sorted_bid_lookup(s: Seq<BidEntry>, id: u64, bidder: Seq<char>)
    requires
        bids_sorted(s),
    ensures
        ({
            let p = bid_insert_pos(s, id, bidder);
            if p < s.len() && s[p].auction_id == id && s[p].bid.bidder@ == bidder {
                bid_index(s, id, bidder) == p
            } else {
                bid_index(s, id, bidder) == -1
            }
        }),
        forall|j: int|
            bid_insert_pos(s, id, bidder) <= j < s.len() && !(s[j].auction_id == id
                && s[j].bid.bidder@ == bidder) ==> bid_key_lt(
                id,
                bidder,
                (#[trigger] s[j]).auction_id,
                s[j].bid.bidder@,
            ),
{
    let p = bid_insert_pos(s, id, bidder);
    lemma_bid_insert_pos(s, id, bidder);
    lemma_bid_index(s, id, bidder);
    assert forall|j: int|
        p <= j < s.len() && !(s[j].auction_id == id && s[j].bid.bidder@ == bidder) implies bid_key_lt(
        id,
        bidder,
        (#[trigger] s[j]).auction_id,
        s[j].bid.bidder@,
    ) by {
        if s[p].auction_id == id && s[p].bid.bidder@ == bidder {
            assert(entry_lt(s[p], s[j]));
        } else {
            lemma_bid_key_lt_total(s[p].auction_id, s[p].bid.bidder@, id, bidder);
            if j > p {
                assert(entry_lt(s[p], s[j]));
                lemma_bid_key_lt_trans(
                    id,
                    bidder,
                    s[p].auction_id,
                    s[p].bid.bidder@,
                    s[j].auction_id,
                    s[j].bid.bidder@,
                );
            }
        }
    }
    let r = bid_index(s, id, bidder);
    if r >= 0 {
        if r < p {
            lemma_bid_key_lt_asym(s[r].auction_id, s[r].bid.bidder@, id, bidder);
        } else if r > p {
            if s[p].auction_id == id && s[p].bid.bidder@ == bidder {
            } else {
                lemma_bid_key_lt_asym(id, bidder, s[r].auction_id, s[r].bid.bidder@);
            }
        }
    }
}

/// In a sorted sequence of strings, a string is present exactly where it would be inserted.
pub proof fn lemma_sorted_str_lookup(s: Seq<String>, t: Seq<char>)
    requires
        strs_sorted(s),
    ensures
        ({
            let p = str_insert_pos(s, t);
            has_str(s, t) <==> (p < s.len() && s[p]@ == t)
        }),
        forall|j: int|
            str_insert_pos(s, t) <= j < s.len() && (#[trigger] s[j])@ != t ==> str_lt(t, s[j]@),
{
    let p = str_insert_pos(s, t);
    lemma_str_insert_pos(s, t);
    assert forall|j: int| p <= j < s.len() && (#[trigger] s[j])@ != t implies str_lt(t, s[j]@) by {
        if s[p]@ == t {
            assert(str_lt(s[p]@, s[j]@));
        } else {
            lemma_str_lt_total(s[p]@, t);
            if j > p {
                assert(str_lt(s[p]@, s[j]@));
                lemma_str_lt_trans(t, s[p]@, s[j]@);
            }
        }
    }
    if has_str(s, t) {
        let r = choose|i: int| 0 <= i < s.len() && (#[trigger] s[i])@ == t;
        if r < p {
            lemma_str_lt_asym(s[r]@, t);
        } else if r > p && s[p]@ != t {
            lemma_str_lt_asym(t, s[r]@);
        }
    }
}

/// Where key `(id, bidder)` is or would go, and whether it is there.
pub fn bid_position(bids: &Vec<BidEntry>, id: u64, bidder: &String) -> (r: (usize, bool))
    requires
        bids_sorted(bids@),
    ensures
        r.0 == bid_insert_pos(bids@, id, bidder@),
        r.1 == (bid_index(bids@, id, bidder@) >= 0),
        r.1 ==> bid_index(bids@, id, bidder@) == r.0 && r.0 < bids@.len(),
        r.0 <= bids@.len(),
{
    proof {
        lemma_sorted_bid_lookup(bids@, id, bidder@);
    }
    let mut i: usize = 0;
    assert(bids@.skip(0) =~= bids@);
    while i < bids.len() && (bids[i].auction_id < id || (bids[i].auction_id == id && str_less(
        bids[i].bid.bidder.as_str(),
        bidder.as_str(),
    )))
        invariant
            i <= bids@.len(),
            bid_insert_pos(bids@, id, bidder@) == i + bid_insert_pos(bids@.skip(i as int), id, bidder@),
        decreases bids@.len() - i,
    {
        assert(bids@.skip(i as int)[0] == bids@[i as int]);
        assert(bids@.skip(i as int).drop_first() =~= bids@.skip(i + 1));
        i = i + 1;
    }
    if i < bids.len() {
        assert(bids@.skip(i as int)[0] == bids@[i as int]);
    }
    let found = i < bids.len() && bids[i].auction_id == id && bids[i].bid.bidder == *bidder;
    (i, found)
}

/// Where string `t` is or would go in the sorted `pool`, and whether it is there.
pub fn str_position(pool: &Vec<String>, t: &String) -> (r: (usize, bool))
    requires
        strs_sorted(pool@),
    ensures
        r.0 == str_insert_pos(pool@, t@),
        r.1 == has_str(pool@, t@),
        r.1 ==> r.0 < pool@.len() && pool@[r.0 as int]@ == t@,
        r.0 <= pool@.len(),
{
    proof {
        lemma_sorted_str_lookup(pool@, t@);
    }
    let mut i: usize = 0;
    assert(pool@.skip(0) =~= pool@);
    while i < pool.len() && str_less(pool[i].as_str(), t.as_str())
        invariant
            i <= pool@.len(),
            str_insert_pos(pool@, t@) == i + str_insert_pos(pool@.skip(i as int), t@),
        decreases pool@.len() - i,
    {
        assert(pool@.skip(i as int)[0] == pool@[i as int]);
        assert(pool@.skip(i as int).drop_first() =~= pool@.skip(i + 1));
        i = i + 1;
    }
    if i < pool.len() {
        assert(pool@.skip(i as int)[0] == pool@[i as int]);
    }
    let found = i < pool.len() && pool[i] == *t;
    (i, found)
}

} // verus!

verus! {

/// `s` without its entry for token `t`.
pub open spec fn locks_without(s: Seq<TokenLock>, t: Seq<char>) -> Seq<TokenLock> {
    if lock_index(s, t) >= 0 {
        s.remove(lock_index(s, t))
    } else {
        s
    }
}

/// Removes the entry of token `t`, if there is one.
pub fn remove_lock(locks: &mut Vec<TokenLock>, t: &String)
    requires
        locks_unique(old(locks)@),
    ensures
        final(locks)@ == locks_without(old(locks)@, t@),
        locks_unique(final(locks)@),
{
    proof {
        lemma_lock_index(locks@, t@);
    }
    match find_lock(locks, t) {
        Some(i) => {
            locks.remove(i);
            proof {
                lemma_locks_unique_remove(old(locks)@, i as int);
            }
        },
        None => {},
    }
}

pub proof fn lemma_locks_unique_remove(s: Seq<TokenLock>, i: int)
    requires
        locks_unique(s),
        0 <= i < s.len(),
    ensures
        locks_unique(s.remove(i)),
{
    let r = s.remove(i);
    assert forall|a: int, b: int|
        0 <= a < r.len() && 0 <= b < r.len() && a != b implies (#[trigger] r[a]).token_id@
        != (#[trigger] r[b]).token_id@ by {
        let a0 = if a < i { a } else { a + 1 };
        let b0 = if b < i { b } else { b + 1 };
        assert(r[a] == s[a0]);
        assert(r[b] == s[b0]);
    }
}

pub proof fn lemma_staging_unique_remove(s: Seq<StagedTokens>, i: int)
    requires
        staging_unique(s),
        0 <= i < s.len(),
    ensures
        staging_unique(s.remove(i)),
{
    let r = s.remove(i);
    assert forall|a: int, b: int|
        0 <= a < r.len() && 0 <= b < r.len() && a != b implies (#[trigger] r[a]).owner@
        != (#[trigger] r[b]).owner@ by {
        let a0 = if a < i { a } else { a + 1 };
        let b0 = if b < i { b } else { b + 1 };
        assert(r[a] == s[a0]);
        assert(r[b] == s[b0]);
    }
}

} // verus!

verus! {

/// The pool after `t` is put in it: unchanged if `t` is there already,
/// otherwise `t` goes to its sorted position.
pub open spec fn pool_with(pool: Seq<String>, t: String) -> Seq<String> {
    if has_str(pool, t@) {
        pool
    } else {
        pool.insert(str_insert_pos(pool, t@), t)
    }
}

/// The pool after each of `tokens` is put in it, in order.
pub open spec fn pool_with_all(pool: Seq<String>, tokens: Seq<String>) -> Seq<String>
    decreases tokens.len(),
{
    if tokens.len() == 0 {
        pool
    } else {
        pool_with(pool_with_all(pool, tokens.drop_last()), tokens.last())
    }
}

/// `locks` without the entries of any of `tokens`.
pub open spec fn locks_without_all(locks: Seq<TokenLock>, tokens: Seq<String>) -> Seq<TokenLock>
    decreases tokens.len(),
{
    if tokens.len() == 0 {
        locks
    } else {
        locks_without(locks_without_all(locks, tokens.drop_last()), tokens.last()@)
    }
}

pub proof fn lemma_strs_sorted_insert(s: Seq<String>, t: String)
    requires
        strs_sorted(s),
        !has_str(s, t@),
    ensures
        strs_sorted(s.insert(str_insert_pos(s, t@), t)),
{
    let p = str_insert_pos(s, t@);
    lemma_sorted_str_lookup(s, t@);
    lemma_str_insert_pos(s, t@);
    let r = s.insert(p, t);
    assert forall|i: int, j: int| 0 <= i < j < r.len() implies str_lt(
        (#[trigger] r[i])@,
        (#[trigger] r[j])@,
    ) by {
        if j < p {
            assert(r[i] == s[i] && r[j] == s[j]);
        } else if j == p {
            assert(r[i] == s[i]);
        } else if i < p {
            assert(r[i] == s[i] && r[j] == s[j - 1]);
            assert(s[j - 1]@ != t@);
            lemma_str_lt_trans(s[i]@, t@, s[j - 1]@);
        } else if i == p {
            assert(r[j] == s[j - 1]);
            assert(s[j - 1]@ != t@);
        } else {
            assert(r[i] == s[i - 1] && r[j] == s[j - 1]);
        }
    }
}

/// Puts `t` in the sorted pool.
pub fn pool_insert(pool: &mut Vec<String>, t: &String)
    requires
        strs_sorted(old(pool)@),
    ensures
        final(pool)@ == pool_with(old(pool)@, *t),
        strs_sorted(final(pool)@),
{
    let (p, found) = str_position(pool, t);
    if !found {
        proof {
            lemma_strs_sorted_insert(pool@, *t);
        }
        pool.insert(p, t.clone());
    }
}

/// Puts each of `tokens` in the sorted pool.
pub fn pool_insert_all(pool: &mut Vec<String>, tokens: &Vec<String>)
    requires
        strs_sorted(old(pool)@),
    ensures
        final(pool)@ == pool_with_all(old(pool)@, tokens@),
        strs_sorted(final(pool)@),
{
    let mut i: usize = 0;
    assert(tokens@.take(0) =~= Seq::<String>::empty());
    while i < tokens.len()
        invariant
            i <= tokens@.len(),
            pool@ == pool_with_all(old(pool)@, tokens@.take(i as int)),
            strs_sorted(pool@),
        decreases tokens@.len() - i,
    {
        pool_insert(pool, &tokens[i]);
        assert(tokens@.take(i + 1).drop_last() =~= tokens@.take(i as int));
        i = i + 1;
    }
    assert(tokens@.take(tokens@.len() as int) =~= tokens@);
}

/// Removes the entries of each of `tokens`.
pub fn remove_locks_of(locks: &mut Vec<TokenLock>, tokens: &Vec<String>)
    requires
        locks_unique(old(locks)@),
    ensures
        final(locks)@ == locks_without_all(old(locks)@, tokens@),
        locks_unique(final(locks)@),
{
    let mut i: usize = 0;
    assert(tokens@.take(0) =~= Seq::<String>::empty());
    while i < tokens.len()
        invariant
            i <= tokens@.len(),
            locks@ == locks_without_all(old(locks)@, tokens@.take(i as int)),
            locks_unique(locks@),
        decreases tokens@.len() - i,
    {
        remove_lock(locks, &tokens[i]);
        assert(tokens@.take(i + 1).drop_last() =~= tokens@.take(i as int));
        i = i + 1;
    }
    assert(tokens@.take(tokens@.len() as int) =~= tokens@);
}

pub proof fn lemma_bids_sorted_remove(s: Seq<BidEntry>, i: int)
    requires
        bids_sorted(s),
        0 <= i < s.len(),
    ensures
        bids_sorted(s.remove(i)),
{
    let r = s.remove(i);
    assert forall|a: int, b: int| 0 <= a < b < r.len() implies entry_lt(
        #[trigger] r[a],
        #[trigger] r[b],
    ) by {
        let a0 = if a < i { a } else { a + 1 };
        let b0 = if b < i { b } else { b + 1 };
        assert(r[a] == s[a0] && r[b] == s[b0]);
    }
}

pub proof fn lemma_strs_sorted_remove(s: Seq<String>, i: int)
    requires
        strs_sorted(s),
        0 <= i < s.len(),
    ensures
        strs_sorted(s.remove(i)),
{
    let r = s.remove(i);
    assert forall|a: int, b: int| 0 <= a < b < r.len() implies str_lt(
        (#[trigger] r[a])@,
        (#[trigger] r[b])@,
    ) by {
        let a0 = if a < i { a } else { a + 1 };
        let b0 = if b < i { b } else { b + 1 };
        assert(r[a] == s[a0] && r[b] == s[b0]);
    }
}

} // verus!
