//! The tokens the contract holds: in the swap pool, staged for a swap, or
//! escrowed in a bid. Each is held in one place only.
use vstd::prelude::*;

use crate::auction::bids_after_bid;
use crate::collections::{pool_with_all};
use crate::invariants::{
    back_index, bid_target, lemma_after_bid_shape, lemma_pool_with_all,
    lemma_pool_without_all, pos_ok, strs_distinct, token_at,
};
use crate::state::{bid_index, has_str, lemma_bid_index, strs_sorted, BidEntry, StagedTokens};
use crate::swap::pool_without_all;

verus! {

/// `(i, k)` designates the `k`-th token of the `i`-th staging area.
pub open spec fn staged_ok(st: Seq<StagedTokens>, i: int, k: int) -> bool {
    0 <= i < st.len() && 0 <= k < st[i].token_ids@.len()
}

/// The `k`-th token of the `i`-th staging area.
pub open spec fn staged_at(st: Seq<StagedTokens>, i: int, k: int) -> Seq<char> {
    st[i].token_ids@[k]@
}

/// Staged tokens occur once among all staging areas, and no held token is
/// both in the pool and staged or escrowed, or both staged and escrowed.
pub open spec fn holdings_ok(pool: Seq<String>, st: Seq<StagedTokens>, bids: Seq<BidEntry>) -> bool {
    &&& forall|i1: int, k1: int, i2: int, k2: int|
        staged_ok(st, i1, k1) && staged_ok(st, i2, k2) && (i1 != i2 || k1 != k2) ==> #[trigger] staged_at(
            st,
            i1,
            k1,
        ) != #[trigger] staged_at(st, i2, k2)
    &&& forall|i: int, k: int| staged_ok(st, i, k) ==> !has_str(pool, #[trigger] staged_at(st, i, k))
    &&& forall|j: int, k: int| pos_ok(bids, j, k) ==> !has_str(pool, #[trigger] token_at(bids, j, k))
    &&& forall|i: int, k: int, j: int, k2: int|
        staged_ok(st, i, k) && pos_ok(bids, j, k2) ==> #[trigger] staged_at(st, i, k) != #[trigger] token_at(
            bids,
            j,
            k2,
        )
}

/// Whether token `t` is staged by anyone.
pub open spec fn is_staged(st: Seq<StagedTokens>, t: Seq<char>) -> bool {
    exists|i: int, k: int| staged_ok(st, i, k) && #[trigger] staged_at(st, i, k) == t
}

/// Whether token `t` is escrowed in any bid.
pub open spec fn is_escrowed(bids: Seq<BidEntry>, t: Seq<char>) -> bool {
    exists|j: int, k: int| pos_ok(bids, j, k) && #[trigger] token_at(bids, j, k) == t
}

/// No token occurs twice among all bids.
pub open spec fn bid_tokens_distinct(bids: Seq<BidEntry>) -> bool {
    forall|j1: int, k1: int, j2: int, k2: int|
        pos_ok(bids, j1, k1) && pos_ok(bids, j2, k2) && (j1 != j2 || k1 != k2) ==> #[trigger] token_at(
            bids,
            j1,
            k1,
        ) != #[trigger] token_at(bids, j2, k2)
}

/// A bid escrowing a token the contract does not hold keeps holdings apart.
pub proof fn lemma_holdings_after_bid(
    pool: Seq<String>,
    st: Seq<StagedTokens>,
    ob: Seq<BidEntry>,
    nb: Seq<BidEntry>,
    id: u64,
    who: Seq<char>,
    tokens: Seq<String>,
    ts: u64,
    token: String,
)
    requires
        holdings_ok(pool, st, ob),
        bids_after_bid(ob, nb, id, who, tokens, ts),
        tokens == (if bid_index(ob, id, who) >= 0 {
            ob[bid_index(ob, id, who)].bid.token_ids@
        } else {
            Seq::<String>::empty()
        }).push(token),
        !has_str(pool, token@),
        !is_staged(st, token@),
    ensures
        holdings_ok(pool, st, nb),
{
    let bi = bid_index(ob, id, who);
    let tgt = bid_target(ob, id, who);
    let last = tokens.len() - 1;
    lemma_bid_index(ob, id, who);
    lemma_after_bid_shape(ob, nb, id, who, tokens, ts);
    assert forall|j: int, k: int| pos_ok(nb, j, k) && !(j == tgt && k == last) implies ({
        let oj = if j == tgt {
            bi
        } else {
            back_index(ob, id, who, j)
        };
        pos_ok(ob, oj, k) && token_at(ob, oj, k) == token_at(nb, j, k)
    }) by {
        if j == tgt {
            assert(tokens[k] == ob[bi].bid.token_ids@[k]);
        }
    }
    assert forall|j: int, k: int| pos_ok(nb, j, k) implies !has_str(pool, #[trigger] token_at(nb, j, k)) by {
        if !(j == tgt && k == last) {
            let oj = if j == tgt {
                bi
            } else {
                back_index(ob, id, who, j)
            };
            assert(!has_str(pool, token_at(ob, oj, k)));
        }
    }
    assert forall|i: int, k: int, j: int, k2: int|
        staged_ok(st, i, k) && pos_ok(nb, j, k2) implies #[trigger] staged_at(st, i, k) != #[trigger] token_at(
        nb,
        j,
        k2,
    ) by {
        if !(j == tgt && k2 == last) {
            let oj = if j == tgt {
                bi
            } else {
                back_index(ob, id, who, j)
            };
            assert(staged_at(st, i, k) != token_at(ob, oj, k2));
        } else if staged_at(st, i, k) == token@ {
            assert(is_staged(st, token@));
        }
    }
}

/// Staging a token the contract does not hold, in the area of `si` or in a
/// new area, keeps holdings apart.
pub proof fn lemma_holdings_after_stage(
    pool: Seq<String>,
    ost: Seq<StagedTokens>,
    nst: Seq<StagedTokens>,
    bids: Seq<BidEntry>,
    si: int,
    token: String,
)
    requires
        holdings_ok(pool, ost, bids),
        !has_str(pool, token@),
        !is_staged(ost, token@),
        !is_escrowed(bids, token@),
        nst.len() == ost.len() + if si >= 0 {
            0int
        } else {
            1int
        },
        si >= 0 ==> si < ost.len() && nst[si].token_ids@ == ost[si].token_ids@.push(token),
        si < 0 ==> nst.last().token_ids@ == seq![token],
        forall|i: int| 0 <= i < ost.len() && i != si ==> #[trigger] nst[i] == ost[i],
    ensures
        holdings_ok(pool, nst, bids),
{
    let ti = if si >= 0 {
        si
    } else {
        ost.len() as int
    };
    let last = nst[ti].token_ids@.len() - 1;
    // Each new position other than the new token is an old one.
    assert forall|i: int, k: int| staged_ok(nst, i, k) && !(i == ti && k == last) implies staged_ok(
        ost,
        i,
        k,
    ) && staged_at(ost, i, k) == staged_at(nst, i, k) by {
        if i == ti {
            assert(nst[si].token_ids@[k] == ost[si].token_ids@[k]);
        } else {
            assert(nst[i] == ost[i]);
        }
    }
    assert(staged_at(nst, ti, last) == token@) by {
        if si < 0 {
            assert(nst[ti] == nst.last());
        }
    }
    assert forall|i1: int, k1: int, i2: int, k2: int|
        staged_ok(nst, i1, k1) && staged_ok(nst, i2, k2) && (i1 != i2 || k1 != k2) implies #[trigger] staged_at(
        nst,
        i1,
        k1,
    ) != #[trigger] staged_at(nst, i2, k2) by {
        if i1 == ti && k1 == last {
            if staged_at(nst, i2, k2) == token@ {
                assert(is_staged(ost, token@));
            }
        } else if i2 == ti && k2 == last {
            if staged_at(nst, i1, k1) == token@ {
                assert(is_staged(ost, token@));
            }
        } else {
            assert(staged_at(ost, i1, k1) != staged_at(ost, i2, k2));
        }
    }
    assert forall|i: int, k: int| staged_ok(nst, i, k) implies !has_str(pool, #[trigger] staged_at(nst, i, k)) by {
        if !(i == ti && k == last) {
            assert(!has_str(pool, staged_at(ost, i, k)));
        }
    }
    assert forall|i: int, k: int, j: int, k2: int|
        staged_ok(nst, i, k) && pos_ok(bids, j, k2) implies #[trigger] staged_at(nst, i, k) != #[trigger] token_at(
        bids,
        j,
        k2,
    ) by {
        if !(i == ti && k == last) {
            assert(staged_at(ost, i, k) != token_at(bids, j, k2));
        } else if token_at(bids, j, k2) == token@ {
            assert(is_escrowed(bids, token@));
        }
    }
}

/// Taking a bid entry out keeps holdings apart.
pub proof fn lemma_holdings_after_unbid(pool: Seq<String>, st: Seq<StagedTokens>, ob: Seq<BidEntry>, wi: int)
    requires
        holdings_ok(pool, st, ob),
        0 <= wi < ob.len(),
    ensures
        holdings_ok(pool, st, ob.remove(wi)),
{
    let nb = ob.remove(wi);
    assert forall|j: int, k: int| pos_ok(nb, j, k) implies pos_ok(ob, if j < wi {
        j
    } else {
        j + 1
    }, k) && token_at(nb, j, k) == token_at(ob, if j < wi {
        j
    } else {
        j + 1
    }, k) by {
        let j0 = if j < wi {
            j
        } else {
            j + 1
        };
        assert(nb[j] == ob[j0]);
    }
    assert forall|j: int, k: int| pos_ok(nb, j, k) implies !has_str(pool, #[trigger] token_at(nb, j, k)) by {
        let j0 = if j < wi {
            j
        } else {
            j + 1
        };
        assert(!has_str(pool, token_at(ob, j0, k)));
    }
    assert forall|i: int, k: int, j: int, k2: int|
        staged_ok(st, i, k) && pos_ok(nb, j, k2) implies #[trigger] staged_at(st, i, k) != #[trigger] token_at(
        nb,
        j,
        k2,
    ) by {
        let j0 = if j < wi {
            j
        } else {
            j + 1
        };
        assert(staged_at(st, i, k) != token_at(ob, j0, k2));
    }
}

/// The winning entry's tokens go from escrow into the pool: holdings stay
/// apart and the pool grows by their number.
pub proof fn lemma_holdings_after_win(pool: Seq<String>, st: Seq<StagedTokens>, ob: Seq<BidEntry>, wi: int)
    requires
        holdings_ok(pool, st, ob),
        bid_tokens_distinct(ob),
        strs_sorted(pool),
        0 <= wi < ob.len(),
    ensures
        holdings_ok(pool_with_all(pool, ob[wi].bid.token_ids@), st, ob.remove(wi)),
        pool_with_all(pool, ob[wi].bid.token_ids@).len() == pool.len() + ob[wi].bid.token_ids@.len(),
{
    let won = ob[wi].bid.token_ids@;
    let np = pool_with_all(pool, won);
    let nb = ob.remove(wi);
    lemma_holdings_after_unbid(pool, st, ob, wi);
    lemma_pool_with_all(pool, won);
    assert forall|i: int, j: int| 0 <= i < won.len() && 0 <= j < won.len() && i != j implies (#[trigger] won[i])@
        != (#[trigger] won[j])@ by {
        assert(token_at(ob, wi, i) != token_at(ob, wi, j));
    }
    assert forall|i: int| 0 <= i < won.len() implies !has_str(pool, #[trigger] won[i]@) by {
        assert(!has_str(pool, token_at(ob, wi, i)));
    }
    // A token held elsewhere is none of the won ones.
    assert forall|i: int, k: int| staged_ok(st, i, k) implies !has_str(np, #[trigger] staged_at(st, i, k)) by {
        if has_str(won, staged_at(st, i, k)) {
            let m = choose|m: int| 0 <= m < won.len() && (#[trigger] won[m])@ == staged_at(st, i, k);
            assert(staged_at(st, i, k) != token_at(ob, wi, m));
        }
    }
    assert forall|j: int, k: int| pos_ok(nb, j, k) implies !has_str(np, #[trigger] token_at(nb, j, k)) by {
        let j0 = if j < wi {
            j
        } else {
            j + 1
        };
        assert(nb[j] == ob[j0]);
        assert(token_at(nb, j, k) == token_at(ob, j0, k));
        if has_str(won, token_at(nb, j, k)) {
            let m = choose|m: int| 0 <= m < won.len() && (#[trigger] won[m])@ == token_at(nb, j, k);
            assert(token_at(ob, j0, k) != token_at(ob, wi, m));
        }
    }
}

/// Taking a staging area out keeps holdings apart.
pub proof fn lemma_holdings_after_unstage(pool: Seq<String>, ost: Seq<StagedTokens>, bids: Seq<BidEntry>, si: int)
    requires
        holdings_ok(pool, ost, bids),
        0 <= si < ost.len(),
    ensures
        holdings_ok(pool, ost.remove(si), bids),
{
    let nst = ost.remove(si);
    assert forall|i: int, k: int| staged_ok(nst, i, k) implies staged_ok(ost, if i < si {
        i
    } else {
        i + 1
    }, k) && staged_at(nst, i, k) == staged_at(ost, if i < si {
        i
    } else {
        i + 1
    }, k) by {
        let i0 = if i < si {
            i
        } else {
            i + 1
        };
        assert(nst[i] == ost[i0]);
    }
    assert forall|i1: int, k1: int, i2: int, k2: int|
        staged_ok(nst, i1, k1) && staged_ok(nst, i2, k2) && (i1 != i2 || k1 != k2) implies #[trigger] staged_at(
        nst,
        i1,
        k1,
    ) != #[trigger] staged_at(nst, i2, k2) by {
        let a = if i1 < si {
            i1
        } else {
            i1 + 1
        };
        let b = if i2 < si {
            i2
        } else {
            i2 + 1
        };
        assert(staged_at(ost, a, k1) != staged_at(ost, b, k2));
    }
    assert forall|i: int, k: int| staged_ok(nst, i, k) implies !has_str(pool, #[trigger] staged_at(nst, i, k)) by {
        let a = if i < si {
            i
        } else {
            i + 1
        };
        assert(!has_str(pool, staged_at(ost, a, k)));
    }
    assert forall|i: int, k: int, j: int, k2: int|
        staged_ok(nst, i, k) && pos_ok(bids, j, k2) implies #[trigger] staged_at(nst, i, k) != #[trigger] token_at(
        bids,
        j,
        k2,
    ) by {
        let a = if i < si {
            i
        } else {
            i + 1
        };
        assert(staged_at(ost, a, k) != token_at(bids, j, k2));
    }
}

/// A swap: the staged tokens of area `si` go into the pool and the distinct
/// `requested` pool tokens, as many, leave it. Holdings stay apart and the
/// pool keeps its size.
pub proof fn lemma_holdings_after_claim(
    pool: Seq<String>,
    ost: Seq<StagedTokens>,
    bids: Seq<BidEntry>,
    si: int,
    requested: Seq<String>,
)
    requires
        holdings_ok(pool, ost, bids),
        strs_sorted(pool),
        0 <= si < ost.len(),
        strs_distinct(requested),
        forall|i: int| 0 <= i < requested.len() ==> has_str(pool, #[trigger] requested[i]@),
        requested.len() == ost[si].token_ids@.len(),
    ensures
        holdings_ok(
            pool_without_all(pool_with_all(pool, ost[si].token_ids@), requested),
            ost.remove(si),
            bids,
        ),
        pool_without_all(pool_with_all(pool, ost[si].token_ids@), requested).len() == pool.len(),
{
    let offered = ost[si].token_ids@;
    let mid = pool_with_all(pool, offered);
    let np = pool_without_all(mid, requested);
    let nst = ost.remove(si);
    lemma_holdings_after_unstage(pool, ost, bids, si);
    lemma_pool_with_all(pool, offered);
    assert forall|i: int, j: int| 0 <= i < offered.len() && 0 <= j < offered.len() && i != j implies (#[trigger] offered[i])@
        != (#[trigger] offered[j])@ by {
        assert(staged_at(ost, si, i) != staged_at(ost, si, j));
    }
    assert forall|i: int| 0 <= i < offered.len() implies !has_str(pool, #[trigger] offered[i]@) by {
        assert(!has_str(pool, staged_at(ost, si, i)));
    }
    lemma_pool_without_all(mid, requested);
    assert forall|i: int| 0 <= i < requested.len() implies has_str(mid, #[trigger] requested[i]@) by {
        assert(has_str(pool, requested[i]@));
    }
    assert forall|i: int, k: int| staged_ok(nst, i, k) implies !has_str(np, #[trigger] staged_at(nst, i, k)) by {
        let a = if i < si {
            i
        } else {
            i + 1
        };
        assert(nst[i] == ost[a]);
        assert(staged_at(nst, i, k) == staged_at(ost, a, k));
        assert(!has_str(pool, staged_at(ost, a, k)));
        if has_str(offered, staged_at(nst, i, k)) {
            let m = choose|m: int| 0 <= m < offered.len() && (#[trigger] offered[m])@ == staged_at(nst, i, k);
            assert(staged_at(ost, a, k) != staged_at(ost, si, m));
        }
    }
    assert forall|j: int, k: int| pos_ok(bids, j, k) implies !has_str(np, #[trigger] token_at(bids, j, k)) by {
        assert(!has_str(pool, token_at(bids, j, k)));
        if has_str(offered, token_at(bids, j, k)) {
            let m = choose|m: int| 0 <= m < offered.len() && (#[trigger] offered[m])@ == token_at(bids, j, k);
            assert(staged_at(ost, si, m) != token_at(bids, j, k));
        }
    }
}

} // verus!
