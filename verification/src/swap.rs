//! Swap messages: staging tokens, claiming pool tokens 1:1, and withdrawing
//! staged tokens.
use vstd::prelude::*;
use vstd::string::*;

use crate::auction::strs_contain;
use crate::collections::{
    find_staging, lemma_staging_unique_remove, lemma_strs_sorted_remove, pool_insert_all,
    pool_with_all, str_position,
};
use crate::env::{attr, attr_str, decimal, transfer, transfer_view, u64_to_string, MessageInfo, NftTransfer, Response};
use crate::error::ContractError;
use crate::state::{
    has_str, lemma_staging_index, seq_view, staging_index, staging_unique, str_insert_pos,
    strs_sorted, StagedTokens, State,
};

verus! {

/// The tokens `owner` has staged.
pub open spec fn staged_of(s: State, owner: Seq<char>) -> Seq<String> {
    if staging_index(s.swap_staging@, owner) >= 0 {
        s.swap_staging@[staging_index(s.swap_staging@, owner)].token_ids@
    } else {
        Seq::empty()
    }
}

pub proof fn lemma_staging_unique_push(s: Seq<StagedTokens>, e: StagedTokens)
    requires
        staging_unique(s),
        staging_index(s, e.owner@) == -1,
    ensures
        staging_unique(s.push(e)),
{
    lemma_staging_index(s, e.owner@);
    let r = s.push(e);
    assert forall|a: int, b: int|
        0 <= a < r.len() && 0 <= b < r.len() && a != b implies (#[trigger] r[a]).owner@
        != (#[trigger] r[b]).owner@ by {
        if a < s.len() && b < s.len() {
            assert(r[a] == s[a] && r[b] == s[b]);
        } else if a < s.len() {
            assert(r[a] == s[a]);
        } else {
            assert(r[b] == s[b]);
        }
    }
}

pub open spec fn swap_deposit_post(old: State, new: State, sender: String, token_id: String, r: Result<Response, ContractError>) -> bool {
    &&& (r is Err ==> new == old)
    &&& (staged_of(old, sender@).len() >= old.config.max_staging_size ==> r == Err::<Response, ContractError>(ContractError::StagingLimitReached { max: old.config.max_staging_size }))
    &&& (staged_of(old, sender@).len() < old.config.max_staging_size && has_str(
            staged_of(old, sender@),
            token_id@,
        ) ==> r == Err::<Response, ContractError>(ContractError::DuplicateTokenId { token_id }))
    &&& (staged_of(old, sender@).len() < old.config.max_staging_size && !has_str(
            staged_of(old, sender@),
            token_id@,
        ) ==> {
            let si = staging_index(old.swap_staging@, sender@);
            let tokens = staged_of(old, sender@).push(token_id);
            &&& new == (State { swap_staging: new.swap_staging, ..old })
            &&& if si >= 0 {
                &&& new.swap_staging@.len() == old.swap_staging@.len()
                &&& forall|j: int|
                    0 <= j < old.swap_staging@.len() && j != si ==> new.swap_staging@[j]
                        == old.swap_staging@[j]
                &&& new.swap_staging@[si].owner == old.swap_staging@[si].owner
                &&& new.swap_staging@[si].token_ids@ == tokens
            } else {
                &&& new.swap_staging@.drop_last() == old.swap_staging@
                &&& new.swap_staging@.len() == old.swap_staging@.len() + 1
                &&& new.swap_staging@.last().owner == sender
                &&& new.swap_staging@.last().token_ids@ == tokens
            }
            &&& r matches Ok(res) && res.messages@.len() == 0 && res.attrs() == seq![
                ("action"@, "swap_deposit"@),
                ("sender"@, sender@),
                ("token_id"@, token_id@),
                ("total_staged"@, decimal(tokens.len())),
            ]
        })
}

/// Stages one more token of `sender` for a swap.
pub fn execute_swap_deposit(s: &mut State, sender: String, token_id: String) -> (r: Result<
    Response,
    ContractError,
>)
    requires
        old(s).wf(),
    ensures
        final(s).wf(),
        swap_deposit_post(*old(s), *final(s), sender, token_id, r),
{
    let found = find_staging(&s.swap_staging, &sender);
    let staged_len: u64 = match found {
        Some(i) => s.swap_staging[i].token_ids.len() as u64,
        None => 0,
    };
    if staged_len >= s.config.max_staging_size {
        return Err(ContractError::StagingLimitReached { max: s.config.max_staging_size });
    }
    let dup = match found {
        Some(i) => strs_contain(&s.swap_staging[i].token_ids, &token_id),
        None => false,
    };
    if dup {
        return Err(ContractError::DuplicateTokenId { token_id });
    }
    let ghost tokens = staged_of(*old(s), sender@).push(token_id);
    match found {
        Some(i) => {
            s.swap_staging[i].token_ids.push(token_id.clone());
            proof {
                assert(s.swap_staging@[i as int].token_ids@ =~= tokens);
                assert forall|a: int, b: int|
                    0 <= a < s.swap_staging@.len() && 0 <= b < s.swap_staging@.len() && a
                        != b implies (#[trigger] s.swap_staging@[a]).owner@
                    != (#[trigger] s.swap_staging@[b]).owner@ by {
                    assert(old(s).swap_staging@[a].owner@ != old(s).swap_staging@[b].owner@);
                }
            }
        },
        None => {
            let mut token_ids = Vec::new();
            token_ids.push(token_id.clone());
            let entry = StagedTokens { owner: sender.clone(), token_ids };
            proof {
                lemma_staging_unique_push(s.swap_staging@, entry);
            }
            s.swap_staging.push(entry);
            assert(s.swap_staging@.last().token_ids@ =~= tokens);
            assert(s.swap_staging@.drop_last() =~= old(s).swap_staging@);
        },
    }
    let total = staged_len + 1;
    let mut attributes = Vec::new();
    attributes.push(attr_str("action", "swap_deposit"));
    attributes.push(attr("sender", sender));
    attributes.push(attr("token_id", token_id));
    attributes.push(attr("total_staged", u64_to_string(total)));
    let res = Response { messages: Vec::new(), attributes };
    assert(res.attrs() =~= seq![
        ("action"@, "swap_deposit"@),
        ("sender"@, sender@),
        ("token_id"@, token_id@),
        ("total_staged"@, decimal(tokens.len())),
    ]);
    Ok(res)
}

pub open spec fn withdraw_staged_post(old: State, new: State, info: MessageInfo, r: Result<Response, ContractError>) -> bool {
    &&& (r is Err ==> new == old)
    &&& (staged_of(old, info.sender@).len() == 0 ==> r == Err::<Response, ContractError>(
            ContractError::NoStagedTokens {},
        ))
    &&& (staged_of(old, info.sender@).len() > 0 ==> {
            let si = staging_index(old.swap_staging@, info.sender@);
            let tokens = staged_of(old, info.sender@);
            let coll = old.config.mad_scientist_collection@;
            &&& new == (State { swap_staging: new.swap_staging, ..old })
            &&& new.swap_staging@ == old.swap_staging@.remove(si)
            &&& r matches Ok(res) && res.transfers().len() == tokens.len() && (forall|i: int|
                0 <= i < tokens.len() ==> #[trigger] res.transfers()[i] == (
                    coll,
                    info.sender@,
                    tokens[i]@,
                )) && res.attrs() == seq![
                ("action"@, "withdraw_staged"@),
                ("sender"@, info.sender@),
                ("nfts_returned"@, decimal(tokens.len())),
            ]
        })
}

/// Returns every token the sender has staged.
pub fn execute_withdraw_staged(s: &mut State, info: &MessageInfo) -> (r: Result<
    Response,
    ContractError,
>)
    requires
        old(s).wf(),
    ensures
        final(s).wf(),
        withdraw_staged_post(*old(s), *final(s), *info, r),
{
    let si = match find_staging(&s.swap_staging, &info.sender) {
        Some(si) => si,
        None => {
            return Err(ContractError::NoStagedTokens {});
        },
    };
    if s.swap_staging[si].token_ids.len() == 0 {
        return Err(ContractError::NoStagedTokens {});
    }
    let ghost tokens = staged_of(*old(s), info.sender@);
    let ghost coll = old(s).config.mad_scientist_collection@;
    proof {
        lemma_staging_unique_remove(s.swap_staging@, si as int);
    }
    let entry = s.swap_staging.remove(si);
    let staged = entry.token_ids;
    let messages = transfers_to(&s.config.mad_scientist_collection, &info.sender, &staged);
    let mut attributes = Vec::new();
    attributes.push(attr_str("action", "withdraw_staged"));
    attributes.push(attr("sender", info.sender.clone()));
    attributes.push(attr("nfts_returned", u64_to_string(staged.len() as u64)));
    let res = Response { messages, attributes };
    assert(res.attrs() =~= seq![
        ("action"@, "withdraw_staged"@),
        ("sender"@, info.sender@),
        ("nfts_returned"@, decimal(tokens.len())),
    ]);
    Ok(res)
}

/// Transfers of each of `tokens` in `collection` to `recipient`, in order.
pub fn transfers_to(collection: &String, recipient: &String, tokens: &Vec<String>) -> (r: Vec<
    NftTransfer,
>)
    ensures
        r@.len() == tokens@.len(),
        forall|i: int|
            0 <= i < tokens@.len() ==> #[trigger] transfer_view(r@[i]) == (
                collection@,
                recipient@,
                tokens@[i]@,
            ),
{
    let mut messages: Vec<NftTransfer> = Vec::new();
    let mut i: usize = 0;
    while i < tokens.len()
        invariant
            i <= tokens@.len(),
            messages@.len() == i,
            forall|j: int|
                0 <= j < i ==> #[trigger] transfer_view(messages@[j]) == (
                    collection@,
                    recipient@,
                    tokens@[j]@,
                ),
        decreases tokens@.len() - i,
    {
        messages.push(transfer(collection, recipient, &tokens[i]));
        i = i + 1;
    }
    messages
}

} // verus!

verus! {

/// Position of the first string of `s` that repeats an earlier one, or -1.
pub open spec fn first_repeat(s: Seq<String>) -> int
    decreases s.len(),
{
    if s.len() == 0 {
        -1
    } else if first_repeat(s.drop_last()) >= 0 {
        first_repeat(s.drop_last())
    } else if has_str(s.drop_last(), s.last()@) {
        s.len() - 1
    } else {
        -1
    }
}

/// Position of the first string of `s` that also occurs in `other`, or -1.
pub open spec fn first_shared(s: Seq<String>, other: Seq<String>) -> int
    decreases s.len(),
{
    if s.len() == 0 {
        -1
    } else if first_shared(s.drop_last(), other) >= 0 {
        first_shared(s.drop_last(), other)
    } else if has_str(other, s.last()@) {
        s.len() - 1
    } else {
        -1
    }
}

/// Position of the first string of `s` missing from `other`, or -1.
pub open spec fn first_missing(s: Seq<String>, other: Seq<String>) -> int
    decreases s.len(),
{
    if s.len() == 0 {
        -1
    } else if first_missing(s.drop_last(), other) >= 0 {
        first_missing(s.drop_last(), other)
    } else if !has_str(other, s.last()@) {
        s.len() - 1
    } else {
        -1
    }
}

proof fn lemma_first_repeat_prefix(s: Seq<String>, n: int)
    requires
        0 <= n <= s.len(),
        first_repeat(s.take(n)) >= 0,
    ensures
        first_repeat(s) == first_repeat(s.take(n)),
    decreases s.len(),
{
    if n == s.len() {
        assert(s.take(n) =~= s);
    } else {
        assert(s.drop_last().take(n) =~= s.take(n));
        lemma_first_repeat_prefix(s.drop_last(), n);
    }
}

proof fn lemma_first_shared_prefix(s: Seq<String>, other: Seq<String>, n: int)
    requires
        0 <= n <= s.len(),
        first_shared(s.take(n), other) >= 0,
    ensures
        first_shared(s, other) == first_shared(s.take(n), other),
    decreases s.len(),
{
    if n == s.len() {
        assert(s.take(n) =~= s);
    } else {
        assert(s.drop_last().take(n) =~= s.take(n));
        lemma_first_shared_prefix(s.drop_last(), other, n);
    }
}

proof fn lemma_first_missing_prefix(s: Seq<String>, other: Seq<String>, n: int)
    requires
        0 <= n <= s.len(),
        first_missing(s.take(n), other) >= 0,
    ensures
        first_missing(s, other) == first_missing(s.take(n), other),
    decreases s.len(),
{
    if n == s.len() {
        assert(s.take(n) =~= s);
    } else {
        assert(s.drop_last().take(n) =~= s.take(n));
        lemma_first_missing_prefix(s.drop_last(), other, n);
    }
}

/// Whether `t` occurs among the first `n` strings of `v`.
fn contains_before(v: &Vec<String>, n: usize, t: &String) -> (r: bool)
    requires
        n <= v@.len(),
    ensures
        r == has_str(v@.take(n as int), t@),
{
    let mut i: usize = 0;
    while i < n
        invariant
            i <= n <= v@.len(),
            forall|j: int| 0 <= j < i ==> (#[trigger] v@[j])@ != t@,
        decreases n - i,
    {
        if v[i] == *t {
            assert(v@.take(n as int)[i as int] == v@[i as int]);
            return true;
        }
        i = i + 1;
    }
    assert forall|j: int| 0 <= j < n implies (#[trigger] v@.take(n as int)[j])@ != t@ by {
        assert(v@.take(n as int)[j] == v@[j]);
    }
    false
}

/// Position of the first repeated request, if any.
fn find_repeat(v: &Vec<String>) -> (r: Option<usize>)
    ensures
        match r {
            Some(i) => i == first_repeat(v@) && i < v@.len(),
            None => first_repeat(v@) == -1,
        },
{
    let mut i: usize = 0;
    assert(v@.take(0) =~= Seq::<String>::empty());
    while i < v.len()
        invariant
            i <= v@.len(),
            first_repeat(v@.take(i as int)) == -1,
        decreases v@.len() - i,
    {
        let seen = contains_before(v, i, &v[i]);
        assert(v@.take(i + 1).drop_last() =~= v@.take(i as int));
        assert(v@.take(i + 1).last() == v@[i as int]);
        if seen {
            proof {
                lemma_first_repeat_prefix(v@, i + 1);
            }
            return Some(i);
        }
        i = i + 1;
    }
    assert(v@.take(v@.len() as int) =~= v@);
    None
}

/// Position of the first request that is also staged, if any.
fn find_shared(v: &Vec<String>, other: &Vec<String>) -> (r: Option<usize>)
    ensures
        match r {
            Some(i) => i == first_shared(v@, other@) && i < v@.len(),
            None => first_shared(v@, other@) == -1,
        },
{
    let mut i: usize = 0;
    assert(v@.take(0) =~= Seq::<String>::empty());
    while i < v.len()
        invariant
            i <= v@.len(),
            first_shared(v@.take(i as int), other@) == -1,
        decreases v@.len() - i,
    {
        let hit = strs_contain(other, &v[i]);
        assert(v@.take(i + 1).drop_last() =~= v@.take(i as int));
        assert(v@.take(i + 1).last() == v@[i as int]);
        if hit {
            proof {
                lemma_first_shared_prefix(v@, other@, i + 1);
            }
            return Some(i);
        }
        i = i + 1;
    }
    assert(v@.take(v@.len() as int) =~= v@);
    None
}

/// Position of the first request missing from the sorted pool, if any.
fn find_missing(v: &Vec<String>, pool: &Vec<String>) -> (r: Option<usize>)
    requires
        strs_sorted(pool@),
    ensures
        match r {
            Some(i) => i == first_missing(v@, pool@) && i < v@.len(),
            None => first_missing(v@, pool@) == -1,
        },
{
    let mut i: usize = 0;
    assert(v@.take(0) =~= Seq::<String>::empty());
    while i < v.len()
        invariant
            i <= v@.len(),
            strs_sorted(pool@),
            first_missing(v@.take(i as int), pool@) == -1,
        decreases v@.len() - i,
    {
        let (_, present) = str_position(pool, &v[i]);
        assert(v@.take(i + 1).drop_last() =~= v@.take(i as int));
        assert(v@.take(i + 1).last() == v@[i as int]);
        if !present {
            proof {
                lemma_first_missing_prefix(v@, pool@, i + 1);
            }
            return Some(i);
        }
        i = i + 1;
    }
    assert(v@.take(v@.len() as int) =~= v@);
    None
}

/// The pool after `t` is taken out of it.
pub open spec fn pool_without(pool: Seq<String>, t: Seq<char>) -> Seq<String> {
    if has_str(pool, t) {
        pool.remove(str_insert_pos(pool, t))
    } else {
        pool
    }
}

/// The pool after each of `tokens` is taken out of it.
pub open spec fn pool_without_all(pool: Seq<String>, tokens: Seq<String>) -> Seq<String>
    decreases tokens.len(),
{
    if tokens.len() == 0 {
        pool
    } else {
        pool_without(pool_without_all(pool, tokens.drop_last()), tokens.last()@)
    }
}

/// Takes each of `tokens` out of the sorted pool.
fn pool_remove_all(pool: &mut Vec<String>, tokens: &Vec<String>)
    requires
        strs_sorted(old(pool)@),
    ensures
        final(pool)@ == pool_without_all(old(pool)@, tokens@),
        strs_sorted(final(pool)@),
{
    let mut i: usize = 0;
    assert(tokens@.take(0) =~= Seq::<String>::empty());
    while i < tokens.len()
        invariant
            i <= tokens@.len(),
            pool@ == pool_without_all(old(pool)@, tokens@.take(i as int)),
            strs_sorted(pool@),
        decreases tokens@.len() - i,
    {
        let (p, present) = str_position(pool, &tokens[i]);
        if present {
            proof {
                lemma_strs_sorted_remove(pool@, p as int);
            }
            pool.remove(p);
        }
        assert(tokens@.take(i + 1).drop_last() =~= tokens@.take(i as int));
        i = i + 1;
    }
    assert(tokens@.take(tokens@.len() as int) =~= tokens@);
}

/// `parts` joined with `sep` between consecutive parts.
pub open spec fn join(parts: Seq<Seq<char>>, sep: Seq<char>) -> Seq<char>
    decreases parts.len(),
{
    if parts.len() == 0 {
        Seq::empty()
    } else if parts.len() == 1 {
        parts[0]
    } else {
        join(parts.drop_last(), sep) + sep + parts.last()
    }
}

/// The strings of `list` joined with `sep`.
pub fn join_strings(list: &Vec<String>, sep: &str) -> (r: String)
    ensures
        r@ == join(seq_view(list@), sep@),
{
    let mut res = String::new();
    let mut i: usize = 0;
    assert(seq_view(list@.take(0)) =~= Seq::<Seq<char>>::empty());
    assert(res@ =~= Seq::<char>::empty());
    while i < list.len()
        invariant
            i <= list@.len(),
            res@ == join(seq_view(list@.take(i as int)), sep@),
        decreases list@.len() - i,
    {
        let ghost parts = seq_view(list@.take(i + 1));
        assert(parts.drop_last() =~= seq_view(list@.take(i as int)));
        assert(parts.last() == list@[i as int]@);
        if i != 0 {
            res.append(sep);
        } else {
            assert(parts =~= seq![list@[0]@]);
        }
        res.append(list[i].as_str());
        i = i + 1;
    }
    assert(list@.take(list@.len() as int) =~= list@);
    res
}

/// The first reason a claim of `requested` by `sender` is refused, if any.
pub open spec fn claim_refusal(s: State, sender: Seq<char>, requested: Seq<String>) -> Option<
    ContractError,
> {
    let staged = staged_of(s, sender);
    if staged.len() == 0 {
        Some(ContractError::NoStagedTokens {})
    } else if requested.len() == 0 {
        Some(ContractError::SwapEmpty {})
    } else if staged.len() != requested.len() {
        Some(
            ContractError::SwapCountMismatch {
                staged: staged.len() as u64,
                requested: requested.len() as u64,
            },
        )
    } else if first_repeat(requested) >= 0 {
        Some(ContractError::DuplicateTokenId { token_id: requested[first_repeat(requested)] })
    } else if first_shared(requested, staged) >= 0 {
        Some(ContractError::SwapOverlap { token_id: requested[first_shared(requested, staged)] })
    } else if first_missing(requested, s.pool@) >= 0 {
        Some(ContractError::TokenNotInPool { token_id: requested[first_missing(requested, s.pool@)] })
    } else {
        None
    }
}

pub open spec fn claim_swap_post(old: State, new: State, now: u64, info: MessageInfo, requested_ids: Seq<String>, r: Result<Response, ContractError>) -> bool {
    &&& (match claim_refusal(old, info.sender@, requested_ids) {
            Some(e) => r == Err::<Response, ContractError>(e) && new == old,
            None => {
                let si = staging_index(old.swap_staging@, info.sender@);
                let staged = staged_of(old, info.sender@);
                let coll = old.config.mad_scientist_collection@;
                &&& new == (State {
                    pool: new.pool,
                    swap_staging: new.swap_staging,
                    ..old
                })
                &&& new.pool@ == pool_without_all(
                    pool_with_all(old.pool@, staged),
                    requested_ids,
                )
                &&& new.swap_staging@ == old.swap_staging@.remove(si)
                &&& r matches Ok(res) && res.transfers().len() == requested_ids.len() && (forall|
                    i: int,
                |
                    0 <= i < requested_ids.len() ==> #[trigger] res.transfers()[i] == (
                        coll,
                        info.sender@,
                        requested_ids[i]@,
                    )) && res.attrs() == seq![
                    ("action"@, "claim_swap"@),
                    ("swapper"@, info.sender@),
                    ("swap_count"@, decimal(staged.len())),
                    ("offered_ids"@, join(seq_view(staged), ","@)),
                    ("requested_ids"@, join(seq_view(requested_ids), ","@)),
                    ("timestamp"@, decimal(now as nat)),
                ]
            },
        })
}

/// Swaps the sender's staged tokens 1:1 for the requested pool tokens.
pub fn execute_claim_swap(s: &mut State, now: u64, info: &MessageInfo, requested_ids: Vec<String>) -> (r:
    Result<Response, ContractError>)
    requires
        old(s).wf(),
    ensures
        final(s).wf(),
        claim_swap_post(*old(s), *final(s), now, *info, requested_ids@, r),
{
    let si = match find_staging(&s.swap_staging, &info.sender) {
        Some(si) => si,
        None => {
            return Err(ContractError::NoStagedTokens {});
        },
    };
    let staged_len = s.swap_staging[si].token_ids.len();
    if staged_len == 0 {
        return Err(ContractError::NoStagedTokens {});
    }
    if requested_ids.len() == 0 {
        return Err(ContractError::SwapEmpty {});
    }
    if staged_len != requested_ids.len() {
        return Err(
            ContractError::SwapCountMismatch {
                staged: staged_len as u64,
                requested: requested_ids.len() as u64,
            },
        );
    }
    if let Some(i) = find_repeat(&requested_ids) {
        return Err(ContractError::DuplicateTokenId { token_id: requested_ids[i].clone() });
    }
    if let Some(i) = find_shared(&requested_ids, &s.swap_staging[si].token_ids) {
        return Err(ContractError::SwapOverlap { token_id: requested_ids[i].clone() });
    }
    if let Some(i) = find_missing(&requested_ids, &s.pool) {
        return Err(ContractError::TokenNotInPool { token_id: requested_ids[i].clone() });
    }
    let ghost staged_spec = staged_of(*old(s), info.sender@);
    proof {
        lemma_staging_unique_remove(s.swap_staging@, si as int);
    }
    let entry = s.swap_staging.remove(si);
    let staged = entry.token_ids;
    pool_insert_all(&mut s.pool, &staged);
    pool_remove_all(&mut s.pool, &requested_ids);
    let messages = transfers_to(&s.config.mad_scientist_collection, &info.sender, &requested_ids);
    let mut attributes = Vec::new();
    attributes.push(attr_str("action", "claim_swap"));
    attributes.push(attr("swapper", info.sender.clone()));
    attributes.push(attr("swap_count", u64_to_string(staged.len() as u64)));
    attributes.push(attr("offered_ids", join_strings(&staged, ",")));
    attributes.push(attr("requested_ids", join_strings(&requested_ids, ",")));
    attributes.push(attr("timestamp", u64_to_string(now)));
    let res = Response { messages, attributes };
    assert(res.attrs() =~= seq![
        ("action"@, "claim_swap"@),
        ("swapper"@, info.sender@),
        ("swap_count"@, decimal(staged_spec.len())),
        ("offered_ids"@, join(seq_view(staged_spec), ","@)),
        ("requested_ids"@, join(seq_view(requested_ids@), ","@)),
        ("timestamp"@, decimal(now as nat)),
    ]);
    Ok(res)
}

} // verus!
