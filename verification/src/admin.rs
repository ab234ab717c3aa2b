//! Administrative messages: pause, two-step admin transfer, configuration,
//! cancelling and force-completing auctions.
use vstd::prelude::*;
use vstd::string::*;

use crate::collections::{locks_without, remove_lock};
use crate::contract::{
    anti_snipe_problem, bound_reason, validate_anti_snipe_config, validate_bounded_positive,
    MAX_BIDDERS_PER_AUCTION_CAP, MAX_NFTS_PER_BID_CAP, MAX_STAGING_SIZE_CAP,
};
use crate::env::{attr, attr_str, decimal, transfer, u64_to_string, MessageInfo, Response};
use crate::error::ContractError;
use crate::msg::CheckedAddr;
use crate::state::{Auction, AuctionStatus, Config, State};

verus! {

pub open spec fn bool_str(b: bool) -> Seq<char> {
    if b {
        "true"@
    } else {
        "false"@
    }
}

/// Position of auction `id` in the state's list, if it exists.
pub fn auction_slot(s: &State, id: u64) -> (r: Option<usize>)
    requires
        s.wf(),
    ensures
        s.has_auction(id) <==> r is Some,
        r matches Some(k) ==> k == id - 1 && s.auctions@[k as int].auction_id == id,
{
    if 1 <= id && id <= s.auctions.len() as u64 {
        Some((id - 1) as usize)
    } else {
        None
    }
}

pub open spec fn set_paused_post(old: State, new: State, info: MessageInfo, paused: bool, r: Result<Response, ContractError>) -> bool {
    &&& (info.sender@ != old.config.admin@ ==> r == Err::<Response, ContractError>(
            ContractError::Unauthorized {},
        ) && new == old)
    &&& (info.sender@ == old.config.admin@ ==> {
            &&& new == (State { config: Config { paused, ..old.config }, ..old })
            &&& r matches Ok(res) && res.messages@.len() == 0 && res.attrs() == seq![
                ("action"@, "set_paused"@),
                ("paused"@, bool_str(paused)),
            ]
        })
}

/// Pauses or resumes the intake of NFTs (admin only).
pub fn execute_set_paused(s: &mut State, info: &MessageInfo, paused: bool) -> (r: Result<
    Response,
    ContractError,
>)
    ensures
        set_paused_post(*old(s), *final(s), *info, paused, r),
{
    if info.sender != s.config.admin {
        return Err(ContractError::Unauthorized {});
    }
    s.config.paused = paused;
    let mut attributes = Vec::new();
    attributes.push(attr_str("action", "set_paused"));
    attributes.push(attr_str("paused", if paused { "true" } else { "false" }));
    let res = Response { messages: Vec::new(), attributes };
    assert(res.attrs() =~= seq![("action"@, "set_paused"@), ("paused"@, bool_str(paused))]);
    Ok(res)
}

pub open spec fn propose_admin_post(old: State, new: State, info: MessageInfo, new_admin: CheckedAddr, r: Result<Response, ContractError>) -> bool {
    &&& (info.sender@ != old.config.admin@ ==> r == Err::<Response, ContractError>(
            ContractError::Unauthorized {},
        ) && new == old)
    &&& (info.sender@ == old.config.admin@ ==> match new_admin {
            Err(e) => r == Err::<Response, ContractError>(ContractError::Std(e)) && new
                == old,
            Ok(a) => {
                &&& new == (State {
                    config: Config { pending_admin: Some(a), ..old.config },
                    ..old
                })
                &&& r matches Ok(res) && res.messages@.len() == 0 && res.attrs() == seq![
                    ("action"@, "propose_admin"@),
                    ("proposed_admin"@, a@),
                ]
            },
        })
}

/// Step one of the admin handover: records the proposed admin (admin only).
pub fn execute_propose_admin(s: &mut State, info: &MessageInfo, new_admin: CheckedAddr) -> (r:
    Result<Response, ContractError>)
    ensures
        propose_admin_post(*old(s), *final(s), *info, new_admin, r),
{
    if info.sender != s.config.admin {
        return Err(ContractError::Unauthorized {});
    }
    let validated = match new_admin {
        Ok(a) => a,
        Err(e) => {
            return Err(ContractError::Std(e));
        },
    };
    s.config.pending_admin = Some(validated.clone());
    let mut attributes = Vec::new();
    attributes.push(attr_str("action", "propose_admin"));
    attributes.push(attr("proposed_admin", validated));
    let res = Response { messages: Vec::new(), attributes };
    assert(res.attrs() =~= seq![("action"@, "propose_admin"@), ("proposed_admin"@, validated@)]);
    Ok(res)
}

pub open spec fn accept_admin_post(old: State, new: State, info: MessageInfo, r: Result<Response, ContractError>) -> bool {
    &&& (match old.config.pending_admin {
            None => r == Err::<Response, ContractError>(ContractError::NoPendingAdmin {})
                && new == old,
            Some(p) => if info.sender@ != p@ {
                r == Err::<Response, ContractError>(ContractError::NotPendingAdmin {}) && new
                    == old
            } else {
                &&& new == (State {
                    config: Config { admin: p, pending_admin: None, ..old.config },
                    ..old
                })
                &&& r matches Ok(res) && res.messages@.len() == 0 && res.attrs() == seq![
                    ("action"@, "accept_admin"@),
                    ("new_admin"@, p@),
                ]
            },
        })
}

/// Step two of the admin handover: the proposed admin takes over.
pub fn execute_accept_admin(s: &mut State, info: &MessageInfo) -> (r: Result<
    Response,
    ContractError,
>)
    ensures
        accept_admin_post(*old(s), *final(s), *info, r),
{
    let pending = match &s.config.pending_admin {
        None => {
            return Err(ContractError::NoPendingAdmin {});
        },
        Some(p) => p.clone(),
    };
    if info.sender != pending {
        return Err(ContractError::NotPendingAdmin {});
    }
    s.config.admin = pending.clone();
    s.config.pending_admin = None;
    let mut attributes = Vec::new();
    attributes.push(attr_str("action", "accept_admin"));
    attributes.push(attr("new_admin", pending));
    let res = Response { messages: Vec::new(), attributes };
    assert(res.attrs() =~= seq![("action"@, "accept_admin"@), ("new_admin"@, pending@)]);
    Ok(res)
}

pub open spec fn force_complete_post(old: State, new: State, info: MessageInfo, auction_id: u64, r: Result<Response, ContractError>) -> bool {
    &&& (r is Err ==> new == old)
    &&& (info.sender@ != old.config.admin@ ==> r == Err::<Response, ContractError>(
            ContractError::Unauthorized {},
        ))
    &&& (info.sender@ == old.config.admin@ && !old.has_auction(auction_id) ==> r == Err::<Response, ContractError>(ContractError::AuctionNotFound { auction_id }))
    &&& (info.sender@ == old.config.admin@ && old.has_auction(auction_id) && old.auction(
            auction_id,
        ).status != AuctionStatus::Finalizing ==> r == Err::<Response, ContractError>(
            ContractError::NotFinalizing { auction_id },
        ))
    &&& (info.sender@ == old.config.admin@ && old.has_auction(auction_id) && old.auction(
            auction_id,
        ).status == AuctionStatus::Finalizing ==> {
            &&& new == (State {
                auctions: new.auctions,
                ..old
            })
            &&& new.auctions@ == old.auctions@.update(
                auction_id - 1,
                Auction { status: AuctionStatus::Completed, ..old.auction(auction_id) },
            )
            &&& r matches Ok(res) && res.messages@.len() == 0 && res.attrs() == seq![
                ("action"@, "force_complete_auction"@),
                ("auction_id"@, decimal(auction_id as nat)),
            ]
        })
}

/// Completes a finalizing auction whose losers have not all withdrawn (admin only).
pub fn execute_force_complete(s: &mut State, info: &MessageInfo, auction_id: u64) -> (r: Result<
    Response,
    ContractError,
>)
    requires
        old(s).wf(),
    ensures
        final(s).wf(),
        force_complete_post(*old(s), *final(s), *info, auction_id, r),
{
    if info.sender != s.config.admin {
        return Err(ContractError::Unauthorized {});
    }
    let k = match auction_slot(s, auction_id) {
        Some(k) => k,
        None => {
            return Err(ContractError::AuctionNotFound { auction_id });
        },
    };
    if s.auctions[k].status != AuctionStatus::Finalizing {
        return Err(ContractError::NotFinalizing { auction_id });
    }
    s.auctions[k].status = AuctionStatus::Completed;
    let mut attributes = Vec::new();
    attributes.push(attr_str("action", "force_complete_auction"));
    attributes.push(attr("auction_id", u64_to_string(auction_id)));
    let res = Response { messages: Vec::new(), attributes };
    assert(res.attrs() =~= seq![
        ("action"@, "force_complete_auction"@),
        ("auction_id"@, decimal(auction_id as nat)),
    ]);
    assert(s.auctions@ =~= old(s).auctions@.update(
        auction_id - 1,
        Auction { status: AuctionStatus::Completed, ..old(s).auction(auction_id) },
    ));
    Ok(res)
}

} // verus!

verus! {

pub open spec fn cancel_post(old: State, new: State, info: MessageInfo, auction_id: u64, r: Result<Response, ContractError>) -> bool {
    &&& (r is Err ==> new == old)
    &&& (info.sender@ != old.config.admin@ ==> r == Err::<Response, ContractError>(
            ContractError::Unauthorized {},
        ))
    &&& (info.sender@ == old.config.admin@ && !old.has_auction(auction_id) ==> r == Err::<Response, ContractError>(ContractError::AuctionNotFound { auction_id }))
    &&& (info.sender@ == old.config.admin@ && old.has_auction(auction_id) && old.auction(
            auction_id,
        ).status != AuctionStatus::Active ==> r == Err::<Response, ContractError>(
            ContractError::AuctionNotActive { auction_id },
        ))
    &&& (info.sender@ == old.config.admin@ && old.has_auction(auction_id) && old.auction(
            auction_id,
        ).status == AuctionStatus::Active && old.auction(auction_id).total_bidders > 0 ==> r
            == Err::<Response, ContractError>(ContractError::CannotCancelWithBids { auction_id }))
    &&& (info.sender@ == old.config.admin@ && old.has_auction(auction_id) && old.auction(
            auction_id,
        ).status == AuctionStatus::Active && old.auction(auction_id).total_bidders == 0 ==> {
            let a = old.auction(auction_id);
            &&& new == (State {
                auctions: new.auctions,
                active_mega_auctions: new.active_mega_auctions,
                ..old
            })
            &&& new.auctions@ == old.auctions@.update(
                auction_id - 1,
                Auction { status: AuctionStatus::Cancelled, ..a },
            )
            &&& new.active_mega_auctions@ == locks_without(
                old.active_mega_auctions@,
                a.mega_token_id@,
            )
            &&& r matches Ok(res) && res.transfers() == seq![
                (old.config.mega_mad_scientist_collection@, a.depositor@, a.mega_token_id@),
            ] && res.attrs() == seq![
                ("action"@, "cancel_auction"@),
                ("auction_id"@, decimal(auction_id as nat)),
            ]
        })
}

/// Cancels an active auction nobody has bid in and returns its Cosmic token
/// to the depositor (admin only).
pub fn execute_cancel_auction(s: &mut State, info: &MessageInfo, auction_id: u64) -> (r: Result<
    Response,
    ContractError,
>)
    requires
        old(s).wf(),
    ensures
        final(s).wf(),
        cancel_post(*old(s), *final(s), *info, auction_id, r),
{
    if info.sender != s.config.admin {
        return Err(ContractError::Unauthorized {});
    }
    let k = match auction_slot(s, auction_id) {
        Some(k) => k,
        None => {
            return Err(ContractError::AuctionNotFound { auction_id });
        },
    };
    if s.auctions[k].status != AuctionStatus::Active {
        return Err(ContractError::AuctionNotActive { auction_id });
    }
    if s.auctions[k].total_bidders > 0 {
        return Err(ContractError::CannotCancelWithBids { auction_id });
    }
    let mut messages = Vec::new();
    messages.push(
        transfer(
            &s.config.mega_mad_scientist_collection,
            &s.auctions[k].depositor,
            &s.auctions[k].mega_token_id,
        ),
    );
    let mega = s.auctions[k].mega_token_id.clone();
    remove_lock(&mut s.active_mega_auctions, &mega);
    s.auctions[k].status = AuctionStatus::Cancelled;
    let mut attributes = Vec::new();
    attributes.push(attr_str("action", "cancel_auction"));
    attributes.push(attr("auction_id", u64_to_string(auction_id)));
    let res = Response { messages, attributes };
    let ghost a = old(s).auction(auction_id);
    assert(res.attrs() =~= seq![
        ("action"@, "cancel_auction"@),
        ("auction_id"@, decimal(auction_id as nat)),
    ]);
    assert(res.transfers() =~= seq![
        (old(s).config.mega_mad_scientist_collection@, a.depositor@, a.mega_token_id@),
    ]);
    assert(s.auctions@ =~= old(s).auctions@.update(
        auction_id - 1,
        Auction { status: AuctionStatus::Cancelled, ..a },
    ));
    Ok(res)
}

/// The optional settings of an `UpdateConfig` message.
pub struct UpdateConfigArgs {
    pub default_min_bid: Option<u64>,
    pub anti_snipe_window: Option<u64>,
    pub anti_snipe_extension: Option<u64>,
    pub max_extension: Option<u64>,
    pub max_bidders_per_auction: Option<u64>,
    pub max_staging_size: Option<u64>,
    pub max_nfts_per_bid: Option<u64>,
}

pub open spec fn or_keep(v: Option<u64>, current: u64) -> u64 {
    match v {
        Some(x) => x,
        None => current,
    }
}

/// `c` with every setting that `args` names replaced.
pub open spec fn updated_config(c: Config, args: UpdateConfigArgs) -> Config {
    Config {
        default_min_bid: or_keep(args.default_min_bid, c.default_min_bid),
        anti_snipe_window: or_keep(args.anti_snipe_window, c.anti_snipe_window),
        anti_snipe_extension: or_keep(args.anti_snipe_extension, c.anti_snipe_extension),
        max_extension: or_keep(args.max_extension, c.max_extension),
        max_bidders_per_auction: or_keep(args.max_bidders_per_auction, c.max_bidders_per_auction),
        max_staging_size: or_keep(args.max_staging_size, c.max_staging_size),
        max_nfts_per_bid: or_keep(args.max_nfts_per_bid, c.max_nfts_per_bid),
        ..c
    }
}

/// A setting that must lie in `1..=max`, when it is given.
pub open spec fn limit_problem(field: Seq<char>, v: Option<u64>, max: u64) -> Option<Seq<char>> {
    match v {
        Some(x) => if 1 <= x <= max {
            None
        } else {
            Some(bound_reason(field, x, max))
        },
        None => None,
    }
}

/// Why an update of `c` by `args` is refused, if it is.
pub open spec fn update_config_problem(c: Config, args: UpdateConfigArgs) -> Option<Seq<char>> {
    let n = updated_config(c, args);
    if args.default_min_bid == Some(0u64) {
        Some("default_min_bid must be >= 1"@)
    } else if anti_snipe_problem(n.anti_snipe_window, n.anti_snipe_extension, n.max_extension) is Some {
        anti_snipe_problem(n.anti_snipe_window, n.anti_snipe_extension, n.max_extension)
    } else if limit_problem(
        "max_bidders_per_auction"@,
        args.max_bidders_per_auction,
        MAX_BIDDERS_PER_AUCTION_CAP,
    ) is Some {
        limit_problem(
            "max_bidders_per_auction"@,
            args.max_bidders_per_auction,
            MAX_BIDDERS_PER_AUCTION_CAP,
        )
    } else if limit_problem("max_staging_size"@, args.max_staging_size, MAX_STAGING_SIZE_CAP) is Some {
        limit_problem("max_staging_size"@, args.max_staging_size, MAX_STAGING_SIZE_CAP)
    } else {
        limit_problem("max_nfts_per_bid"@, args.max_nfts_per_bid, MAX_NFTS_PER_BID_CAP)
    }
}

pub open spec fn update_config_post(old: State, new: State, info: MessageInfo, args: UpdateConfigArgs, r: Result<Response, ContractError>) -> bool {
    &&& (r is Err ==> new == old)
    &&& (info.sender@ != old.config.admin@ ==> r == Err::<Response, ContractError>(
            ContractError::Unauthorized {},
        ))
    &&& (info.sender@ == old.config.admin@ ==> match update_config_problem(old.config, args) {
            Some(reason) => r matches Err(ContractError::InvalidConfig { reason: rs }) && rs@
                == reason,
            None => {
                &&& new == (State {
                    config: updated_config(old.config, args),
                    ..old
                })
                &&& r matches Ok(res) && res.messages@.len() == 0 && res.attrs() == seq![
                    ("action"@, "update_config"@),
                    ("admin"@, old.config.admin@),
                ]
            },
        })
}

/// Replaces the settings `args` names, after checking them (admin only).
pub fn execute_update_config(s: &mut State, info: &MessageInfo, args: UpdateConfigArgs) -> (r:
    Result<Response, ContractError>)
    ensures
        update_config_post(*old(s), *final(s), *info, args, r),
{
    if info.sender != s.config.admin {
        return Err(ContractError::Unauthorized {});
    }
    let mut config = s.config.clone_config();
    if let Some(min) = args.default_min_bid {
        if min == 0 {
            return Err(
                ContractError::InvalidConfig {
                    reason: String::from_str("default_min_bid must be >= 1"),
                },
            );
        }
        config.default_min_bid = min;
    }
    if let Some(window) = args.anti_snipe_window {
        config.anti_snipe_window = window;
    }
    if let Some(ext) = args.anti_snipe_extension {
        config.anti_snipe_extension = ext;
    }
    if let Some(max) = args.max_extension {
        config.max_extension = max;
    }
    validate_anti_snipe_config(
        config.anti_snipe_window,
        config.anti_snipe_extension,
        config.max_extension,
    )?;
    if let Some(max_b) = args.max_bidders_per_auction {
        validate_bounded_positive("max_bidders_per_auction", max_b, MAX_BIDDERS_PER_AUCTION_CAP)?;
        config.max_bidders_per_auction = max_b;
    }
    if let Some(max_s) = args.max_staging_size {
        validate_bounded_positive("max_staging_size", max_s, MAX_STAGING_SIZE_CAP)?;
        config.max_staging_size = max_s;
    }
    if let Some(max_n) = args.max_nfts_per_bid {
        validate_bounded_positive("max_nfts_per_bid", max_n, MAX_NFTS_PER_BID_CAP)?;
        config.max_nfts_per_bid = max_n;
    }
    let admin = config.admin.clone();
    s.config = config;
    let mut attributes = Vec::new();
    attributes.push(attr_str("action", "update_config"));
    attributes.push(attr("admin", admin));
    let res = Response { messages: Vec::new(), attributes };
    assert(res.attrs() =~= seq![("action"@, "update_config"@), ("admin"@, old(s).config.admin@)]);
    Ok(res)
}

} // verus!
