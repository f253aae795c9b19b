//! How the pooled funds of a tournament are divided.
//!
//! When a tournament finishes, the reward pool is the sponsor pool plus one
//! entry fee for each complete team. The organizer takes their fee from it,
//! and what is left is divided evenly among the members of the winning team.
//! Both divisions round down; what rounding leaves over stays in the pool.

use vstd::prelude::*;
use crate::data::BASIS_POINTS;

verus! {

/// The pool that is divided when a tournament finishes.
pub open spec fn reward_pool(sponsor_pool: nat, entry_fee: nat, team_count: nat) -> nat {
    sponsor_pool + entry_fee * team_count
}

/// The organizer's share of `pool` at a fee of `organizer_fee` basis points.
pub open spec fn organizer_reward(pool: nat, organizer_fee: nat) -> nat {
    pool * organizer_fee / (BASIS_POINTS as nat)
}

/// What each of the `team_size` winners gets of `pool` after the organizer.
pub open spec fn reward_per_winner(pool: nat, organizer_fee: nat, team_size: nat) -> nat {
    ((pool - organizer_reward(pool, organizer_fee)) / (team_size as int)) as nat
}

/// The amount of `count` entry fees, as a registration pays and a refund
/// pays back.
pub open spec fn entry_fees(entry_fee: nat, count: nat) -> nat {
    entry_fee * count
}

/// The division of a reward pool.
#[derive(Clone, Copy, Debug, PartialEq, Eq, Structural)]
pub struct Distribution {
    pub reward_pool: u64,
    pub organizer_reward: u64,
    pub reward_per_winner: u64,
}

/// The organizer and all the winners together are never paid more than the
/// pool holds, and what is left over is less than one unit for each winner.
pub proof fn lemma_distribution_within_pool(pool: nat, organizer_fee: nat, team_size: nat)
    requires
        organizer_fee <= BASIS_POINTS,
        team_size > 0,
    ensures
        organizer_reward(pool, organizer_fee) <= pool,
        organizer_reward(pool, organizer_fee) + reward_per_winner(pool, organizer_fee, team_size)
            * team_size <= pool,
        pool - organizer_reward(pool, organizer_fee) - reward_per_winner(
            pool,
            organizer_fee,
            team_size,
        ) * team_size < team_size,
{
    let fee_part = organizer_reward(pool, organizer_fee);
    assert(fee_part <= pool) by (nonlinear_arith)
        requires
            organizer_fee <= 10000,
            fee_part == pool * organizer_fee / 10000,
    ;
    let rest = (pool - fee_part) as nat;
    let each = reward_per_winner(pool, organizer_fee, team_size);
    assert(each * team_size <= rest && rest - each * team_size < team_size) by (nonlinear_arith)
        requires
            team_size > 0,
            each == rest / team_size,
    ;
}

/// Without a fee the organizer gets nothing, and with a fee of 100% the
/// winners get nothing.
pub proof fn lemma_distribution_extremes(pool: nat, team_size: nat)
    requires
        team_size > 0,
    ensures
        organizer_reward(pool, 0) == 0,
        organizer_reward(pool, BASIS_POINTS as nat) == pool,
        reward_per_winner(pool, BASIS_POINTS as nat, team_size) == 0,
{
    assert(pool * 0 / 10000 == 0) by (nonlinear_arith);
    assert(pool * 10000 / 10000 == pool) by (nonlinear_arith);
    assert(0int / (team_size as int) == 0) by (nonlinear_arith)
        requires
            team_size > 0,
    ;
}

/// The reward pool of a tournament, which fits in 64 bits.
pub fn pool_of(sponsor_pool: u64, entry_fee: u64, team_count: u32) -> (pool: u64)
    requires
        reward_pool(sponsor_pool as nat, entry_fee as nat, team_count as nat) <= u64::MAX,
    ensures
        pool == reward_pool(sponsor_pool as nat, entry_fee as nat, team_count as nat),
{
    assert(entry_fee * team_count <= 0xffff_ffff_ffff_ffff * 0xffff_ffff) by (nonlinear_arith)
        requires
            entry_fee <= 0xffff_ffff_ffff_ffff,
            team_count <= 0xffff_ffff,
    ;
    let fees: u128 = (entry_fee as u128) * (team_count as u128);
    ((sponsor_pool as u128) + fees) as u64
}

/// The reward pool of a tournament, or `None` if it does not fit in 64 bits.
pub fn checked_reward_pool(sponsor_pool: u64, entry_fee: u64, team_count: u32) -> (pool: Option<
    u64,
>)
    ensures
        match pool {
            Some(p) => p == reward_pool(sponsor_pool as nat, entry_fee as nat, team_count as nat),
            None => reward_pool(sponsor_pool as nat, entry_fee as nat, team_count as nat)
                > u64::MAX,
        },
{
    assert(entry_fee * team_count <= 0xffff_ffff_ffff_ffff * 0xffff_ffff) by (nonlinear_arith)
        requires
            entry_fee <= 0xffff_ffff_ffff_ffff,
            team_count <= 0xffff_ffff,
    ;
    let fees: u128 = (entry_fee as u128) * (team_count as u128);
    let total: u128 = (sponsor_pool as u128) + fees;
    if total <= u64::MAX as u128 {
        Some(total as u64)
    } else {
        None
    }
}

/// Divides `pool` between the organizer, at `organizer_fee` basis points, and
/// the `team_size` members of the winning team.
pub fn distribute(pool: u64, organizer_fee: u64, team_size: u16) -> (shares: Distribution)
    requires
        organizer_fee <= BASIS_POINTS,
        team_size > 0,
    ensures
        shares.reward_pool == pool,
        shares.organizer_reward == organizer_reward(pool as nat, organizer_fee as nat),
        shares.reward_per_winner == reward_per_winner(
            pool as nat,
            organizer_fee as nat,
            team_size as nat,
        ),
        shares.organizer_reward + shares.reward_per_winner * team_size <= pool,
{
    proof {
        lemma_distribution_within_pool(pool as nat, organizer_fee as nat, team_size as nat);
    }
    assert(pool * organizer_fee <= 0xffff_ffff_ffff_ffff * 10000) by (nonlinear_arith)
        requires
            pool <= 0xffff_ffff_ffff_ffff,
            organizer_fee <= 10000,
    ;
    let scaled: u128 = (pool as u128) * (organizer_fee as u128);
    let fee_part: u64 = (scaled / (BASIS_POINTS as u128)) as u64;
    let each: u64 = (pool - fee_part) / (team_size as u64);
    Distribution { reward_pool: pool, organizer_reward: fee_part, reward_per_winner: each }
}

/// The amount of `count` entry fees, or `None` if it does not fit in 64
/// bits.
pub fn checked_entry_fees(entry_fee: u64, count: usize) -> (amount: Option<u64>)
    ensures
        match amount {
            Some(a) => a == entry_fees(entry_fee as nat, count as nat),
            None => entry_fees(entry_fee as nat, count as nat) > u64::MAX,
        },
{
    assert(entry_fee * count <= 0xffff_ffff_ffff_ffff * 0xffff_ffff_ffff_ffff)
        by (nonlinear_arith)
        requires
            entry_fee <= 0xffff_ffff_ffff_ffff,
            count <= 0xffff_ffff_ffff_ffff,
    ;
    let total: u128 = (entry_fee as u128) * (count as u128);
    if total <= u64::MAX as u128 {
        Some(total as u64)
    } else {
        None
    }
}

} // verus!
