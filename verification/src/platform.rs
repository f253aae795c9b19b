//! The platform's own settings and funds.

use vstd::prelude::*;
use crate::data::{
    GenomeOmniConfig, GenomeSingleConfig, PlatformFeeWithdrawn, Role, RoleInfo, TokenInfo,
};
use crate::error::TournamentError;
use crate::pubkey::Pubkey;

verus! {

/// Pays an account what the platform owes it: takes `amount` off the
/// account's balance, for the caller to move it from the platform.
///
/// Rejected with `NotAllowed` if the account holds no role, else with
/// `InsufficientFunds` if the balance is less than `amount`.
pub fn handle_claim_role_fund(role_info: &mut RoleInfo, amount: u64) -> (result: Result<
    (),
    TournamentError,
>)
    ensures
        final(role_info).roles@ == old(role_info).roles@,
        match result {
            Ok(()) => {
                &&& old(role_info).roles@.len() > 0
                &&& old(role_info).claim >= amount
                &&& final(role_info).claim == old(role_info).claim - amount
            },
            Err(e) => {
                &&& final(role_info).claim == old(role_info).claim
                &&& e == if old(role_info).roles@.len() == 0 {
                    TournamentError::NotAllowed
                } else {
                    TournamentError::InsufficientFunds
                }
                &&& old(role_info).roles@.len() == 0 || old(role_info).claim < amount
            },
        },
{
    if role_info.roles.len() == 0 {
        return Err(TournamentError::NotAllowed);
    }
    if role_info.claim < amount {
        return Err(TournamentError::InsufficientFunds);
    }
    role_info.claim = role_info.claim - amount;
    Ok(())
}

/// Withdraws `amount` of the platform's income, whose balance is
/// `platform_balance`, to the administrator.
///
/// Rejected with `NotAllowed` unless `admin` is the administrator of the
/// platform, else with `InsufficientFunds` if the balance is less than
/// `amount`.
pub fn handle_withdraw(
    config: &GenomeSingleConfig,
    admin: &Pubkey,
    platform_balance: u64,
    amount: u64,
) -> (result: Result<PlatformFeeWithdrawn, TournamentError>)
    ensures
        result == if *admin != config.admin {
            Err::<PlatformFeeWithdrawn, TournamentError>(TournamentError::NotAllowed)
        } else if platform_balance < amount {
            Err::<PlatformFeeWithdrawn, TournamentError>(TournamentError::InsufficientFunds)
        } else {
            Ok::<PlatformFeeWithdrawn, TournamentError>(
                PlatformFeeWithdrawn { amount, admin: *admin },
            )
        },
{
    if *admin != config.admin {
        return Err(TournamentError::NotAllowed);
    }
    if platform_balance < amount {
        return Err(TournamentError::InsufficientFunds);
    }
    Ok(PlatformFeeWithdrawn { amount, admin: *admin })
}

/// The least false-positive precision that is not accepted: zero.
pub const MIN_PRECISION: u64 = 0;

/// The highest false-positive precision that is accepted.
pub const MAX_PRECISION: u64 = 100000000;

/// Sets the false-positive precision of the registries of tournaments
/// created from now on.
///
/// Rejected with `NotAllowed` unless `admin` is the administrator of the
/// platform, else with `InvalidPrecision` unless the precision is more than
/// `MIN_PRECISION` and at most `MAX_PRECISION`.
pub fn handle_set_bloom_precision(
    config: &mut GenomeSingleConfig,
    admin: &Pubkey,
    new_precision: u64,
) -> (result: Result<(), TournamentError>)
    ensures
        match result {
            Ok(()) => {
                &&& *admin == old(config).admin
                &&& MIN_PRECISION < new_precision <= MAX_PRECISION
                &&& *final(config) == (GenomeSingleConfig {
                    false_precision: new_precision,
                    ..*old(config)
                })
            },
            Err(e) => {
                &&& *final(config) == *old(config)
                &&& e == if *admin != old(config).admin {
                    TournamentError::NotAllowed
                } else {
                    TournamentError::InvalidPrecision
                }
                &&& *admin != old(config).admin || !(MIN_PRECISION < new_precision
                    <= MAX_PRECISION)
            },
        },
{
    if *admin != config.admin {
        return Err(TournamentError::NotAllowed);
    }
    if !(new_precision > MIN_PRECISION && new_precision <= MAX_PRECISION) {
        return Err(TournamentError::InvalidPrecision);
    }
    config.false_precision = new_precision;
    Ok(())
}

/// Approves an asset for tournaments, with its minimums.
///
/// Rejected with `NotAllowed` if `role_info` is not the record of an
/// operator.
pub fn handle_approve_token(
    role_info: &RoleInfo,
    token_info: &mut TokenInfo,
    asset_mint: Pubkey,
    min_sponsor_pool: u64,
    min_entry_fee: u64,
) -> (result: Result<(), TournamentError>)
    ensures
        match result {
            Ok(()) => {
                &&& role_info.has_role(Role::Operator)
                &&& *final(token_info) == TokenInfo { asset_mint, min_sponsor_pool, min_entry_fee }
            },
            Err(e) => {
                &&& e == TournamentError::NotAllowed
                &&& !role_info.has_role(Role::Operator)
                &&& *final(token_info) == *old(token_info)
            },
        },
{
    if !role_info.holds(Role::Operator) {
        return Err(TournamentError::NotAllowed);
    }
    token_info.asset_mint = asset_mint;
    token_info.min_sponsor_pool = min_sponsor_pool;
    token_info.min_entry_fee = min_entry_fee;
    Ok(())
}

/// Sets the fee of the bridge to other chains.
///
/// Rejected with `NotAllowed` unless `admin` is the administrator of the
/// bridge.
pub fn handle_set_bridge_fee(omni_config: &mut GenomeOmniConfig, admin: &Pubkey, bridge_fee: u64) -> (result:
    Result<(), TournamentError>)
    ensures
        match result {
            Ok(()) => {
                &&& *admin == old(omni_config).admin
                &&& *final(omni_config) == (GenomeOmniConfig { bridge_fee, ..*old(omni_config) })
            },
            Err(e) => {
                &&& e == TournamentError::NotAllowed
                &&& *admin != old(omni_config).admin
                &&& *final(omni_config) == *old(omni_config)
            },
        },
{
    if *admin != omni_config.admin {
        return Err(TournamentError::NotAllowed);
    }
    omni_config.bridge_fee = bridge_fee;
    Ok(())
}

} // verus!
