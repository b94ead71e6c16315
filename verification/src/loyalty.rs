//! Loyalty points: how a purchase accrues them, how a buyer redeems them,
//! and the supply counter of a store's loyalty mint.

use vstd::prelude::*;
use crate::error::CustomError;
use crate::identity::Identity;
use crate::store::Store;
use crate::types::LoyaltyConfig;
use crate::user::UserProfile;

verus! {

/// Notice that a purchase credited points to a buyer.
#[derive(Clone, Copy, Debug, PartialEq, Eq)]
pub struct LoyaltyPointsEarned {
    pub user: Identity,
    pub store_id: Identity,
    pub points_earned: u64,
    /// The buyer's balance after the credit.
    pub total_points: u64,
    pub timestamp: i64,
}

/// Notice that a buyer turned points into a discount.
#[derive(Clone, Copy, Debug, PartialEq, Eq)]
pub struct LoyaltyPointsRedeemed {
    pub user: Identity,
    pub store_id: Identity,
    pub points_redeemed: u64,
    pub discount_value: u64,
    /// The buyer's balance after the debit.
    pub remaining_points: u64,
    pub timestamp: i64,
}

/// Notice that loyalty tokens were minted for a buyer.
#[derive(Clone, Copy, Debug, PartialEq, Eq)]
pub struct LoyaltyTokensMinted {
    pub user: Identity,
    pub amount: u64,
    pub remaining_points: u64,
    pub timestamp: i64,
}

/// Supply counter of the loyalty tokens of one store.
#[derive(Clone, Copy, Debug, PartialEq, Eq)]
pub struct LoyaltyMint {
    pub store: Identity,
    /// Who may mint and redeem.
    pub authority: Identity,
    /// Tokens in circulation.
    pub total_supply: u64,
}

/// A purchase of `total_price` earns points under `config`.
pub open spec fn accrual_applies(config: LoyaltyConfig, total_price: u64) -> bool {
    config.is_active && total_price >= config.minimum_purchase
}

/// Points a purchase of `total_price` earns when one reward unit is worth
/// `reward_unit_price`: nothing where the programme does not apply,
/// otherwise the whole reward units in the total times the points per
/// unit.  `None` where that cannot be computed in 64 bits or the unit price
/// is zero.
pub open spec fn accrual(config: LoyaltyConfig, total_price: u64, reward_unit_price: u64) -> Option<
    u64,
> {
    if !accrual_applies(config, total_price) {
        Some(0)
    } else if reward_unit_price == 0 {
        None
    } else if (total_price / reward_unit_price) * config.points_per_dollar > u64::MAX {
        None
    } else {
        Some(((total_price / reward_unit_price) * config.points_per_dollar) as u64)
    }
}

/// Converts a price into whole reward units; `None` for a zero unit price.
pub fn to_reward_units(total_price: u64, reward_unit_price: u64) -> (units: Option<u64>)
    ensures
        reward_unit_price == 0 ==> units is None,
        reward_unit_price != 0 ==> units == Some((total_price / reward_unit_price) as u64),
{
    total_price.checked_div(reward_unit_price)
}

/// Points earned by a purchase of `total_price`; `ArithmeticError` where
/// they cannot be computed.
pub fn loyalty_points_earned(config: &LoyaltyConfig, total_price: u64, reward_unit_price: u64) -> (r:
    Result<u64, CustomError>)
    ensures
        match r {
            Ok(points) => accrual(*config, total_price, reward_unit_price) == Some(points),
            Err(e) => e == CustomError::ArithmeticError && accrual(
                *config,
                total_price,
                reward_unit_price,
            ) is None,
        },
{
    if !config.is_active || total_price < config.minimum_purchase {
        return Ok(0);
    }
    let units = match to_reward_units(total_price, reward_unit_price) {
        Some(units) => units,
        None => {
            return Err(CustomError::ArithmeticError);
        },
    };
    match units.checked_mul(config.points_per_dollar) {
        Some(points) => Ok(points),
        None => Err(CustomError::ArithmeticError),
    }
}

/// Why a redemption of `points` at `redemption_rate` is refused, if it is:
/// the balance does not cover the points, the store's programme is not
/// active, or the discount does not fit in 64 bits.
pub open spec fn redemption_error(
    balance: u64,
    config: LoyaltyConfig,
    points: u64,
    redemption_rate: u64,
) -> Option<CustomError> {
    if balance < points {
        Some(CustomError::InsufficientLoyaltyPoints)
    } else if !config.is_active {
        Some(CustomError::LoyaltyProgramInactive)
    } else if points * redemption_rate > u64::MAX {
        Some(CustomError::ArithmeticError)
    } else {
        None
    }
}

/// Redeems `points` of the buyer's balance at `store` for a discount of
/// `points * redemption_rate`.
///
/// On success the balance is debited and the notice carries the discount
/// and the remaining balance; the discount is not applied to any purchase
/// here.  On failure the profile is unchanged.
pub fn redeem_points(
    profile: &mut UserProfile,
    store: &Store,
    points: u64,
    redemption_rate: u64,
    now: i64,
) -> (r: Result<LoyaltyPointsRedeemed, CustomError>)
    ensures
        match r {
            Ok(notice) => {
                &&& redemption_error(
                    old(profile).loyalty_balance,
                    store.loyalty_config,
                    points,
                    redemption_rate,
                ) is None
                &&& notice == (LoyaltyPointsRedeemed {
                    user: old(profile).authority,
                    store_id: store.id,
                    points_redeemed: points,
                    discount_value: (points * redemption_rate) as u64,
                    remaining_points: (old(profile).loyalty_balance - points) as u64,
                    timestamp: now,
                })
                &&& *final(profile) == (UserProfile {
                    loyalty_balance: (old(profile).loyalty_balance - points) as u64,
                    ..*old(profile)
                })
            },
            Err(e) => {
                &&& redemption_error(
                    old(profile).loyalty_balance,
                    store.loyalty_config,
                    points,
                    redemption_rate,
                ) == Some(e)
                &&& *final(profile) == *old(profile)
            },
        },
{
    if profile.loyalty_balance < points {
        return Err(CustomError::InsufficientLoyaltyPoints);
    }
    if !store.loyalty_config.is_active {
        return Err(CustomError::LoyaltyProgramInactive);
    }
    let discount_value = match points.checked_mul(redemption_rate) {
        Some(v) => v,
        None => {
            return Err(CustomError::ArithmeticError);
        },
    };
    let remaining = match profile.loyalty_balance.checked_sub(points) {
        Some(v) => v,
        None => {
            return Err(CustomError::ArithmeticError);
        },
    };
    profile.loyalty_balance = remaining;
    Ok(
        LoyaltyPointsRedeemed {
            user: profile.authority,
            store_id: store.id,
            points_redeemed: points,
            discount_value,
            remaining_points: remaining,
            timestamp: now,
        },
    )
}

/// Creates the loyalty mint of `store`, with nothing in circulation.
pub fn initialize_loyalty_mint(store: Identity, authority: Identity) -> (mint: LoyaltyMint)
    ensures
        mint == (LoyaltyMint { store, authority, total_supply: 0 }),
{
    LoyaltyMint { store, authority, total_supply: 0 }
}

/// Adds `amount` tokens to the supply; `ArithmeticError`, and no change,
/// where the supply would not fit in 64 bits.
pub fn mint_loyalty_tokens(mint: &mut LoyaltyMint, amount: u64) -> (r: Result<(), CustomError>)
    ensures
        match r {
            Ok(_) => old(mint).total_supply + amount <= u64::MAX && *final(mint) == (LoyaltyMint {
                total_supply: (old(mint).total_supply + amount) as u64,
                ..*old(mint)
            }),
            Err(e) => e == CustomError::ArithmeticError && old(mint).total_supply + amount
                > u64::MAX && *final(mint) == *old(mint),
        },
{
    match mint.total_supply.checked_add(amount) {
        Some(supply) => {
            mint.total_supply = supply;
            Ok(())
        },
        None => Err(CustomError::ArithmeticError),
    }
}

/// Takes `points_to_redeem` tokens out of the supply; `ArithmeticError`,
/// and no change, where the supply is smaller than that.
pub fn redeem_loyalty_points(mint: &mut LoyaltyMint, points_to_redeem: u64) -> (r: Result<
    (),
    CustomError,
>)
    ensures
        match r {
            Ok(_) => points_to_redeem <= old(mint).total_supply && *final(mint) == (LoyaltyMint {
                total_supply: (old(mint).total_supply - points_to_redeem) as u64,
                ..*old(mint)
            }),
            Err(e) => e == CustomError::ArithmeticError && points_to_redeem > old(
                mint,
            ).total_supply && *final(mint) == *old(mint),
        },
{
    match mint.total_supply.checked_sub(points_to_redeem) {
        Some(supply) => {
            mint.total_supply = supply;
            Ok(())
        },
        None => Err(CustomError::ArithmeticError),
    }
}

} // verus!
