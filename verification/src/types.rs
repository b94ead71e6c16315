//! Enumerations and small records shared by the catalog, the purchase
//! engine and the loyalty ledger.

use vstd::prelude::*;

verus! {

/// How a store rewards purchases.
#[derive(Clone, Copy, Debug, PartialEq, Eq, Structural)]
pub struct LoyaltyConfig {
    /// Points credited per reward unit of purchase value.
    pub points_per_dollar: u64,
    /// Smallest total that accrues points.
    pub minimum_purchase: u64,
    pub reward_percentage: u64,
    pub is_active: bool,
}

/// Privilege level of an administrator.
#[derive(Clone, Copy, Debug, PartialEq, Eq, Structural)]
pub enum AdminRoleType {
    SuperRootAdmin,
    PlatformAdmin,
    Owner,
    Manager,
    Cashier,
}

/// Optional on-chain representation of a product.
#[derive(Clone, Copy, Debug, PartialEq, Eq, Structural)]
pub enum TokenizedType {
    /// The product has no on-chain asset.
    Plain,
    SplToken,
}

/// Whether the on-chain asset of a product was minted.
#[derive(Clone, Copy, Debug, PartialEq, Eq, Structural)]
pub enum MintStatus {
    NotMinted,
    Minted,
    Failed,
}

/// Outcome recorded on a receipt.
#[derive(Clone, Copy, Debug, PartialEq, Eq, Structural)]
pub enum TransactionStatus {
    Success,
    Failed,
    Pending,
}

/// Reason a purchase was flagged for inspection.
#[derive(Clone, Copy, Debug, PartialEq, Eq, Structural)]
pub enum AnomalyFlag {
    HighValue,
    MultiplePurchases,
    UnusualTime,
    Other,
}

} // verus!
