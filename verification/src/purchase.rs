//! The purchase engine: one cart, validated, settled and applied to the
//! store, its products and the buyer's profile as a single all-or-nothing
//! step.

use vstd::prelude::*;
use crate::cart::{
    cart_total, check_cart, lemma_sum_prefix, lemma_sum_step, line_totals, sum, validation_error,
};
use crate::error::CustomError;
use crate::identity::{copy_quantities, copy_uuids, Identity};
use crate::loyalty::{accrual, accrual_applies, loyalty_points_earned, LoyaltyPointsEarned};
use crate::product::{locate, Product};
use crate::store::Store;
use crate::types::{AnomalyFlag, TransactionStatus};
use crate::user::{history_with, record_purchase, PurchaseRecord, UserProfile};

verus! {

/// The receipt of a completed purchase.  It is written once and never
/// changed.
#[derive(Clone, Debug, PartialEq, Eq)]
pub struct Purchase {
    pub product_uuids: Vec<[u8; 16]>,
    pub quantities: Vec<u64>,
    pub total_paid: u64,
    /// Operational surcharge; recorded, not charged.
    pub gas_fee: u64,
    pub status: TransactionStatus,
    pub anomaly_flag: Option<AnomalyFlag>,
    pub store: Identity,
    pub buyer: Identity,
    pub timestamp: i64,
}

/// A receipt as plain values.
pub struct PurchaseView {
    pub product_uuids: Seq<[u8; 16]>,
    pub quantities: Seq<u64>,
    pub total_paid: u64,
    pub gas_fee: u64,
    pub status: TransactionStatus,
    pub anomaly_flag: Option<AnomalyFlag>,
    pub store: Identity,
    pub buyer: Identity,
    pub timestamp: i64,
}

impl View for Purchase {
    type V = PurchaseView;

    open spec fn view(&self) -> PurchaseView {
        PurchaseView {
            product_uuids: self.product_uuids@,
            quantities: self.quantities@,
            total_paid: self.total_paid,
            gas_fee: self.gas_fee,
            status: self.status,
            anomaly_flag: self.anomaly_flag,
            store: self.store,
            buyer: self.buyer,
            timestamp: self.timestamp,
        }
    }
}

/// Notice, for outside observers, that a cart was purchased.
#[derive(Clone, Debug, PartialEq, Eq)]
pub struct CartPurchased {
    pub store_id: Identity,
    pub buyer_id: Identity,
    pub product_uuids: Vec<[u8; 16]>,
    pub quantities: Vec<u64>,
    pub total_paid: u64,
    pub gas_fee: u64,
    pub timestamp: i64,
}

impl Purchase {
    /// Bytes reserved for one stored receipt.
    pub const LEN: usize = 8 + (4 + 10 * 16) + (4 + 10 * 8) + 8 + 8 + 1 + 1 + 32 + 32;

    /// Writes a receipt from its fields.
    pub fn new(
        store: Identity,
        buyer: Identity,
        product_uuids: Vec<[u8; 16]>,
        quantities: Vec<u64>,
        total_paid: u64,
        gas_fee: u64,
        status: TransactionStatus,
        anomaly_flag: Option<AnomalyFlag>,
        timestamp: i64,
    ) -> (receipt: Purchase)
        ensures
            receipt@ == (PurchaseView {
                product_uuids: product_uuids@,
                quantities: quantities@,
                total_paid,
                gas_fee,
                status,
                anomaly_flag,
                store,
                buyer,
                timestamp,
            }),
    {
        Purchase {
            product_uuids,
            quantities,
            total_paid,
            gas_fee,
            status,
            anomaly_flag,
            store,
            buyer,
            timestamp,
        }
    }

    /// The notice that announces this receipt.
    pub fn event(&self) -> (notice: CartPurchased)
        ensures
            notice.store_id == self.store,
            notice.buyer_id == self.buyer,
            notice.product_uuids@ == self.product_uuids@,
            notice.quantities@ == self.quantities@,
            notice.total_paid == self.total_paid,
            notice.gas_fee == self.gas_fee,
            notice.timestamp == self.timestamp,
    {
        CartPurchased {
            store_id: self.store,
            buyer_id: self.buyer,
            product_uuids: copy_uuids(&self.product_uuids),
            quantities: copy_quantities(&self.quantities),
            total_paid: self.total_paid,
            gas_fee: self.gas_fee,
            timestamp: self.timestamp,
        }
    }
}

/// What the payment service answered when asked to move the cart's total
/// from the buyer to the store's owner.
#[derive(Clone, Copy, Debug, PartialEq, Eq, Structural)]
pub enum Settlement {
    Settled,
    Failed,
}

/// Limits and rates the engine is configured with.
#[derive(Clone, Copy, Debug, PartialEq, Eq, Structural)]
pub struct PurchasePolicy {
    /// Most lines a cart may have.
    pub max_cart_items: usize,
    /// Price units that make one reward unit when points accrue.
    pub reward_unit_price: u64,
}

/// What a purchase hands back: the receipt, and the notice of the points it
/// earned, if the store's loyalty programme applied.
#[derive(Clone, Debug, PartialEq, Eq)]
pub struct PurchaseOutcome {
    pub receipt: Purchase,
    pub loyalty: Option<LoyaltyPointsEarned>,
}

/// The new values a purchase will write, computed before anything is
/// written.
#[derive(Clone, Debug, PartialEq, Eq)]
pub struct PurchasePlan {
    /// Who pays: the buyer.
    pub payer: Identity,
    /// Who is paid: the owner of the store.
    pub payee: Identity,
    /// What the payer owes the payee.
    pub total_price: u64,
    /// The stock of every catalog record after the purchase.
    pub stocks: Vec<u64>,
    /// The store's revenue after the purchase.
    pub revenue: u64,
    pub points_earned: u64,
    /// The buyer's loyalty balance after the purchase.
    pub loyalty_balance: u64,
}

/// For every cart line, the quantity it orders of catalog record `j`.
pub open spec fn line_demands(
    products: Seq<Product>,
    store_id: Identity,
    uuids: Seq<[u8; 16]>,
    quantities: Seq<u64>,
    j: int,
) -> Seq<int> {
    Seq::new(
        uuids.len(),
        |i: int|
            if locate(products, store_id, uuids[i]) == Some(j) {
                quantities[i] as int
            } else {
                0
            },
    )
}

/// Units of catalog record `j` that the whole cart orders.
pub open spec fn demand(
    products: Seq<Product>,
    store_id: Identity,
    uuids: Seq<[u8; 16]>,
    quantities: Seq<u64>,
    j: int,
) -> int {
    sum(line_demands(products, store_id, uuids, quantities, j))
}

/// The cart orders more of record `j` than is on hand.
pub open spec fn oversold(
    products: Seq<Product>,
    store_id: Identity,
    uuids: Seq<[u8; 16]>,
    quantities: Seq<u64>,
    j: int,
) -> bool {
    demand(products, store_id, uuids, quantities, j) > products[j].stock
}

/// The lines of the cart, taken together, order more of some product than
/// is on hand.
pub open spec fn has_oversold_product(
    products: Seq<Product>,
    store_id: Identity,
    uuids: Seq<[u8; 16]>,
    quantities: Seq<u64>,
) -> bool {
    exists|j: int| 0 <= j < products.len() && oversold(products, store_id, uuids, quantities, j)
}

/// Record `j` after the purchase: its stock less what the cart orders of
/// it, everything else as before.
pub open spec fn product_after(
    products: Seq<Product>,
    store_id: Identity,
    uuids: Seq<[u8; 16]>,
    quantities: Seq<u64>,
    j: int,
) -> Product {
    Product {
        stock: (products[j].stock - demand(products, store_id, uuids, quantities, j)) as u64,
        ..products[j]
    }
}

/// The catalog after the purchase.
pub open spec fn catalog_after(
    products: Seq<Product>,
    store_id: Identity,
    uuids: Seq<[u8; 16]>,
    quantities: Seq<u64>,
) -> Seq<Product> {
    Seq::new(products.len(), |j: int| product_after(products, store_id, uuids, quantities, j))
}

/// The first failure among the steps that follow settlement: stock that
/// would go negative (`StockUnderflow`), revenue that would not fit in 64
/// bits (`PriceOverflow`), points or a balance that would not
/// (`ArithmeticError`).
pub open spec fn commit_error(
    store: Store,
    products: Seq<Product>,
    balance: u64,
    uuids: Seq<[u8; 16]>,
    quantities: Seq<u64>,
    reward_unit_price: u64,
) -> Option<CustomError> {
    let total = cart_total(products, store.id, uuids, quantities) as u64;
    if has_oversold_product(products, store.id, uuids, quantities) {
        Some(CustomError::StockUnderflow)
    } else if store.revenue + total > u64::MAX {
        Some(CustomError::PriceOverflow)
    } else {
        match accrual(store.loyalty_config, total, reward_unit_price) {
            None => Some(CustomError::ArithmeticError),
            Some(points) => if balance + points > u64::MAX {
                Some(CustomError::ArithmeticError)
            } else {
                None
            },
        }
    }
}

/// Why a purchase attempt is rejected, if it is: the first failed check of
/// the cart, else a failed settlement, else the first failure while the
/// new values are computed.
pub open spec fn purchase_error(
    store: Store,
    products: Seq<Product>,
    balance: u64,
    uuids: Seq<[u8; 16]>,
    quantities: Seq<u64>,
    amount_tendered: u64,
    settlement: Settlement,
    policy: PurchasePolicy,
) -> Option<CustomError> {
    match validation_error(
        store,
        products,
        uuids,
        quantities,
        amount_tendered,
        policy.max_cart_items,
    ) {
        Some(e) => Some(e),
        None => if settlement == Settlement::Failed {
            Some(CustomError::SettlementFailed)
        } else {
            commit_error(store, products, balance, uuids, quantities, policy.reward_unit_price)
        },
    }
}

/// Points the purchase earns; meaningful where `purchase_error` is `None`.
pub open spec fn points_of(
    store: Store,
    products: Seq<Product>,
    uuids: Seq<[u8; 16]>,
    quantities: Seq<u64>,
    policy: PurchasePolicy,
) -> u64 {
    accrual(
        store.loyalty_config,
        cart_total(products, store.id, uuids, quantities) as u64,
        policy.reward_unit_price,
    ).unwrap()
}

/// The stock every record is left with once each line has taken its
/// quantity, or `StockUnderflow` if some record runs out on the way.
fn reserve_stock(
    products: &[Product],
    hits: &Vec<usize>,
    quantities: &[u64],
    Ghost(store_id): Ghost<Identity>,
    Ghost(uuids): Ghost<Seq<[u8; 16]>>,
) -> (r: Result<Vec<u64>, CustomError>)
    requires
        uuids.len() == quantities@.len(),
        hits@.len() == uuids.len(),
        forall|i: int|
            0 <= i < hits@.len() ==> locate(products@, store_id, uuids[i]) == Some(
                #[trigger] hits@[i] as int,
            ),
        forall|i: int| 0 <= i < hits@.len() ==> 0 <= #[trigger] hits@[i] < products@.len(),
    ensures
        match r {
            Ok(stocks) => {
                &&& !has_oversold_product(products@, store_id, uuids, quantities@)
                &&& stocks@.len() == products@.len()
                &&& forall|j: int|
                    0 <= j < stocks@.len() ==> #[trigger] stocks@[j] == products@[j].stock - demand(
                        products@,
                        store_id,
                        uuids,
                        quantities@,
                        j,
                    )
            },
            Err(e) => e == CustomError::StockUnderflow && has_oversold_product(
                products@,
                store_id,
                uuids,
                quantities@,
            ),
        },
{
    let mut stocks: Vec<u64> = Vec::new();
    let mut j: usize = 0;
    while j < products.len()
        invariant
            j <= products.len(),
            stocks@.len() == j,
            forall|k: int| 0 <= k < j ==> #[trigger] stocks@[k] == products@[k].stock,
        decreases products.len() - j,
    {
        stocks.push(products[j].stock);
        j += 1;
    }
    proof {
        assert forall|k: int| 0 <= k < stocks@.len() implies #[trigger] stocks@[k] == products@[k].stock
            - sum(line_demands(products@, store_id, uuids, quantities@, k).subrange(0, 0)) by {
            assert(line_demands(products@, store_id, uuids, quantities@, k).subrange(0, 0)
                =~= Seq::<int>::empty());
        }
    }
    let mut i: usize = 0;
    while i < quantities.len()
        invariant
            i <= quantities.len(),
            uuids.len() == quantities@.len(),
            hits@.len() == uuids.len(),
            stocks@.len() == products@.len(),
            forall|k: int|
                0 <= k < hits@.len() ==> locate(products@, store_id, uuids[k]) == Some(
                    #[trigger] hits@[k] as int,
                ),
            forall|k: int| 0 <= k < hits@.len() ==> 0 <= #[trigger] hits@[k] < products@.len(),
            forall|k: int|
                0 <= k < stocks@.len() ==> #[trigger] stocks@[k] == products@[k].stock - sum(
                    line_demands(products@, store_id, uuids, quantities@, k).subrange(0, i as int),
                ),
        decreases quantities.len() - i,
    {
        let j = hits[i];
        proof {
            assert forall|k: int| 0 <= k < stocks@.len() implies sum(
                line_demands(products@, store_id, uuids, quantities@, k).subrange(0, i + 1),
            ) == sum(line_demands(products@, store_id, uuids, quantities@, k).subrange(0, i as int))
                + (if k == j {
                quantities@[i as int] as int
            } else {
                0
            }) by {
                lemma_sum_step(line_demands(products@, store_id, uuids, quantities@, k), i as int);
            }
        }
        let left = match stocks[j].checked_sub(quantities[i]) {
            Some(v) => v,
            None => {
                proof {
                    let demands = line_demands(products@, store_id, uuids, quantities@, j as int);
                    lemma_sum_prefix(demands, i + 1);
                    assert(stocks@[j as int] == products@[j as int].stock - sum(
                        demands.subrange(0, i as int),
                    ));
                    assert(oversold(products@, store_id, uuids, quantities@, j as int));
                }
                return Err(CustomError::StockUnderflow);
            },
        };
        stocks[j] = left;
        i += 1;
    }
    proof {
        assert forall|k: int| 0 <= k < products@.len() implies !oversold(
            products@,
            store_id,
            uuids,
            quantities@,
            k,
        ) by {
            let demands = line_demands(products@, store_id, uuids, quantities@, k);
            assert(demands.subrange(0, i as int) =~= demands);
            assert(stocks@[k] == products@[k].stock - sum(demands.subrange(0, i as int)));
        }
        assert forall|k: int| 0 <= k < stocks@.len() implies #[trigger] stocks@[k] == products@[k].stock
            - demand(products@, store_id, uuids, quantities@, k) by {
            let demands = line_demands(products@, store_id, uuids, quantities@, k);
            assert(demands.subrange(0, i as int) =~= demands);
        }
    }
    Ok(stocks)
}

/// Computes the values a settled purchase will write.
fn compute_changes(
    store: &Store,
    products: &[Product],
    buyer: Identity,
    balance: u64,
    hits: &Vec<usize>,
    quantities: &[u64],
    total: u64,
    reward_unit_price: u64,
    Ghost(uuids): Ghost<Seq<[u8; 16]>>,
) -> (r: Result<PurchasePlan, CustomError>)
    requires
        uuids.len() == quantities@.len(),
        hits@.len() == uuids.len(),
        forall|i: int|
            0 <= i < hits@.len() ==> locate(products@, store.id, uuids[i]) == Some(
                #[trigger] hits@[i] as int,
            ),
        forall|i: int| 0 <= i < hits@.len() ==> 0 <= #[trigger] hits@[i] < products@.len(),
        total == cart_total(products@, store.id, uuids, quantities@),
    ensures
        match r {
            Ok(plan) => {
                &&& commit_error(*store, products@, balance, uuids, quantities@, reward_unit_price)
                    is None
                &&& plan.payer == buyer
                &&& plan.payee == store.owner
                &&& plan.total_price == total
                &&& plan.stocks@.len() == products@.len()
                &&& forall|j: int|
                    0 <= j < plan.stocks@.len() ==> #[trigger] plan.stocks@[j]
                        == products@[j].stock - demand(products@, store.id, uuids, quantities@, j)
                &&& plan.revenue == store.revenue + total
                &&& accrual(store.loyalty_config, total, reward_unit_price) == Some(
                    plan.points_earned,
                )
                &&& plan.loyalty_balance == balance + plan.points_earned
            },
            Err(e) => commit_error(*store, products@, balance, uuids, quantities@, reward_unit_price)
                == Some(e),
        },
{
    let stocks = match reserve_stock(products, hits, quantities, Ghost(store.id), Ghost(uuids)) {
        Ok(stocks) => stocks,
        Err(e) => {
            return Err(e);
        },
    };
    let revenue = match store.revenue.checked_add(total) {
        Some(v) => v,
        None => {
            return Err(CustomError::PriceOverflow);
        },
    };
    let points_earned = match loyalty_points_earned(&store.loyalty_config, total, reward_unit_price) {
        Ok(points) => points,
        Err(e) => {
            return Err(e);
        },
    };
    let loyalty_balance = match balance.checked_add(points_earned) {
        Some(v) => v,
        None => {
            return Err(CustomError::ArithmeticError);
        },
    };
    Ok(
        PurchasePlan {
            payer: buyer,
            payee: store.owner,
            total_price: total,
            stocks,
            revenue,
            points_earned,
            loyalty_balance,
        },
    )
}

/// Works out, without writing anything, what a purchase would do if the
/// payment were settled: the transfer to ask of the payment service, from
/// the buyer to the store's owner, and every value the purchase would
/// write.  It fails exactly where `purchase_cart` would fail after a
/// successful settlement, and with the same error.
pub fn plan_purchase(
    store: &Store,
    products: &[Product],
    profile: &UserProfile,
    product_uuids: &[[u8; 16]],
    quantities: &[u64],
    total_amount_paid: u64,
    policy: &PurchasePolicy,
) -> (r: Result<PurchasePlan, CustomError>)
    ensures
        match r {
            Ok(plan) => {
                &&& purchase_error(
                    *store,
                    products@,
                    profile.loyalty_balance,
                    product_uuids@,
                    quantities@,
                    total_amount_paid,
                    Settlement::Settled,
                    *policy,
                ) is None
                &&& plan.payer == profile.authority
                &&& plan.payee == store.owner
                &&& plan.total_price == cart_total(
                    products@,
                    store.id,
                    product_uuids@,
                    quantities@,
                )
                &&& plan.total_price <= total_amount_paid
                &&& plan.stocks@.len() == products@.len()
                &&& forall|j: int|
                    0 <= j < plan.stocks@.len() ==> #[trigger] plan.stocks@[j]
                        == products@[j].stock - demand(
                        products@,
                        store.id,
                        product_uuids@,
                        quantities@,
                        j,
                    )
                &&& plan.revenue == store.revenue + plan.total_price
                &&& plan.points_earned == points_of(
                    *store,
                    products@,
                    product_uuids@,
                    quantities@,
                    *policy,
                )
                &&& plan.loyalty_balance == profile.loyalty_balance + plan.points_earned
            },
            Err(e) => purchase_error(
                *store,
                products@,
                profile.loyalty_balance,
                product_uuids@,
                quantities@,
                total_amount_paid,
                Settlement::Settled,
                *policy,
            ) == Some(e),
        },
{
    let (total, hits) = match check_cart(
        store,
        products,
        product_uuids,
        quantities,
        total_amount_paid,
        policy.max_cart_items,
    ) {
        Ok(checked) => checked,
        Err(e) => {
            return Err(e);
        },
    };
    proof {
        assert forall|k: int| 0 <= k < hits@.len() implies 0 <= #[trigger] hits@[k] < products@.len() by {
            crate::product::lemma_locate(products@, store.id, product_uuids@[k]);
        }
    }
    compute_changes(
        store,
        products,
        profile.authority,
        profile.loyalty_balance,
        &hits,
        quantities,
        total,
        policy.reward_unit_price,
        Ghost(product_uuids@),
    )
}

/// Purchases a cart.
///
/// An attempt goes through these steps, and stops at the first that fails:
///
/// 1. Validating and pricing: the cart is checked and priced as
///    `validate_cart_and_payment` does it.
/// 2. Settling: `settlement` tells whether the payment service moved the
///    total from the buyer to the store's owner; if it did not, the attempt
///    ends with `SettlementFailed`.
/// 3. The new stock of every product, the store's revenue, the points
///    earned and the buyer's balance are computed with checked arithmetic
///    (`StockUnderflow`, `PriceOverflow`, `ArithmeticError`).  Nothing has
///    been written so far.
/// 4. Mutating: each product ordered loses the quantity ordered of it, the
///    store's revenue grows by the total, the buyer's balance grows by the
///    points earned, and a summary of the purchase joins the buyer's
///    history, from which the oldest entry leaves when it is full.  This
///    step cannot fail.
/// 5. Emitting: the receipt is returned with status `Success`, together
///    with the notice of the points earned where the store's loyalty
///    programme applied.
///
/// On any error the store, the products and the profile are exactly as
/// they were, and there is no receipt.  The exclusive borrows keep every
/// other writer away from the three records for the length of the call.
pub fn purchase_cart(
    store: &mut Store,
    products: &mut Vec<Product>,
    profile: &mut UserProfile,
    product_uuids: Vec<[u8; 16]>,
    quantities: Vec<u64>,
    total_amount_paid: u64,
    gas_fee: u64,
    settlement: Settlement,
    transaction_id: Identity,
    now: i64,
    policy: &PurchasePolicy,
) -> (r: Result<PurchaseOutcome, CustomError>)
    ensures
        match r {
            Ok(outcome) => {
                let total = cart_total(
                    old(products)@,
                    old(store).id,
                    product_uuids@,
                    quantities@,
                ) as u64;
                let points = points_of(
                    *old(store),
                    old(products)@,
                    product_uuids@,
                    quantities@,
                    *policy,
                );
                &&& purchase_error(
                    *old(store),
                    old(products)@,
                    old(profile).loyalty_balance,
                    product_uuids@,
                    quantities@,
                    total_amount_paid,
                    settlement,
                    *policy,
                ) is None
                &&& total == sum(
                    line_totals(old(products)@, old(store).id, product_uuids@, quantities@),
                )
                &&& total <= total_amount_paid
                &&& *final(store) == (Store {
                    revenue: (old(store).revenue + total) as u64,
                    ..*old(store)
                })
                &&& old(store).revenue + total <= u64::MAX
                &&& final(products)@ == catalog_after(
                    old(products)@,
                    old(store).id,
                    product_uuids@,
                    quantities@,
                )
                &&& !has_oversold_product(
                    old(products)@,
                    old(store).id,
                    product_uuids@,
                    quantities@,
                )
                &&& final(profile).same_details(*old(profile))
                &&& final(profile).loyalty_balance == old(profile).loyalty_balance + points
                &&& final(profile).purchase_history@ == history_with(
                    old(profile).purchase_history@,
                    PurchaseRecord {
                        store_id: old(store).id,
                        transaction_id,
                        amount: total,
                        loyalty_earned: points,
                        timestamp: now,
                    },
                )
                &&& final(profile).purchase_history@.len() <= UserProfile::MAX_PURCHASE_HISTORY
                &&& outcome.receipt@ == (PurchaseView {
                    product_uuids: product_uuids@,
                    quantities: quantities@,
                    total_paid: total,
                    gas_fee,
                    status: TransactionStatus::Success,
                    anomaly_flag: None,
                    store: old(store).id,
                    buyer: old(profile).authority,
                    timestamp: now,
                })
                &&& outcome.loyalty == (if accrual_applies(old(store).loyalty_config, total) {
                    Some(
                        LoyaltyPointsEarned {
                            user: old(profile).authority,
                            store_id: old(store).id,
                            points_earned: points,
                            total_points: (old(profile).loyalty_balance + points) as u64,
                            timestamp: now,
                        },
                    )
                } else {
                    None
                })
            },
            Err(e) => {
                &&& purchase_error(
                    *old(store),
                    old(products)@,
                    old(profile).loyalty_balance,
                    product_uuids@,
                    quantities@,
                    total_amount_paid,
                    settlement,
                    *policy,
                ) == Some(e)
                &&& *final(store) == *old(store)
                &&& *final(products) == *old(products)
                &&& *final(profile) == *old(profile)
            },
        },
{
    let (total, hits) = match check_cart(
        store,
        products.as_slice(),
        product_uuids.as_slice(),
        quantities.as_slice(),
        total_amount_paid,
        policy.max_cart_items,
    ) {
        Ok(checked) => checked,
        Err(e) => {
            return Err(e);
        },
    };
    match settlement {
        Settlement::Settled => {},
        Settlement::Failed => {
            return Err(CustomError::SettlementFailed);
        },
    }
    proof {
        assert forall|k: int| 0 <= k < hits@.len() implies 0 <= #[trigger] hits@[k] < products@.len() by {
            crate::product::lemma_locate(products@, store.id, product_uuids@[k]);
        }
    }
    let plan = match compute_changes(
        store,
        products.as_slice(),
        profile.authority,
        profile.loyalty_balance,
        &hits,
        quantities.as_slice(),
        total,
        policy.reward_unit_price,
        Ghost(product_uuids@),
    ) {
        Ok(plan) => plan,
        Err(e) => {
            return Err(e);
        },
    };
    let ghost before = products@;
    let mut j: usize = 0;
    while j < products.len()
        invariant
            j <= products.len(),
            products@.len() == before.len(),
            plan.stocks@.len() == before.len(),
            forall|k: int|
                0 <= k < j ==> #[trigger] products@[k] == (Product {
                    stock: plan.stocks@[k],
                    ..before[k]
                }),
            forall|k: int| j <= k < before.len() ==> #[trigger] products@[k] == before[k],
        decreases products.len() - j,
    {
        products[j].stock = plan.stocks[j];
        j += 1;
    }
    store.revenue = plan.revenue;
    profile.loyalty_balance = plan.loyalty_balance;
    let record = PurchaseRecord {
        store_id: store.id,
        transaction_id,
        amount: total,
        loyalty_earned: plan.points_earned,
        timestamp: now,
    };
    record_purchase(&mut profile.purchase_history, record);
    let loyalty = if store.loyalty_config.is_active && total >= store.loyalty_config.minimum_purchase {
        Some(
            LoyaltyPointsEarned {
                user: profile.authority,
                store_id: store.id,
                points_earned: plan.points_earned,
                total_points: plan.loyalty_balance,
                timestamp: now,
            },
        )
    } else {
        None
    };
    let receipt = Purchase::new(
        store.id,
        profile.authority,
        product_uuids,
        quantities,
        total,
        gas_fee,
        TransactionStatus::Success,
        None,
        now,
    );
    Ok(PurchaseOutcome { receipt, loyalty })
}

} // verus!
