//! The cart of one purchase attempt: what its lines refer to, what they
//! cost, and the checks a cart must pass before any payment is taken.

use vstd::prelude::*;
use crate::error::CustomError;
use crate::identity::Identity;
use crate::product::{find_product, locate, Product};
use crate::store::Store;

verus! {

/// Default limit on the number of lines of one cart.
pub const MAX_CART_ITEMS: usize = 5;

/// Sum of a sequence of amounts.
pub open spec fn sum(values: Seq<int>) -> int
    decreases values.len(),
{
    if values.len() == 0 {
        0
    } else {
        sum(values.drop_last()) + values.last()
    }
}

/// The catalog record that a cart line for `uuid` refers to.
pub open spec fn line_record(products: Seq<Product>, store_id: Identity, uuid: [u8; 16]) -> Product {
    products[locate(products, store_id, uuid).unwrap()]
}

/// The product of a cart line exists in the store and is on sale.
pub open spec fn line_listed(products: Seq<Product>, store_id: Identity, uuid: [u8; 16]) -> bool {
    locate(products, store_id, uuid) is Some && line_record(products, store_id, uuid).is_active
}

/// Price of one cart line: unit price times quantity.
pub open spec fn line_total(
    products: Seq<Product>,
    store_id: Identity,
    uuid: [u8; 16],
    quantity: u64,
) -> int {
    line_record(products, store_id, uuid).price * quantity
}

/// The price of every line of the cart, in cart order.
pub open spec fn line_totals(
    products: Seq<Product>,
    store_id: Identity,
    uuids: Seq<[u8; 16]>,
    quantities: Seq<u64>,
) -> Seq<int> {
    Seq::new(uuids.len(), |i: int| line_total(products, store_id, uuids[i], quantities[i]))
}

/// Price of the whole cart.
pub open spec fn cart_total(
    products: Seq<Product>,
    store_id: Identity,
    uuids: Seq<[u8; 16]>,
    quantities: Seq<u64>,
) -> int {
    sum(line_totals(products, store_id, uuids, quantities))
}

/// Some line orders nothing.
pub open spec fn has_empty_line(quantities: Seq<u64>) -> bool {
    exists|i: int| 0 <= i < quantities.len() && quantities[i] == 0
}

/// Some line names a product that the store does not list or no longer sells.
pub open spec fn has_unlisted_line(
    products: Seq<Product>,
    store_id: Identity,
    uuids: Seq<[u8; 16]>,
) -> bool {
    exists|i: int| 0 <= i < uuids.len() && !line_listed(products, store_id, #[trigger] uuids[i])
}

/// Line `i` orders more than its product has on hand.
pub open spec fn line_short(
    products: Seq<Product>,
    store_id: Identity,
    uuids: Seq<[u8; 16]>,
    quantities: Seq<u64>,
    i: int,
) -> bool {
    line_record(products, store_id, uuids[i]).stock < quantities[i]
}

/// Some line orders more than its product has on hand.
pub open spec fn has_short_line(
    products: Seq<Product>,
    store_id: Identity,
    uuids: Seq<[u8; 16]>,
    quantities: Seq<u64>,
) -> bool {
    exists|i: int| 0 <= i < uuids.len() && line_short(products, store_id, uuids, quantities, i)
}

/// The first check a cart fails, in the order in which the checks are made;
/// `None` for a cart that may proceed to settlement.
pub open spec fn validation_error(
    store: Store,
    products: Seq<Product>,
    uuids: Seq<[u8; 16]>,
    quantities: Seq<u64>,
    amount_tendered: u64,
    max_items: usize,
) -> Option<CustomError> {
    if uuids.len() == 0 || uuids.len() != quantities.len() {
        Some(CustomError::InvalidCart)
    } else if uuids.len() > max_items {
        Some(CustomError::CartTooLarge)
    } else if has_empty_line(quantities) {
        Some(CustomError::InvalidCart)
    } else if has_unlisted_line(products, store.id, uuids) {
        Some(CustomError::ProductNotFound)
    } else if has_short_line(products, store.id, uuids, quantities) {
        Some(CustomError::InsufficientStock)
    } else if !store.is_active {
        Some(CustomError::StoreInactive)
    } else if cart_total(products, store.id, uuids, quantities) > u64::MAX {
        Some(CustomError::PriceOverflow)
    } else if amount_tendered < cart_total(products, store.id, uuids, quantities) {
        Some(CustomError::InsufficientPayment)
    } else {
        None
    }
}

/// A sum of non-negative amounts is non-negative.
pub proof fn lemma_sum_nonnegative(values: Seq<int>)
    requires
        forall|i: int| 0 <= i < values.len() ==> values[i] >= 0,
    ensures
        sum(values) >= 0,
    decreases values.len(),
{
    if values.len() > 0 {
        lemma_sum_nonnegative(values.drop_last());
    }
}

/// Among non-negative amounts, the sum of the first `n` is at most the sum
/// of all.
pub proof fn lemma_sum_prefix(values: Seq<int>, n: int)
    requires
        0 <= n <= values.len(),
        forall|i: int| 0 <= i < values.len() ==> values[i] >= 0,
    ensures
        sum(values.subrange(0, n)) <= sum(values),
    decreases values.len(),
{
    if n == values.len() {
        assert(values.subrange(0, n) =~= values);
    } else {
        lemma_sum_prefix(values.drop_last(), n);
        assert(values.drop_last().subrange(0, n) =~= values.subrange(0, n));
    }
}

/// Extending a prefix by one amount adds that amount to its sum.
pub proof fn lemma_sum_step(values: Seq<int>, n: int)
    requires
        0 <= n < values.len(),
    ensures
        sum(values.subrange(0, n + 1)) == sum(values.subrange(0, n)) + values[n],
{
    assert(values.subrange(0, n + 1).drop_last() =~= values.subrange(0, n));
}

/// Finds the catalog record of every cart line.  Fails with
/// `ProductNotFound` when some line names a product that the store does not
/// list or no longer sells.
pub fn resolve_lines(products: &[Product], store_id: &Identity, product_uuids: &[[u8; 16]]) -> (r:
    Result<Vec<usize>, CustomError>)
    ensures
        match r {
            Ok(hits) => {
                &&& !has_unlisted_line(products@, *store_id, product_uuids@)
                &&& hits@.len() == product_uuids@.len()
                &&& forall|i: int|
                    0 <= i < hits@.len() ==> locate(products@, *store_id, product_uuids@[i])
                        == Some(#[trigger] hits@[i] as int)
            },
            Err(e) => e == CustomError::ProductNotFound && has_unlisted_line(
                products@,
                *store_id,
                product_uuids@,
            ),
        },
{
    let mut hits: Vec<usize> = Vec::new();
    let mut i: usize = 0;
    while i < product_uuids.len()
        invariant
            i <= product_uuids.len(),
            hits@.len() == i,
            forall|k: int|
                0 <= k < i ==> locate(products@, *store_id, product_uuids@[k]) == Some(
                    #[trigger] hits@[k] as int,
                ),
            forall|k: int| 0 <= k < i ==> line_listed(products@, *store_id, #[trigger] product_uuids@[k]),
        decreases product_uuids.len() - i,
    {
        match find_product(products, store_id, &product_uuids[i]) {
            Some(j) => {
                proof {
                    crate::product::lemma_locate(products@, *store_id, product_uuids@[i as int]);
                }
                if !products[j].is_active {
                    return Err(CustomError::ProductNotFound);
                }
                hits.push(j);
            },
            None => {
                return Err(CustomError::ProductNotFound);
            },
        }
        i += 1;
    }
    Ok(hits)
}

/// Prices a cart whose lines were resolved: the checked sum of the checked
/// products of unit price and quantity, taken in cart order.
fn price_lines(
    products: &[Product],
    hits: &Vec<usize>,
    quantities: &[u64],
    Ghost(store_id): Ghost<Identity>,
    Ghost(uuids): Ghost<Seq<[u8; 16]>>,
) -> (r: Result<u64, CustomError>)
    requires
        uuids.len() == quantities@.len(),
        hits@.len() == uuids.len(),
        forall|i: int|
            0 <= i < hits@.len() ==> locate(products@, store_id, uuids[i]) == Some(
                #[trigger] hits@[i] as int,
            ),
        forall|i: int| 0 <= i < hits@.len() ==> 0 <= #[trigger] hits@[i] < products@.len(),
    ensures
        match r {
            Ok(total) => total == cart_total(products@, store_id, uuids, quantities@),
            Err(e) => e == CustomError::PriceOverflow && cart_total(
                products@,
                store_id,
                uuids,
                quantities@,
            ) > u64::MAX,
        },
{
    let ghost totals = line_totals(products@, store_id, uuids, quantities@);
    assert(forall|i: int| 0 <= i < totals.len() ==> totals[i] >= 0) by {
        assert forall|i: int| 0 <= i < totals.len() implies totals[i] >= 0 by {
            assert(line_record(products@, store_id, uuids[i]).price * quantities@[i] >= 0)
                by (nonlinear_arith)
                requires
                    line_record(products@, store_id, uuids[i]).price >= 0,
                    quantities@[i] >= 0,
            ;
        }
    }
    let mut total: u64 = 0;
    let mut i: usize = 0;
    while i < quantities.len()
        invariant
            i <= quantities.len(),
            uuids.len() == quantities@.len(),
            hits@.len() == uuids.len(),
            totals == line_totals(products@, store_id, uuids, quantities@),
            forall|k: int| 0 <= k < totals.len() ==> totals[k] >= 0,
            forall|k: int|
                0 <= k < hits@.len() ==> locate(products@, store_id, uuids[k]) == Some(
                    #[trigger] hits@[k] as int,
                ),
            forall|k: int| 0 <= k < hits@.len() ==> 0 <= #[trigger] hits@[k] < products@.len(),
            total == sum(totals.subrange(0, i as int)),
        decreases quantities.len() - i,
    {
        proof {
            lemma_sum_step(totals, i as int);
            lemma_sum_prefix(totals, i + 1);
        }
        let j = hits[i];
        let item_total = match products[j].price.checked_mul(quantities[i]) {
            Some(v) => v,
            None => {
                proof {
                    lemma_sum_nonnegative(totals.subrange(0, i as int));
                }
                return Err(CustomError::PriceOverflow);
            },
        };
        total = match total.checked_add(item_total) {
            Some(v) => v,
            None => {
                return Err(CustomError::PriceOverflow);
            },
        };
        i += 1;
    }
    assert(totals.subrange(0, i as int) =~= totals);
    Ok(total)
}

/// Runs every check that precedes settlement and prices the cart; besides
/// the total it hands back the catalog position of every line.
#[verifier::loop_isolation(false)]
pub(crate) fn check_cart(
    store: &Store,
    products: &[Product],
    product_uuids: &[[u8; 16]],
    quantities: &[u64],
    total_amount_paid: u64,
    max_items: usize,
) -> (r: Result<(u64, Vec<usize>), CustomError>)
    ensures
        match r {
            Ok((total, hits)) => {
                &&& validation_error(
                    *store,
                    products@,
                    product_uuids@,
                    quantities@,
                    total_amount_paid,
                    max_items,
                ) is None
                &&& total == cart_total(products@, store.id, product_uuids@, quantities@)
                &&& hits@.len() == product_uuids@.len()
                &&& forall|i: int|
                    0 <= i < hits@.len() ==> locate(products@, store.id, product_uuids@[i])
                        == Some(#[trigger] hits@[i] as int)
            },
            Err(e) => validation_error(
                *store,
                products@,
                product_uuids@,
                quantities@,
                total_amount_paid,
                max_items,
            ) == Some(e),
        },
{
    if product_uuids.len() == 0 || product_uuids.len() != quantities.len() {
        return Err(CustomError::InvalidCart);
    }
    if product_uuids.len() > max_items {
        return Err(CustomError::CartTooLarge);
    }
    let n = product_uuids.len();
    let mut i: usize = 0;
    while i < n
        invariant
            i <= n,
            n == quantities@.len(),
            forall|k: int| 0 <= k < i ==> quantities@[k] != 0,
        decreases n - i,
    {
        if quantities[i] == 0 {
            return Err(CustomError::InvalidCart);
        }
        i += 1;
    }
    let hits = match resolve_lines(products, &store.id, product_uuids) {
        Ok(hits) => hits,
        Err(e) => {
            return Err(e);
        },
    };
    assert forall|k: int| 0 <= k < hits@.len() implies 0 <= #[trigger] hits@[k] < products@.len() by {
        crate::product::lemma_locate(products@, store.id, product_uuids@[k]);
    }
    let mut i: usize = 0;
    while i < n
        invariant
            i <= n,
            n == quantities@.len(),
            n == product_uuids@.len(),
            hits@.len() == n,
            forall|k: int|
                0 <= k < hits@.len() ==> locate(products@, store.id, product_uuids@[k]) == Some(
                    #[trigger] hits@[k] as int,
                ),
            forall|k: int| 0 <= k < hits@.len() ==> 0 <= #[trigger] hits@[k] < products@.len(),
            forall|k: int|
                0 <= k < i ==> !line_short(products@, store.id, product_uuids@, quantities@, k),
        decreases n - i,
    {
        let j = hits[i];
        if products[j].stock < quantities[i] {
            assert(line_short(products@, store.id, product_uuids@, quantities@, i as int));
            return Err(CustomError::InsufficientStock);
        }
        i += 1;
    }
    if !store.is_active {
        return Err(CustomError::StoreInactive);
    }
    let total = match price_lines(products, &hits, quantities, Ghost(store.id), Ghost(product_uuids@)) {
        Ok(total) => total,
        Err(e) => {
            return Err(e);
        },
    };
    if total_amount_paid < total {
        return Err(CustomError::InsufficientPayment);
    }
    Ok((total, hits))
}

/// Checks a cart against the store and its catalog and prices it.
///
/// The checks are made in this order, and the first that fails decides the
/// error: the two lists are non-empty and of equal length (`InvalidCart`);
/// the cart has at most `max_items` lines (`CartTooLarge`); every quantity
/// is positive (`InvalidCart`); every product is listed by the store and on
/// sale (`ProductNotFound`); every line is covered by the stock on hand
/// (`InsufficientStock`); the store is active (`StoreInactive`); the total
/// fits in 64 bits (`PriceOverflow`); the amount tendered covers the total
/// (`InsufficientPayment`).  On success the total is returned.  An amount
/// above the total is accepted; no change is computed.
pub fn validate_cart_and_payment(
    store: &Store,
    products: &[Product],
    product_uuids: &[[u8; 16]],
    quantities: &[u64],
    total_amount_paid: u64,
    max_items: usize,
) -> (r: Result<u64, CustomError>)
    ensures
        match r {
            Ok(total) => {
                &&& validation_error(
                    *store,
                    products@,
                    product_uuids@,
                    quantities@,
                    total_amount_paid,
                    max_items,
                ) is None
                &&& total == sum(line_totals(products@, store.id, product_uuids@, quantities@))
                &&& total == cart_total(products@, store.id, product_uuids@, quantities@)
                &&& total <= total_amount_paid
            },
            Err(e) => validation_error(
                *store,
                products@,
                product_uuids@,
                quantities@,
                total_amount_paid,
                max_items,
            ) == Some(e),
        },
{
    match check_cart(store, products, product_uuids, quantities, total_amount_paid, max_items) {
        Ok((total, _)) => Ok(total),
        Err(e) => Err(e),
    }
}

} // verus!
