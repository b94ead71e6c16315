//! What holds of every purchase: proofs that relate the cart, the catalog
//! before and the catalog after.

use vstd::prelude::*;
use crate::cart::{
    cart_total, line_listed, line_record, line_short, line_totals, sum, validation_error,
};
use crate::error::CustomError;
use crate::identity::Identity;
use crate::product::{first_listing, lemma_locate, lemma_locate_found, locate, Product};
use crate::purchase::{
    catalog_after, demand, has_oversold_product, line_demands, oversold, product_after,
    purchase_error, PurchasePolicy, Settlement,
};
use crate::store::Store;

verus! {

/// The total of a cart that passes every check is exactly the sum of its
/// line totals, and the amount tendered covers it.
pub proof fn lemma_valid_cart_total(
    store: Store,
    products: Seq<Product>,
    uuids: Seq<[u8; 16]>,
    quantities: Seq<u64>,
    amount_tendered: u64,
    max_items: usize,
)
    requires
        validation_error(store, products, uuids, quantities, amount_tendered, max_items) is None,
    ensures
        cart_total(products, store.id, uuids, quantities) == sum(
            line_totals(products, store.id, uuids, quantities),
        ),
        cart_total(products, store.id, uuids, quantities) <= amount_tendered,
{
}

/// A cart whose two lists differ in length is rejected with `InvalidCart`,
/// whatever it names, whatever is tendered and however the payment went.
pub proof fn lemma_mismatched_lists_rejected(
    store: Store,
    products: Seq<Product>,
    balance: u64,
    uuids: Seq<[u8; 16]>,
    quantities: Seq<u64>,
    amount_tendered: u64,
    settlement: Settlement,
    policy: PurchasePolicy,
)
    requires
        uuids.len() != quantities.len(),
    ensures
        purchase_error(
            store,
            products,
            balance,
            uuids,
            quantities,
            amount_tendered,
            settlement,
            policy,
        ) == Some(CustomError::InvalidCart),
{
}

/// Replacing one amount changes the sum by the difference.
pub proof fn lemma_sum_update(values: Seq<int>, i: int, amount: int)
    requires
        0 <= i < values.len(),
    ensures
        sum(values.update(i, amount)) == sum(values) - values[i] + amount,
    decreases values.len(),
{
    if i == values.len() - 1 {
        assert(values.update(i, amount).drop_last() =~= values.drop_last());
    } else {
        lemma_sum_update(values.drop_last(), i, amount);
        assert(values.update(i, amount).drop_last() =~= values.drop_last().update(i, amount));
    }
}

/// A sequence of zeros sums to zero.
pub proof fn lemma_sum_zeros(values: Seq<int>)
    requires
        forall|k: int| 0 <= k < values.len() ==> values[k] == 0,
    ensures
        sum(values) == 0,
    decreases values.len(),
{
    if values.len() > 0 {
        lemma_sum_zeros(values.drop_last());
    }
}

/// Where every amount but the one at `i` is zero, the sum is that amount.
pub proof fn lemma_sum_single(values: Seq<int>, i: int)
    requires
        0 <= i < values.len(),
        forall|k: int| 0 <= k < values.len() && k != i ==> values[k] == 0,
    ensures
        sum(values) == values[i],
{
    let zeros = values.update(i, 0);
    lemma_sum_zeros(zeros);
    lemma_sum_update(zeros, i, values[i]);
    assert(zeros.update(i, values[i]) =~= values);
}

/// The cart with lines `a` and `b` exchanged.
pub open spec fn swap_lines<T>(lines: Seq<T>, a: int, b: int) -> Seq<T> {
    lines.update(a, lines[b]).update(b, lines[a])
}

/// The total of a cart does not depend on the order of its lines:
/// exchanging any two lines leaves it unchanged.
pub proof fn lemma_total_ignores_line_order(
    products: Seq<Product>,
    store_id: Identity,
    uuids: Seq<[u8; 16]>,
    quantities: Seq<u64>,
    a: int,
    b: int,
)
    requires
        uuids.len() == quantities.len(),
        0 <= a < uuids.len(),
        0 <= b < uuids.len(),
    ensures
        cart_total(products, store_id, swap_lines(uuids, a, b), swap_lines(quantities, a, b))
            == cart_total(products, store_id, uuids, quantities),
{
    let totals = line_totals(products, store_id, uuids, quantities);
    let swapped = line_totals(
        products,
        store_id,
        swap_lines(uuids, a, b),
        swap_lines(quantities, a, b),
    );
    assert(swapped =~= totals.update(a, totals[b]).update(b, totals[a]));
    lemma_sum_update(totals, a, totals[b]);
    lemma_sum_update(totals.update(a, totals[b]), b, totals[a]);
}

/// No two lines of the cart name the same product.
pub open spec fn distinct_lines(uuids: Seq<[u8; 16]>) -> bool {
    forall|a: int, b: int| 0 <= a < b < uuids.len() ==> uuids[a] != uuids[b]
}

/// In a cart that names no product twice, the product of a line loses
/// exactly the quantity of that line, and nothing else of it changes.
pub proof fn lemma_line_takes_its_quantity(
    products: Seq<Product>,
    store_id: Identity,
    uuids: Seq<[u8; 16]>,
    quantities: Seq<u64>,
    i: int,
)
    requires
        uuids.len() == quantities.len(),
        0 <= i < uuids.len(),
        distinct_lines(uuids),
        locate(products, store_id, uuids[i]) is Some,
    ensures
        ({
            let j = locate(products, store_id, uuids[i]).unwrap();
            &&& 0 <= j < products.len()
            &&& demand(products, store_id, uuids, quantities, j) == quantities[i]
            &&& catalog_after(products, store_id, uuids, quantities)[j] == (Product {
                stock: (products[j].stock - quantities[i]) as u64,
                ..products[j]
            })
        }),
{
    let j = locate(products, store_id, uuids[i]).unwrap();
    lemma_locate(products, store_id, uuids[i]);
    let demands = line_demands(products, store_id, uuids, quantities, j);
    assert forall|k: int| 0 <= k < demands.len() && k != i implies demands[k] == 0 by {
        if locate(products, store_id, uuids[k]) == Some(j) {
            lemma_locate(products, store_id, uuids[k]);
            assert(uuids[k] == uuids[i]);
            if k < i {
                assert(uuids[k] != uuids[i]);
            } else {
                assert(uuids[i] != uuids[k]);
            }
        }
    }
    lemma_sum_single(demands, i);
}

/// After a successful purchase of a cart that names no product twice, the
/// product of every line has exactly that line's quantity less in stock,
/// and is otherwise as it was.
pub proof fn lemma_purchase_takes_each_quantity(
    store: Store,
    products: Seq<Product>,
    balance: u64,
    uuids: Seq<[u8; 16]>,
    quantities: Seq<u64>,
    amount_tendered: u64,
    policy: PurchasePolicy,
    i: int,
)
    requires
        purchase_error(
            store,
            products,
            balance,
            uuids,
            quantities,
            amount_tendered,
            Settlement::Settled,
            policy,
        ) is None,
        distinct_lines(uuids),
        0 <= i < uuids.len(),
    ensures
        ({
            let before = line_record(products, store.id, uuids[i]);
            let after = line_record(
                catalog_after(products, store.id, uuids, quantities),
                store.id,
                uuids[i],
            );
            &&& quantities[i] <= before.stock
            &&& after == (Product { stock: (before.stock - quantities[i]) as u64, ..before })
        }),
{
    assert(line_listed(products, store.id, uuids[i]));
    lemma_line_takes_its_quantity(products, store.id, uuids, quantities, i);
    lemma_locate_after_purchase(products, store.id, uuids, quantities, uuids[i]);
    let j = locate(products, store.id, uuids[i]).unwrap();
    assert(!oversold(products, store.id, uuids, quantities, j));
}

/// A cart that passed its checks and names no product twice cannot run a
/// product out of stock: for such a cart `StockUnderflow` does not occur.
pub proof fn lemma_checked_cart_cannot_underflow(
    store: Store,
    products: Seq<Product>,
    uuids: Seq<[u8; 16]>,
    quantities: Seq<u64>,
    amount_tendered: u64,
    max_items: usize,
)
    requires
        validation_error(store, products, uuids, quantities, amount_tendered, max_items) is None,
        distinct_lines(uuids),
    ensures
        !has_oversold_product(products, store.id, uuids, quantities),
{
    assert forall|j: int| 0 <= j < products.len() implies !oversold(
        products,
        store.id,
        uuids,
        quantities,
        j,
    ) by {
        if exists|i: int|
            0 <= i < uuids.len() && locate(products, store.id, #[trigger] uuids[i]) == Some(j) {
            let i = choose|i: int|
                0 <= i < uuids.len() && locate(products, store.id, #[trigger] uuids[i]) == Some(j);
            lemma_line_takes_its_quantity(products, store.id, uuids, quantities, i);
            assert(!line_short(products, store.id, uuids, quantities, i));
        } else {
            lemma_sum_zeros(line_demands(products, store.id, uuids, quantities, j));
        }
    }
}

/// A product that no line of the cart refers to is not changed by the
/// purchase.
pub proof fn lemma_unordered_product_unchanged(
    products: Seq<Product>,
    store_id: Identity,
    uuids: Seq<[u8; 16]>,
    quantities: Seq<u64>,
    j: int,
)
    requires
        0 <= j < products.len(),
        forall|i: int| 0 <= i < uuids.len() ==> locate(products, store_id, #[trigger] uuids[i]) != Some(j),
    ensures
        catalog_after(products, store_id, uuids, quantities)[j] == products[j],
{
    lemma_sum_zeros(line_demands(products, store_id, uuids, quantities, j));
}

/// A purchase changes the stock of records only, so every cart line
/// refers to the same record before and after it.
pub proof fn lemma_locate_after_purchase(
    products: Seq<Product>,
    store_id: Identity,
    uuids: Seq<[u8; 16]>,
    quantities: Seq<u64>,
    uuid: [u8; 16],
)
    ensures
        locate(catalog_after(products, store_id, uuids, quantities), store_id, uuid) == locate(
            products,
            store_id,
            uuid,
        ),
{
    let after = catalog_after(products, store_id, uuids, quantities);
    assert forall|k: int| 0 <= k < products.len() implies (#[trigger] after[k]).is_listing(
        store_id,
        uuid,
    ) == products[k].is_listing(store_id, uuid) by {}
    lemma_locate(products, store_id, uuid);
    lemma_locate(after, store_id, uuid);
    match locate(products, store_id, uuid) {
        Some(j) => {
            assert(first_listing(after, store_id, uuid, j)) by {
                assert(after[j].is_listing(store_id, uuid));
                assert forall|k: int| 0 <= k < j implies !(#[trigger] after[k]).is_listing(
                    store_id,
                    uuid,
                ) by {
                    assert(!products[k].is_listing(store_id, uuid));
                }
            }
            lemma_locate_found(after, store_id, uuid, j);
        },
        None => {
            if locate(after, store_id, uuid) is Some {
                let j = locate(after, store_id, uuid).unwrap();
                assert(after[j].is_listing(store_id, uuid));
                assert(products[j].is_listing(store_id, uuid));
            }
        },
    }
}

/// Of two purchases that together order more of a product than is on
/// hand, only the first succeeds: once it has been applied, the second is
/// refused with `InsufficientStock`, whatever else it orders.
///
/// `second_line` is a line of the second cart whose quantity, added to what
/// the first cart ordered of the same product, exceeds the stock.
pub proof fn lemma_competing_purchase_refused(
    store: Store,
    products: Seq<Product>,
    first_balance: u64,
    first_uuids: Seq<[u8; 16]>,
    first_quantities: Seq<u64>,
    first_tendered: u64,
    second_uuids: Seq<[u8; 16]>,
    second_quantities: Seq<u64>,
    second_tendered: u64,
    policy: PurchasePolicy,
    second_line: int,
)
    requires
        purchase_error(
            store,
            products,
            first_balance,
            first_uuids,
            first_quantities,
            first_tendered,
            Settlement::Settled,
            policy,
        ) is None,
        validation_error(
            store,
            products,
            second_uuids,
            second_quantities,
            second_tendered,
            policy.max_cart_items,
        ) is None,
        0 <= second_line < second_uuids.len(),
        demand(
            products,
            store.id,
            first_uuids,
            first_quantities,
            locate(products, store.id, second_uuids[second_line]).unwrap(),
        ) + second_quantities[second_line] > line_record(
            products,
            store.id,
            second_uuids[second_line],
        ).stock,
    ensures
        ({
            let store_after = Store {
                revenue: (store.revenue + cart_total(
                    products,
                    store.id,
                    first_uuids,
                    first_quantities,
                )) as u64,
                ..store
            };
            let catalog = catalog_after(products, store.id, first_uuids, first_quantities);
            &&& validation_error(
                store_after,
                catalog,
                second_uuids,
                second_quantities,
                second_tendered,
                policy.max_cart_items,
            ) == Some(CustomError::InsufficientStock)
            &&& forall|balance: u64, settlement: Settlement| #[trigger]
                purchase_error(
                    store_after,
                    catalog,
                    balance,
                    second_uuids,
                    second_quantities,
                    second_tendered,
                    settlement,
                    policy,
                ) == Some(CustomError::InsufficientStock)
            &&& forall|j: int|
                0 <= j < products.len() ==> 0 <= (#[trigger] catalog[j]).stock
                    == products[j].stock - demand(
                    products,
                    store.id,
                    first_uuids,
                    first_quantities,
                    j,
                )
        }),
{
    let after = catalog_after(products, store.id, first_uuids, first_quantities);
    assert forall|i: int| 0 <= i < second_uuids.len() implies line_listed(
        after,
        store.id,
        #[trigger] second_uuids[i],
    ) by {
        lemma_locate_after_purchase(
            products,
            store.id,
            first_uuids,
            first_quantities,
            second_uuids[i],
        );
        lemma_locate(products, store.id, second_uuids[i]);
        assert(line_listed(products, store.id, second_uuids[i]));
    }
    lemma_locate_after_purchase(
        products,
        store.id,
        first_uuids,
        first_quantities,
        second_uuids[second_line],
    );
    lemma_locate(products, store.id, second_uuids[second_line]);
    assert(line_listed(products, store.id, second_uuids[second_line]));
    let j = locate(products, store.id, second_uuids[second_line]).unwrap();
    assert(!oversold(products, store.id, first_uuids, first_quantities, j));
    assert(after[j] == product_after(products, store.id, first_uuids, first_quantities, j));
    assert(line_short(after, store.id, second_uuids, second_quantities, second_line));
    assert forall|k: int| 0 <= k < products.len() implies 0 <= (#[trigger] after[k]).stock
        == products[k].stock - demand(products, store.id, first_uuids, first_quantities, k) by {
        assert(!oversold(products, store.id, first_uuids, first_quantities, k));
        crate::cart::lemma_sum_nonnegative(
            line_demands(products, store.id, first_uuids, first_quantities, k),
        );
    }
}

} // verus!
