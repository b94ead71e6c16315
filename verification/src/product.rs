//! Product records and the catalog lookup the purchase engine relies on.

use vstd::prelude::*;
use crate::error::CustomError;
use crate::identity::{same_uuid, Identity};
use crate::types::TokenizedType;

verus! {

/// A sellable item of one store.
#[derive(Clone, Debug, PartialEq, Eq)]
pub struct Product {
    /// Identifier of the product, unique within its store.
    pub uuid: [u8; 16],
    /// Unit price; positive for every registered product.
    pub price: u64,
    /// Units on hand.
    pub stock: u64,
    pub tokenized_type: TokenizedType,
    pub is_active: bool,
    pub metadata_uri: String,
    /// The store that owns the product.
    pub store: Identity,
    /// Who may edit the product.
    pub authority: Identity,
}

impl Product {
    /// Bytes reserved for one stored product.
    pub const LEN: usize = 8 + 16 + 8 + 8 + 1 + (4 + 200) + 32 + 32;

    /// The record describes product `uuid` of store `store_id`.
    pub open spec fn is_listing(self, store_id: Identity, uuid: [u8; 16]) -> bool {
        self.uuid == uuid && self.store == store_id
    }

    /// The pricing invariant of a catalog entry.
    pub open spec fn well_formed(self) -> bool {
        self.price > 0
    }
}

/// `j` is the position of the first record for product `uuid` of store
/// `store_id`.
pub open spec fn first_listing(
    products: Seq<Product>,
    store_id: Identity,
    uuid: [u8; 16],
    j: int,
) -> bool {
    &&& 0 <= j < products.len()
    &&& products[j].is_listing(store_id, uuid)
    &&& forall|k: int| 0 <= k < j ==> !(#[trigger] products[k]).is_listing(store_id, uuid)
}

/// Position of the record that a cart line for `uuid` refers to, if the
/// catalog has one.
pub open spec fn locate(products: Seq<Product>, store_id: Identity, uuid: [u8; 16]) -> Option<int> {
    if exists|j: int| first_listing(products, store_id, uuid, j) {
        Some(choose|j: int| first_listing(products, store_id, uuid, j))
    } else {
        None
    }
}

/// A catalog has at most one first record for a product.
pub proof fn lemma_locate_found(products: Seq<Product>, store_id: Identity, uuid: [u8; 16], j: int)
    requires
        first_listing(products, store_id, uuid, j),
    ensures
        locate(products, store_id, uuid) == Some(j),
{
    let c = choose|c: int| first_listing(products, store_id, uuid, c);
    assert(first_listing(products, store_id, uuid, c));
    if c < j {
        assert(!products[c].is_listing(store_id, uuid));
    }
    if j < c {
        assert(!products[j].is_listing(store_id, uuid));
    }
}

/// What `locate` returns, spelled out.
pub proof fn lemma_locate(products: Seq<Product>, store_id: Identity, uuid: [u8; 16])
    ensures
        match locate(products, store_id, uuid) {
            Some(j) => first_listing(products, store_id, uuid, j),
            None => forall|k: int|
                0 <= k < products.len() ==> !(#[trigger] products[k]).is_listing(store_id, uuid),
        },
{
    if locate(products, store_id, uuid) is None {
        assert forall|k: int| 0 <= k < products.len() implies !(#[trigger] products[k]).is_listing(
            store_id,
            uuid,
        ) by {
            if products[k].is_listing(store_id, uuid) {
                lemma_first_listing_exists(products, store_id, uuid, k);
            }
        }
    }
}

/// If some record within the first `n + 1` is a listing, there is a first one.
proof fn lemma_first_listing_exists(products: Seq<Product>, store_id: Identity, uuid: [u8; 16], n: int)
    requires
        0 <= n < products.len(),
        products[n].is_listing(store_id, uuid),
    ensures
        exists|j: int| first_listing(products, store_id, uuid, j),
    decreases n,
{
    if exists|k: int| 0 <= k < n && (#[trigger] products[k]).is_listing(store_id, uuid) {
        let k = choose|k: int| 0 <= k < n && (#[trigger] products[k]).is_listing(store_id, uuid);
        lemma_first_listing_exists(products, store_id, uuid, k);
    } else {
        assert(first_listing(products, store_id, uuid, n));
    }
}

/// Looks up the record of product `uuid` of store `store_id`.
pub fn find_product(products: &[Product], store_id: &Identity, uuid: &[u8; 16]) -> (found: Option<
    usize,
>)
    ensures
        match found {
            Some(j) => locate(products@, *store_id, *uuid) == Some(j as int),
            None => locate(products@, *store_id, *uuid) is None,
        },
{
    let mut j: usize = 0;
    while j < products.len()
        invariant
            j <= products.len(),
            forall|k: int| 0 <= k < j ==> !(#[trigger] products@[k]).is_listing(*store_id, *uuid),
        decreases products.len() - j,
    {
        if same_uuid(&products[j].uuid, uuid) && products[j].store.same_as(store_id) {
            proof {
                lemma_locate_found(products@, *store_id, *uuid, j as int);
            }
            return Some(j);
        }
        j += 1;
    }
    proof {
        if locate(products@, *store_id, *uuid) is Some {
            lemma_locate(products@, *store_id, *uuid);
        }
    }
    None
}

/// Registers a product of store `store_id`, on sale from the start.  A
/// price of zero is refused with `InvalidPrice`.
pub fn register_product(
    store_id: Identity,
    authority: Identity,
    product_uuid: [u8; 16],
    price: u64,
    stock: u64,
    tokenized_type: TokenizedType,
    metadata_uri: String,
) -> (r: Result<Product, CustomError>)
    ensures
        match r {
            Ok(product) => price > 0 && product.well_formed() && product == (Product {
                uuid: product_uuid,
                price,
                stock,
                tokenized_type,
                is_active: true,
                metadata_uri,
                store: store_id,
                authority,
            }),
            Err(e) => e == CustomError::InvalidPrice && price == 0,
        },
{
    if price == 0 {
        return Err(CustomError::InvalidPrice);
    }
    Ok(
        Product {
            uuid: product_uuid,
            price,
            stock,
            tokenized_type,
            is_active: true,
            metadata_uri,
            store: store_id,
            authority,
        },
    )
}

/// Edits a product.  A field given as `None` keeps its value.  A new price
/// of zero is refused with `InvalidPrice`, and the product is unchanged.
pub fn update_product(
    product: &mut Product,
    new_price: Option<u64>,
    new_stock: Option<u64>,
    new_metadata_uri: Option<String>,
    new_tokenized_type: Option<TokenizedType>,
) -> (r: Result<(), CustomError>)
    ensures
        match r {
            Ok(_) => new_price != Some(0u64) && *final(product) == (Product {
                price: match new_price {
                    Some(v) => v,
                    None => old(product).price,
                },
                stock: match new_stock {
                    Some(v) => v,
                    None => old(product).stock,
                },
                metadata_uri: match new_metadata_uri {
                    Some(v) => v,
                    None => old(product).metadata_uri,
                },
                tokenized_type: match new_tokenized_type {
                    Some(v) => v,
                    None => old(product).tokenized_type,
                },
                ..*old(product)
            }),
            Err(e) => e == CustomError::InvalidPrice && new_price == Some(0u64) && *final(product)
                == *old(product),
        },
        r is Ok && old(product).well_formed() ==> final(product).well_formed(),
{
    if let Some(price) = new_price {
        if price == 0 {
            return Err(CustomError::InvalidPrice);
        }
        product.price = price;
    }
    if let Some(stock) = new_stock {
        product.stock = stock;
    }
    if let Some(metadata_uri) = new_metadata_uri {
        product.metadata_uri = metadata_uri;
    }
    if let Some(tokenized_type) = new_tokenized_type {
        product.tokenized_type = tokenized_type;
    }
    Ok(())
}

/// Takes a product off sale.  Nothing else of it changes.
pub fn deactivate_product(product: &mut Product)
    ensures
        *final(product) == (Product { is_active: false, ..*old(product) }),
{
    product.is_active = false;
}

} // verus!
