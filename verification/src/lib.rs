//! Transactional core of a retail platform: a catalog of stores and
//! products, an all-or-nothing cart purchase, and loyalty points.
//!
//! The library decides; it performs no input or output.  Its functions take
//! the records a transaction touches as plain values, the time as an
//! argument, and the outcome of the payment as an argument, and hand back
//! the changed records and the notices to publish.
//!
//! * [`purchase`] holds the purchase engine: [`purchase::purchase_cart`]
//!   applies a settled cart to a store, its products and the buyer's
//!   profile, or rejects it and leaves all of them untouched.
//! * [`cart`] holds the checks a cart passes before any payment is taken,
//!   and its price.
//! * [`loyalty`] holds the accrual and redemption of points.
//! * [`store`], [`product`], [`user`] and [`admin`] hold the records and
//!   their maintenance.
//! * [`wire`] and [`loyalty_wire`] hold the byte forms of a receipt and of
//!   the loyalty notices.
//! * [`address`] derives the address at which a product is kept.
//! * [`guarantees`] holds what is proved of every purchase.

pub mod address;
pub mod admin;
pub mod cart;
pub mod error;
pub mod guarantees;
pub mod identity;
pub mod loyalty;
pub mod loyalty_wire;
pub mod product;
pub mod purchase;
pub mod store;
pub mod types;
pub mod user;
pub mod wire;
