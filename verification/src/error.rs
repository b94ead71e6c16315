//! The errors a catalog, purchase or loyalty operation can report.

use vstd::prelude::*;

verus! {

/// Every rejection the library can return.  An operation that returns one
/// of these has changed none of the records it was given.
#[derive(Clone, Copy, Debug, PartialEq, Eq, Structural)]
pub enum CustomError {
    InvalidPrice,
    InvalidStock,
    OutOfStock,
    InsufficientPayment,
    StockUnderflow,
    Unauthorized,
    CartEmpty,
    InvalidCart,
    ProductNotFound,
    InsufficientStock,
    PriceOverflow,
    CartTooLarge,
    AdminAlreadyExists,
    CannotRemoveOwner,
    StoreNotFound,
    UnauthorizedStoreAccess,
    InvalidLoyaltyConfig,
    StoreInactive,
    InsufficientLoyaltyPoints,
    LoyaltyProgramInactive,
    ArithmeticError,
    InvalidMetadataUri,
    AdminNotFound,
    /// The payment service did not carry out the transfer.
    SettlementFailed,
}

/// The human-readable text of an error.
pub open spec fn error_text(e: CustomError) -> Seq<char> {
    match e {
        CustomError::InvalidPrice => "Invalid price"@,
        CustomError::InvalidStock => "Invalid stock"@,
        CustomError::OutOfStock => "Product is out of stock"@,
        CustomError::InsufficientPayment => "Insufficient payment"@,
        CustomError::StockUnderflow => "Stock underflow"@,
        CustomError::Unauthorized => "Unauthorized"@,
        CustomError::CartEmpty => "Cart is empty"@,
        CustomError::InvalidCart => "Invalid cart (mismatched product and quantity arrays)"@,
        CustomError::ProductNotFound => "Product not found"@,
        CustomError::InsufficientStock => "Insufficient stock"@,
        CustomError::PriceOverflow => "Price overflow when summing cart"@,
        CustomError::CartTooLarge => "Cart too large"@,
        CustomError::AdminAlreadyExists => "Admin already exists"@,
        CustomError::CannotRemoveOwner => "Cannot remove owner"@,
        CustomError::StoreNotFound => "Store not found"@,
        CustomError::UnauthorizedStoreAccess => "Unauthorized store access"@,
        CustomError::InvalidLoyaltyConfig => "Invalid loyalty configuration"@,
        CustomError::StoreInactive => "Store is inactive"@,
        CustomError::InsufficientLoyaltyPoints => "Insufficient loyalty points"@,
        CustomError::LoyaltyProgramInactive => "Loyalty program is inactive"@,
        CustomError::ArithmeticError => "Arithmetic error"@,
        CustomError::InvalidMetadataUri => "Invalid metadata URI"@,
        CustomError::AdminNotFound => "Admin not found"@,
        CustomError::SettlementFailed => "Payment settlement failed"@,
    }
}

impl CustomError {
    /// The message shown to a caller for this error.
    pub fn message(&self) -> (text: &'static str)
        ensures
            text@ == error_text(*self),
    {
        match self {
            CustomError::InvalidPrice => "Invalid price",
            CustomError::InvalidStock => "Invalid stock",
            CustomError::OutOfStock => "Product is out of stock",
            CustomError::InsufficientPayment => "Insufficient payment",
            CustomError::StockUnderflow => "Stock underflow",
            CustomError::Unauthorized => "Unauthorized",
            CustomError::CartEmpty => "Cart is empty",
            CustomError::InvalidCart => "Invalid cart (mismatched product and quantity arrays)",
            CustomError::ProductNotFound => "Product not found",
            CustomError::InsufficientStock => "Insufficient stock",
            CustomError::PriceOverflow => "Price overflow when summing cart",
            CustomError::CartTooLarge => "Cart too large",
            CustomError::AdminAlreadyExists => "Admin already exists",
            CustomError::CannotRemoveOwner => "Cannot remove owner",
            CustomError::StoreNotFound => "Store not found",
            CustomError::UnauthorizedStoreAccess => "Unauthorized store access",
            CustomError::InvalidLoyaltyConfig => "Invalid loyalty configuration",
            CustomError::StoreInactive => "Store is inactive",
            CustomError::InsufficientLoyaltyPoints => "Insufficient loyalty points",
            CustomError::LoyaltyProgramInactive => "Loyalty program is inactive",
            CustomError::ArithmeticError => "Arithmetic error",
            CustomError::InvalidMetadataUri => "Invalid metadata URI",
            CustomError::AdminNotFound => "Admin not found",
            CustomError::SettlementFailed => "Payment settlement failed",
        }
    }
}

} // verus!
