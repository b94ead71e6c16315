use sodap::error::CustomError;

#[test]
fn every_error_has_its_message() {
    let expected = [
        (CustomError::InvalidPrice, "Invalid price"),
        (CustomError::InvalidStock, "Invalid stock"),
        (CustomError::OutOfStock, "Product is out of stock"),
        (CustomError::InsufficientPayment, "Insufficient payment"),
        (CustomError::StockUnderflow, "Stock underflow"),
        (CustomError::Unauthorized, "Unauthorized"),
        (CustomError::CartEmpty, "Cart is empty"),
        (CustomError::InvalidCart, "Invalid cart (mismatched product and quantity arrays)"),
        (CustomError::ProductNotFound, "Product not found"),
        (CustomError::InsufficientStock, "Insufficient stock"),
        (CustomError::PriceOverflow, "Price overflow when summing cart"),
        (CustomError::CartTooLarge, "Cart too large"),
        (CustomError::AdminAlreadyExists, "Admin already exists"),
        (CustomError::CannotRemoveOwner, "Cannot remove owner"),
        (CustomError::StoreNotFound, "Store not found"),
        (CustomError::UnauthorizedStoreAccess, "Unauthorized store access"),
        (CustomError::InvalidLoyaltyConfig, "Invalid loyalty configuration"),
        (CustomError::StoreInactive, "Store is inactive"),
        (CustomError::InsufficientLoyaltyPoints, "Insufficient loyalty points"),
        (CustomError::LoyaltyProgramInactive, "Loyalty program is inactive"),
        (CustomError::ArithmeticError, "Arithmetic error"),
        (CustomError::InvalidMetadataUri, "Invalid metadata URI"),
        (CustomError::AdminNotFound, "Admin not found"),
        (CustomError::SettlementFailed, "Payment settlement failed"),
    ];
    for (error, text) in expected {
        assert_eq!(error.message(), text);
    }
}
