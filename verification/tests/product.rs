use sodap::error::CustomError;
use sodap::identity::{copy_quantities, copy_uuids, same_uuid, Identity};
use sodap::cart::resolve_lines;
use sodap::product::{deactivate_product, find_product, register_product, update_product, Product};
use sodap::types::TokenizedType;

fn id(n: u8) -> Identity {
    Identity { bytes: [n; 32] }
}

fn registered() -> Product {
    register_product(id(1), id(2), [7; 16], 250, 10, TokenizedType::Plain, String::from("uri")).unwrap()
}

#[test]
fn registered_product_is_on_sale() {
    assert_eq!(
        registered(),
        Product {
            uuid: [7; 16],
            price: 250,
            stock: 10,
            tokenized_type: TokenizedType::Plain,
            is_active: true,
            metadata_uri: String::from("uri"),
            store: id(1),
            authority: id(2),
        }
    );
}

#[test]
fn product_without_price_is_refused() {
    assert_eq!(
        register_product(id(1), id(2), [7; 16], 0, 10, TokenizedType::Plain, String::from("uri")),
        Err(CustomError::InvalidPrice)
    );
}

#[test]
fn product_without_stock_is_accepted() {
    let product =
        register_product(id(1), id(2), [7; 16], 1, 0, TokenizedType::SplToken, String::new()).unwrap();
    assert_eq!(product.stock, 0);
    assert_eq!(product.tokenized_type, TokenizedType::SplToken);
}

#[test]
fn update_replaces_only_the_fields_given() {
    let mut product = registered();
    let before = product.clone();
    assert_eq!(update_product(&mut product, None, Some(99), None, None), Ok(()));
    assert_eq!(product, Product { stock: 99, ..before.clone() });
    assert_eq!(
        update_product(
            &mut product,
            Some(5),
            Some(6),
            Some(String::from("new")),
            Some(TokenizedType::SplToken)
        ),
        Ok(())
    );
    assert_eq!(
        product,
        Product {
            price: 5,
            stock: 6,
            metadata_uri: String::from("new"),
            tokenized_type: TokenizedType::SplToken,
            ..before
        }
    );
}

#[test]
fn update_to_a_zero_price_is_refused_and_changes_nothing() {
    let mut product = registered();
    let before = product.clone();
    assert_eq!(
        update_product(&mut product, Some(0), Some(99), Some(String::from("new")), None),
        Err(CustomError::InvalidPrice)
    );
    assert_eq!(product, before);
}

#[test]
fn deactivation_only_clears_the_flag() {
    let mut product = registered();
    let before = product.clone();
    deactivate_product(&mut product);
    assert_eq!(product, Product { is_active: false, ..before });
}

#[test]
fn lookup_finds_the_first_record_of_the_store() {
    let mut foreign = registered();
    foreign.store = id(3);
    let mut other = registered();
    other.uuid = [8; 16];
    let products = vec![foreign, other, registered(), registered()];
    assert_eq!(find_product(&products, &id(1), &[7; 16]), Some(2));
    assert_eq!(find_product(&products, &id(3), &[7; 16]), Some(0));
    assert_eq!(find_product(&products, &id(1), &[8; 16]), Some(1));
    assert_eq!(find_product(&products, &id(1), &[9; 16]), None);
    assert_eq!(find_product(&[], &id(1), &[7; 16]), None);
}

#[test]
fn lines_resolve_to_catalog_positions() {
    let mut other = registered();
    other.uuid = [8; 16];
    let mut gone = registered();
    gone.uuid = [9; 16];
    gone.is_active = false;
    let products = vec![other, registered(), gone];
    assert_eq!(resolve_lines(&products, &id(1), &[[7; 16], [8; 16], [7; 16]]), Ok(vec![1, 0, 1]));
    assert_eq!(resolve_lines(&products, &id(1), &[]), Ok(vec![]));
    assert_eq!(resolve_lines(&products, &id(1), &[[7; 16], [9; 16]]), Err(CustomError::ProductNotFound));
    assert_eq!(resolve_lines(&products, &id(1), &[[6; 16]]), Err(CustomError::ProductNotFound));
}

#[test]
fn identifiers_differ_in_any_byte() {
    let mut other = [7u8; 16];
    assert!(same_uuid(&[7; 16], &other));
    other[15] = 0;
    assert!(!same_uuid(&[7; 16], &other));
    other = [7; 16];
    other[0] = 0;
    assert!(!same_uuid(&[7; 16], &other));
}

#[test]
fn copies_are_equal_to_their_source() {
    let uuids = vec![[1u8; 16], [2; 16], [3; 16]];
    assert_eq!(copy_uuids(&uuids), uuids);
    assert_eq!(copy_uuids(&Vec::new()), Vec::<[u8; 16]>::new());
    assert_eq!(copy_quantities(&vec![5, 0, u64::MAX]), vec![5, 0, u64::MAX]);
}
