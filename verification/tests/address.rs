use anchor_lang::prelude::Pubkey;
use sodap::address::{check_product_address, confirm_address, product_address};
use sodap::error::CustomError;
use sodap::identity::Identity;

fn id(n: u8) -> Identity {
    Identity { bytes: [n; 32] }
}

fn derived(program: &Identity, store: &Identity, uuid: &[u8; 16]) -> (Identity, u8) {
    let (key, bump) = Pubkey::find_program_address(
        &[b"product", &store.bytes, uuid],
        &Pubkey::new_from_array(program.bytes),
    );
    (Identity { bytes: key.to_bytes() }, bump)
}

#[test]
fn product_address_is_the_derived_address() {
    let (expected, bump) = derived(&id(42), &id(1), &[7; 16]);
    let address = product_address(&id(42), &id(1), &[7; 16], bump);
    assert_eq!(address, Some(expected));
    assert_ne!(address, Some(id(42)));
    assert_ne!(address, Some(id(1)));
}

#[test]
fn product_address_depends_on_every_seed() {
    let (expected, bump) = derived(&id(42), &id(1), &[7; 16]);
    assert_ne!(product_address(&id(43), &id(1), &[7; 16], bump), Some(expected));
    assert_ne!(product_address(&id(42), &id(2), &[7; 16], bump), Some(expected));
    assert_ne!(product_address(&id(42), &id(1), &[8; 16], bump), Some(expected));
    assert_ne!(product_address(&id(42), &id(1), &[7; 16], bump.wrapping_sub(1)), Some(expected));
}

#[test]
fn product_address_agrees_with_the_outside_derivation_for_every_bump() {
    let program = Pubkey::new_from_array([42; 32]);
    for bump in 0..=255u8 {
        let outside = Pubkey::create_program_address(&[b"product", &[1; 32], &[7; 16], &[bump]], &program)
            .ok()
            .map(|key| Identity { bytes: key.to_bytes() });
        assert_eq!(product_address(&id(42), &id(1), &[7; 16], bump), outside);
    }
}

#[test]
fn record_at_its_derived_address_is_confirmed() {
    let (expected, bump) = derived(&id(42), &id(1), &[7; 16]);
    assert_eq!(check_product_address(&id(42), &id(1), &[7; 16], bump, &expected), Ok(()));
}

#[test]
fn record_at_another_address_is_not_found() {
    let (expected, bump) = derived(&id(42), &id(1), &[7; 16]);
    assert_eq!(
        check_product_address(&id(42), &id(1), &[7; 16], bump, &id(5)),
        Err(CustomError::ProductNotFound)
    );
    assert_eq!(
        check_product_address(&id(42), &id(2), &[7; 16], bump, &expected),
        Err(CustomError::ProductNotFound)
    );
}

#[test]
fn seeds_that_derive_no_address_are_not_found() {
    let program = Pubkey::new_from_array([42; 32]);
    let off_curve = (0..=255u8).find(|bump| {
        Pubkey::create_program_address(&[b"product", &[1; 32], &[7; 16], &[*bump]], &program).is_err()
    });
    if let Some(bump) = off_curve {
        assert_eq!(product_address(&id(42), &id(1), &[7; 16], bump), None);
        assert_eq!(
            check_product_address(&id(42), &id(1), &[7; 16], bump, &id(5)),
            Err(CustomError::ProductNotFound)
        );
    }
}

#[test]
fn derived_address_is_held_against_the_claimed_one() {
    assert_eq!(confirm_address(Some(id(5)), &id(5)), Ok(()));
    assert_eq!(confirm_address(Some(id(5)), &id(6)), Err(CustomError::ProductNotFound));
    assert_eq!(confirm_address(None, &id(5)), Err(CustomError::ProductNotFound));
}
