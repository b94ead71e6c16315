use sodap::error::CustomError;
use sodap::identity::Identity;
use sodap::loyalty::{
    initialize_loyalty_mint, loyalty_points_earned, mint_loyalty_tokens, redeem_loyalty_points,
    redeem_points, to_reward_units, LoyaltyMint, LoyaltyPointsRedeemed,
};
use sodap::store::{AdminRole, Store};
use sodap::types::{AdminRoleType, LoyaltyConfig};
use sodap::user::{PurchaseRecord, UserProfile};

fn id(n: u8) -> Identity {
    Identity { bytes: [n; 32] }
}

fn config(is_active: bool) -> LoyaltyConfig {
    LoyaltyConfig { points_per_dollar: 10, minimum_purchase: 5000, reward_percentage: 5, is_active }
}

fn store(is_active: bool) -> Store {
    Store {
        id: id(1),
        owner: id(2),
        name: String::from("Corner shop"),
        description: String::new(),
        logo_uri: String::new(),
        loyalty_config: config(is_active),
        is_active: true,
        revenue: 0,
        admin_roles: vec![AdminRole { admin_pubkey: id(2), role_type: AdminRoleType::Owner }],
    }
}

fn profile(balance: u64) -> UserProfile {
    UserProfile {
        authority: id(9),
        user_id: None,
        delivery_address: String::new(),
        preferred_store: Some(id(1)),
        loyalty_balance: balance,
        total_purchases: 3,
        purchase_history: vec![PurchaseRecord {
            store_id: id(1),
            transaction_id: id(40),
            amount: 10,
            loyalty_earned: 0,
            timestamp: 1,
        }],
        registered_at: 0,
    }
}

#[test]
fn ten_points_per_unit_on_ten_thousand_is_one_hundred_points() {
    assert_eq!(loyalty_points_earned(&config(true), 10_000, 1000), Ok(100));
}

#[test]
fn total_below_the_minimum_earns_nothing() {
    assert_eq!(loyalty_points_earned(&config(true), 4000, 1000), Ok(0));
    assert_eq!(loyalty_points_earned(&config(true), 4999, 1000), Ok(0));
}

#[test]
fn total_at_the_minimum_earns_points() {
    assert_eq!(loyalty_points_earned(&config(true), 5000, 1000), Ok(50));
}

#[test]
fn partial_reward_units_are_dropped() {
    assert_eq!(loyalty_points_earned(&config(true), 5999, 1000), Ok(50));
    assert_eq!(loyalty_points_earned(&config(true), 6000, 1000), Ok(60));
}

#[test]
fn inactive_programme_earns_nothing() {
    assert_eq!(loyalty_points_earned(&config(false), 10_000, 1000), Ok(0));
    assert_eq!(loyalty_points_earned(&config(false), 10_000, 0), Ok(0));
}

#[test]
fn points_that_do_not_fit_are_an_arithmetic_error() {
    let greedy = LoyaltyConfig { points_per_dollar: u64::MAX, ..config(true) };
    assert_eq!(loyalty_points_earned(&greedy, 10_000, 1000), Err(CustomError::ArithmeticError));
    assert_eq!(loyalty_points_earned(&greedy, 5000, 5000), Ok(u64::MAX));
}

#[test]
fn zero_unit_price_is_an_arithmetic_error() {
    assert_eq!(loyalty_points_earned(&config(true), 10_000, 0), Err(CustomError::ArithmeticError));
    assert_eq!(to_reward_units(10_000, 0), None);
    assert_eq!(to_reward_units(10_000, 1000), Some(10));
    assert_eq!(to_reward_units(999, 1000), Some(0));
}

#[test]
fn redeeming_two_hundred_of_five_hundred_points() {
    let mut buyer = profile(500);
    let before = buyer.clone();
    let notice = redeem_points(&mut buyer, &store(true), 200, 10, 77).unwrap();
    assert_eq!(
        notice,
        LoyaltyPointsRedeemed {
            user: id(9),
            store_id: id(1),
            points_redeemed: 200,
            discount_value: 2000,
            remaining_points: 300,
            timestamp: 77,
        }
    );
    assert_eq!(buyer, UserProfile { loyalty_balance: 300, ..before });
}

#[test]
fn redeeming_more_than_the_balance_fails_and_keeps_the_balance() {
    let mut buyer = profile(500);
    let before = buyer.clone();
    assert_eq!(
        redeem_points(&mut buyer, &store(true), 600, 10, 77),
        Err(CustomError::InsufficientLoyaltyPoints)
    );
    assert_eq!(buyer.loyalty_balance, 500);
    assert_eq!(buyer, before);
}

#[test]
fn redeeming_the_whole_balance_leaves_nothing() {
    let mut buyer = profile(500);
    let notice = redeem_points(&mut buyer, &store(true), 500, 3, 0).unwrap();
    assert_eq!(notice.discount_value, 1500);
    assert_eq!(notice.remaining_points, 0);
    assert_eq!(buyer.loyalty_balance, 0);
}

#[test]
fn redeeming_at_a_store_without_programme_fails() {
    let mut buyer = profile(500);
    let before = buyer.clone();
    assert_eq!(
        redeem_points(&mut buyer, &store(false), 200, 10, 77),
        Err(CustomError::LoyaltyProgramInactive)
    );
    assert_eq!(buyer, before);
}

#[test]
fn balance_is_checked_before_the_programme() {
    let mut buyer = profile(500);
    assert_eq!(
        redeem_points(&mut buyer, &store(false), 501, 10, 77),
        Err(CustomError::InsufficientLoyaltyPoints)
    );
}

#[test]
fn discount_that_does_not_fit_is_an_arithmetic_error() {
    let mut buyer = profile(u64::MAX);
    let before = buyer.clone();
    assert_eq!(
        redeem_points(&mut buyer, &store(true), u64::MAX / 2 + 1, 2, 77),
        Err(CustomError::ArithmeticError)
    );
    assert_eq!(buyer, before);
}

#[test]
fn new_mint_has_no_supply() {
    assert_eq!(
        initialize_loyalty_mint(id(1), id(2)),
        LoyaltyMint { store: id(1), authority: id(2), total_supply: 0 }
    );
}

#[test]
fn minting_and_redeeming_move_the_supply() {
    let mut mint = initialize_loyalty_mint(id(1), id(2));
    assert_eq!(mint_loyalty_tokens(&mut mint, 700), Ok(()));
    assert_eq!(mint.total_supply, 700);
    assert_eq!(redeem_loyalty_points(&mut mint, 200), Ok(()));
    assert_eq!(mint, LoyaltyMint { store: id(1), authority: id(2), total_supply: 500 });
}

#[test]
fn supply_cannot_overflow_or_go_negative() {
    let mut mint = LoyaltyMint { store: id(1), authority: id(2), total_supply: u64::MAX - 1 };
    assert_eq!(mint_loyalty_tokens(&mut mint, 2), Err(CustomError::ArithmeticError));
    assert_eq!(mint.total_supply, u64::MAX - 1);
    assert_eq!(mint_loyalty_tokens(&mut mint, 1), Ok(()));
    assert_eq!(mint.total_supply, u64::MAX);
    let mut small = LoyaltyMint { store: id(1), authority: id(2), total_supply: 5 };
    assert_eq!(redeem_loyalty_points(&mut small, 6), Err(CustomError::ArithmeticError));
    assert_eq!(small.total_supply, 5);
    assert_eq!(redeem_loyalty_points(&mut small, 5), Ok(()));
    assert_eq!(small.total_supply, 0);
}

fn earned() -> sodap::loyalty::LoyaltyPointsEarned {
    sodap::loyalty::LoyaltyPointsEarned {
        user: id(9),
        store_id: id(1),
        points_earned: 100,
        total_points: 0x0102_0304_0506_0708,
        timestamp: -2,
    }
}

fn redeemed() -> LoyaltyPointsRedeemed {
    LoyaltyPointsRedeemed {
        user: id(9),
        store_id: id(1),
        points_redeemed: 200,
        discount_value: 2000,
        remaining_points: 300,
        timestamp: 1_700_000_000,
    }
}

#[test]
fn notice_of_points_earned_is_written_field_by_field() {
    let mut expected = Vec::new();
    expected.extend_from_slice(&[9; 32]);
    expected.extend_from_slice(&[1; 32]);
    expected.extend_from_slice(&[100, 0, 0, 0, 0, 0, 0, 0]);
    expected.extend_from_slice(&[8, 7, 6, 5, 4, 3, 2, 1]);
    expected.extend_from_slice(&[0xfe, 0xff, 0xff, 0xff, 0xff, 0xff, 0xff, 0xff]);
    assert_eq!(earned().to_bytes(), expected);
    assert_eq!(expected.len(), sodap::loyalty_wire::POINTS_EARNED_LEN);
    assert_eq!(sodap::loyalty::LoyaltyPointsEarned::from_bytes(&expected), Some(earned()));
}

#[test]
fn notice_of_points_redeemed_is_written_field_by_field() {
    let mut expected = Vec::new();
    expected.extend_from_slice(&[9; 32]);
    expected.extend_from_slice(&[1; 32]);
    expected.extend_from_slice(&[200, 0, 0, 0, 0, 0, 0, 0]);
    expected.extend_from_slice(&[0xd0, 0x07, 0, 0, 0, 0, 0, 0]);
    expected.extend_from_slice(&[0x2c, 0x01, 0, 0, 0, 0, 0, 0]);
    expected.extend_from_slice(&[0x00, 0xf1, 0x53, 0x65, 0, 0, 0, 0]);
    assert_eq!(redeemed().to_bytes(), expected);
    assert_eq!(expected.len(), sodap::loyalty_wire::POINTS_REDEEMED_LEN);
    assert_eq!(LoyaltyPointsRedeemed::from_bytes(&expected), Some(redeemed()));
}

#[test]
fn written_notices_read_back_equal() {
    for timestamp in [0, 1, -1, i64::MAX, i64::MIN] {
        for amount in [0, 1, u64::MAX] {
            let a = sodap::loyalty::LoyaltyPointsEarned { timestamp, points_earned: amount, ..earned() };
            assert_eq!(sodap::loyalty::LoyaltyPointsEarned::from_bytes(&a.to_bytes()), Some(a));
            let b = LoyaltyPointsRedeemed { timestamp, discount_value: amount, ..redeemed() };
            assert_eq!(LoyaltyPointsRedeemed::from_bytes(&b.to_bytes()), Some(b));
        }
    }
}

#[test]
fn notices_of_another_length_are_refused() {
    let bytes = earned().to_bytes();
    assert_eq!(sodap::loyalty::LoyaltyPointsEarned::from_bytes(&bytes[..87]), None);
    assert_eq!(sodap::loyalty::LoyaltyPointsEarned::from_bytes(&[]), None);
    assert_eq!(LoyaltyPointsRedeemed::from_bytes(&bytes), None);
    let mut long = redeemed().to_bytes();
    assert_eq!(sodap::loyalty::LoyaltyPointsEarned::from_bytes(&long), None);
    long.push(0);
    assert_eq!(LoyaltyPointsRedeemed::from_bytes(&long), None);
}
