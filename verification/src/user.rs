//! Buyer profiles: contact details, loyalty balance and a bounded window
//! of recent purchases.

use vstd::prelude::*;
use crate::error::CustomError;
use crate::identity::Identity;

verus! {

/// Summary of one completed purchase, kept in the buyer's history.
#[derive(Clone, Copy, Debug, PartialEq, Eq)]
pub struct PurchaseRecord {
    pub store_id: Identity,
    /// Identity of the receipt.
    pub transaction_id: Identity,
    pub amount: u64,
    pub loyalty_earned: u64,
    pub timestamp: i64,
}

/// What the platform knows about one buyer.
#[derive(Clone, Debug, PartialEq, Eq)]
pub struct UserProfile {
    /// The buyer's wallet.
    pub authority: Identity,
    pub user_id: Option<String>,
    pub delivery_address: String,
    pub preferred_store: Option<Identity>,
    pub loyalty_balance: u64,
    pub total_purchases: u64,
    /// The most recent purchases, oldest first.
    pub purchase_history: Vec<PurchaseRecord>,
    pub registered_at: i64,
}

impl UserProfile {
    /// Bytes reserved for the display id.
    pub const MAX_USER_ID_LEN: usize = 50;

    /// Bytes reserved for the delivery address.
    pub const MAX_ADDRESS_LEN: usize = 200;

    /// Number of purchases the history keeps.
    pub const MAX_PURCHASE_HISTORY: usize = 10;

    /// Bytes reserved for one stored profile.
    pub const LEN: usize = 32 + 4 + 50 + 33 + 4 + 200 + 8 + 4 + (32 + 32 + 8 + 8 + 8) * 10 + 8;

    /// The profile differs from `before` at most in its loyalty balance and
    /// its purchase history.
    pub open spec fn same_details(self, before: UserProfile) -> bool {
        &&& self.authority == before.authority
        &&& self.user_id == before.user_id
        &&& self.delivery_address == before.delivery_address
        &&& self.preferred_store == before.preferred_store
        &&& self.total_purchases == before.total_purchases
        &&& self.registered_at == before.registered_at
    }
}

/// Notice that a profile was created or edited.
#[derive(Clone, Debug, PartialEq, Eq)]
pub struct UserProfileUpdated {
    pub wallet_address: Identity,
    pub user_id: Option<String>,
    pub updated_at: i64,
}

/// The history after `record` was appended: the newest entries of `history`
/// that leave room for it, then `record`.
pub open spec fn history_with(history: Seq<PurchaseRecord>, record: PurchaseRecord) -> Seq<
    PurchaseRecord,
> {
    let keep = UserProfile::MAX_PURCHASE_HISTORY - 1;
    if history.len() <= keep {
        history.push(record)
    } else {
        history.subrange(history.len() - keep, history.len() as int).push(record)
    }
}

/// Appends `record` to the history, evicting the oldest entries so that at
/// most `MAX_PURCHASE_HISTORY` remain.
pub fn record_purchase(history: &mut Vec<PurchaseRecord>, record: PurchaseRecord)
    ensures
        final(history)@ == history_with(old(history)@, record),
        final(history)@.len() <= UserProfile::MAX_PURCHASE_HISTORY,
{
    while history.len() >= UserProfile::MAX_PURCHASE_HISTORY
        invariant
            history.len() <= old(history).len(),
            old(history).len() < UserProfile::MAX_PURCHASE_HISTORY ==> history.len() == old(
                history,
            ).len(),
            old(history).len() >= UserProfile::MAX_PURCHASE_HISTORY ==> history.len()
                >= UserProfile::MAX_PURCHASE_HISTORY - 1,
            history@ == old(history)@.subrange(
                old(history).len() - history.len(),
                old(history).len() as int,
            ),
        decreases history.len(),
    {
        history.remove(0);
        assert(history@ =~= old(history)@.subrange(
            old(history).len() - history.len(),
            old(history).len() as int,
        ));
    }
    history.push(record);
}

/// Number of fields that an edit supplies.
pub open spec fn fields_given(
    user_id: Option<String>,
    delivery_address: Option<String>,
    preferred_store: Option<Identity>,
) -> nat {
    let a: nat = if user_id is Some {
        1
    } else {
        0
    };
    let b: nat = if delivery_address is Some {
        1
    } else {
        0
    };
    let c: nat = if preferred_store is Some {
        1
    } else {
        0
    };
    a + b + c
}

/// Copies an optional display id.
fn copy_user_id(user_id: &Option<String>) -> (copy: Option<String>)
    ensures
        copy == *user_id,
{
    match user_id {
        Some(id) => Some(id.clone()),
        None => None,
    }
}

/// Creates the profile of `authority` on first use, or edits the existing
/// one.
///
/// A new profile starts without display id, address, preferred store,
/// points or history, registered at `now`.  Then every field given as
/// `Some` replaces the profile's value.  One notice is returned for each
/// field given; each carries the display id the profile ends up with.
pub fn create_or_update_user_profile(
    existing: Option<UserProfile>,
    authority: Identity,
    user_id: Option<String>,
    delivery_address: Option<String>,
    preferred_store: Option<Identity>,
    now: i64,
) -> (r: (UserProfile, Vec<UserProfileUpdated>))
    ensures
        r.0.authority == authority,
        r.0.user_id == (match user_id {
            Some(v) => Some(v),
            None => match existing {
                Some(p) => p.user_id,
                None => None,
            },
        }),
        r.0.delivery_address@ == (match delivery_address {
            Some(v) => v@,
            None => match existing {
                Some(p) => p.delivery_address@,
                None => Seq::<char>::empty(),
            },
        }),
        r.0.preferred_store == (match preferred_store {
            Some(v) => Some(v),
            None => match existing {
                Some(p) => p.preferred_store,
                None => None,
            },
        }),
        match existing {
            Some(p) => {
                &&& r.0.loyalty_balance == p.loyalty_balance
                &&& r.0.total_purchases == p.total_purchases
                &&& r.0.purchase_history == p.purchase_history
                &&& r.0.registered_at == p.registered_at
            },
            None => {
                &&& r.0.loyalty_balance == 0
                &&& r.0.total_purchases == 0
                &&& r.0.purchase_history@ == Seq::<PurchaseRecord>::empty()
                &&& r.0.registered_at == now
            },
        },
        r.1@.len() == fields_given(user_id, delivery_address, preferred_store),
        forall|i: int|
            0 <= i < r.1@.len() ==> #[trigger] r.1@[i] == (UserProfileUpdated {
                wallet_address: authority,
                user_id: r.0.user_id,
                updated_at: now,
            }),
{
    let mut profile = match existing {
        Some(profile) => profile,
        None => UserProfile {
            authority,
            user_id: None,
            delivery_address: String::new(),
            preferred_store: None,
            loyalty_balance: 0,
            total_purchases: 0,
            purchase_history: Vec::new(),
            registered_at: now,
        },
    };
    profile.authority = authority;
    let mut notices: Vec<UserProfileUpdated> = Vec::new();
    if let Some(user_id) = user_id {
        profile.user_id = Some(user_id);
        notices.push(
            UserProfileUpdated {
                wallet_address: authority,
                user_id: copy_user_id(&profile.user_id),
                updated_at: now,
            },
        );
    }
    if let Some(delivery_address) = delivery_address {
        profile.delivery_address = delivery_address;
        notices.push(
            UserProfileUpdated {
                wallet_address: authority,
                user_id: copy_user_id(&profile.user_id),
                updated_at: now,
            },
        );
    }
    if let Some(preferred_store) = preferred_store {
        profile.preferred_store = Some(preferred_store);
        notices.push(
            UserProfileUpdated {
                wallet_address: authority,
                user_id: copy_user_id(&profile.user_id),
                updated_at: now,
            },
        );
    }
    (profile, notices)
}

/// Counts one more purchase on the profile after a scan of products.
///
/// `InvalidCart` if the two lists differ in length, `ArithmeticError` if
/// the counter is at its largest value; the profile is then unchanged.
pub fn scan_and_purchase(
    profile: &mut UserProfile,
    product_uuids: &[[u8; 16]],
    quantities: &[u64],
    now: i64,
) -> (r: Result<UserProfileUpdated, CustomError>)
    ensures
        match r {
            Ok(notice) => {
                &&& product_uuids@.len() == quantities@.len()
                &&& old(profile).total_purchases < u64::MAX
                &&& *final(profile) == (UserProfile {
                    total_purchases: (old(profile).total_purchases + 1) as u64,
                    ..*old(profile)
                })
                &&& notice == (UserProfileUpdated {
                    wallet_address: old(profile).authority,
                    user_id: old(profile).user_id,
                    updated_at: now,
                })
            },
            Err(e) => {
                &&& *final(profile) == *old(profile)
                &&& e == (if product_uuids@.len() != quantities@.len() {
                    CustomError::InvalidCart
                } else {
                    CustomError::ArithmeticError
                })
                &&& product_uuids@.len() != quantities@.len() || old(profile).total_purchases
                    == u64::MAX
            },
        },
{
    if product_uuids.len() != quantities.len() {
        return Err(CustomError::InvalidCart);
    }
    let count = match profile.total_purchases.checked_add(1) {
        Some(v) => v,
        None => {
            return Err(CustomError::ArithmeticError);
        },
    };
    profile.total_purchases = count;
    Ok(
        UserProfileUpdated {
            wallet_address: profile.authority,
            user_id: copy_user_id(&profile.user_id),
            updated_at: now,
        },
    )
}

} // verus!
