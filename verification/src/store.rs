//! Stores, their administrators, and the role check.

use vstd::prelude::*;
use crate::error::CustomError;
use crate::identity::Identity;
use crate::types::{AdminRoleType, LoyaltyConfig};

verus! {

/// One administrator of a store and the role they hold.
#[derive(Clone, Copy, Debug, PartialEq, Eq)]
pub struct AdminRole {
    pub admin_pubkey: Identity,
    pub role_type: AdminRoleType,
}

/// A seller: its metadata, revenue, loyalty programme and administrators.
#[derive(Clone, Debug, PartialEq, Eq)]
pub struct Store {
    /// Stable identifier of the store.
    pub id: Identity,
    /// The owner, who also receives payments.
    pub owner: Identity,
    pub name: String,
    pub description: String,
    pub logo_uri: String,
    pub loyalty_config: LoyaltyConfig,
    pub is_active: bool,
    /// Sum of all purchases settled so far.
    pub revenue: u64,
    pub admin_roles: Vec<AdminRole>,
}

/// Notice that a store was registered.
#[derive(Clone, Debug, PartialEq, Eq)]
pub struct StoreRegistered {
    pub store_id: Identity,
    pub owner: Identity,
    pub name: String,
    pub created_at: i64,
}

/// Notice that a store's metadata was edited.
#[derive(Clone, Copy, Debug, PartialEq, Eq)]
pub struct StoreUpdated {
    pub store_id: Identity,
    pub updated_by: Identity,
    pub updated_at: i64,
}

/// Notice that a store gained an administrator.
#[derive(Clone, Copy, Debug, PartialEq, Eq)]
pub struct AdminAdded {
    pub store_id: Identity,
    pub admin_pubkey: Identity,
    pub role_type: AdminRoleType,
    pub added_at: i64,
}

/// Notice that a store lost an administrator.
#[derive(Clone, Copy, Debug, PartialEq, Eq)]
pub struct AdminRemoved {
    pub store_id: Identity,
    pub admin_pubkey: Identity,
    pub removed_at: i64,
}

/// `identity` holds exactly `role` in the list at position `i`.
pub open spec fn holds_role_at(roles: Seq<AdminRole>, identity: Identity, role: AdminRoleType, i: int) -> bool {
    0 <= i < roles.len() && roles[i].admin_pubkey == identity && roles[i].role_type == role
}

/// `identity` appears in the list with exactly `role`.
pub open spec fn holds_role(roles: Seq<AdminRole>, identity: Identity, role: AdminRoleType) -> bool {
    exists|i: int| holds_role_at(roles, identity, role, i)
}

/// `identity` appears in the list, whatever the role.
pub open spec fn is_admin(roles: Seq<AdminRole>, identity: Identity) -> bool {
    exists|i: int| 0 <= i < roles.len() && (#[trigger] roles[i]).admin_pubkey == identity
}

impl Store {
    /// Bytes reserved for one stored store.
    pub const LEN: usize = 8 + 32 + (4 + 200) + (4 + 500) + (4 + 200) + 16 + 1 + 8 + (4 + (33 * 10));

    /// The store differs from `before` at most in its administrator list.
    pub open spec fn same_but_admins(self, before: Store) -> bool {
        &&& self.id == before.id
        &&& self.owner == before.owner
        &&& self.name == before.name
        &&& self.description == before.description
        &&& self.logo_uri == before.logo_uri
        &&& self.loyalty_config == before.loyalty_config
        &&& self.is_active == before.is_active
        &&& self.revenue == before.revenue
    }

    /// The administrator list names every identity once, and names the
    /// owner, and nobody else, as `Owner`.
    pub open spec fn well_formed(self) -> bool {
        let roles = self.admin_roles@;
        &&& holds_role(roles, self.owner, AdminRoleType::Owner)
        &&& forall|i: int|
            0 <= i < roles.len() && (#[trigger] roles[i]).role_type == AdminRoleType::Owner
                ==> roles[i].admin_pubkey == self.owner
        &&& distinct_admins(roles)
    }
}

/// Tells whether `user` holds exactly `role` in `store`.
pub fn has_role(store: &Store, user: &Identity, role: AdminRoleType) -> (held: bool)
    ensures
        held == holds_role(store.admin_roles@, *user, role),
{
    let mut i: usize = 0;
    while i < store.admin_roles.len()
        invariant
            i <= store.admin_roles.len(),
            forall|k: int| 0 <= k < i ==> !holds_role_at(store.admin_roles@, *user, role, k),
        decreases store.admin_roles.len() - i,
    {
        if store.admin_roles[i].admin_pubkey.same_as(user) && store.admin_roles[i].role_type == role {
            assert(holds_role_at(store.admin_roles@, *user, role, i as int));
            return true;
        }
        i += 1;
    }
    false
}

/// No identity appears twice in the list.
pub open spec fn distinct_admins(roles: Seq<AdminRole>) -> bool {
    forall|i: int, j: int|
        0 <= i < j < roles.len() ==> (#[trigger] roles[i]).admin_pubkey != (
        #[trigger] roles[j]).admin_pubkey
}

/// The list without the entries of `identity`, order kept.
pub open spec fn without_admin(roles: Seq<AdminRole>, identity: Identity) -> Seq<AdminRole> {
    roles.filter(|r: AdminRole| r.admin_pubkey != identity)
}

/// Tells whether `identity` is among the administrators, whatever the role.
pub fn find_admin(roles: &Vec<AdminRole>, identity: &Identity) -> (found: bool)
    ensures
        found == is_admin(roles@, *identity),
{
    let mut i: usize = 0;
    while i < roles.len()
        invariant
            i <= roles.len(),
            forall|k: int| 0 <= k < i ==> (#[trigger] roles@[k]).admin_pubkey != *identity,
        decreases roles.len() - i,
    {
        if roles[i].admin_pubkey.same_as(identity) {
            return true;
        }
        i += 1;
    }
    false
}

/// What removing an administrator keeps: every entry of another identity,
/// in order, and nothing else.
pub proof fn lemma_without_admin(roles: Seq<AdminRole>, identity: Identity)
    ensures
        !is_admin(without_admin(roles, identity), identity),
        forall|other: Identity, role: AdminRoleType|
            other != identity ==> (#[trigger] holds_role(without_admin(roles, identity), other, role)
                <==> holds_role(roles, other, role)),
        forall|i: int|
            0 <= i < without_admin(roles, identity).len() ==> roles.contains(
                #[trigger] without_admin(roles, identity)[i],
            ),
        distinct_admins(roles) ==> distinct_admins(without_admin(roles, identity)),
    decreases roles.len(),
{
    reveal(Seq::filter);
    let keep = |r: AdminRole| r.admin_pubkey != identity;
    let out = without_admin(roles, identity);
    if roles.len() > 0 {
        let rest = roles.drop_last();
        let last = roles.last();
        let sub = without_admin(rest, identity);
        lemma_without_admin(rest, identity);
        assert(out == if keep(last) {
            sub.push(last)
        } else {
            sub
        });
        assert forall|i: int| 0 <= i < out.len() implies roles.contains(#[trigger] out[i]) by {
            if i < sub.len() {
                assert(rest.contains(sub[i]));
                let k = choose|k: int| 0 <= k < rest.len() && rest[k] == sub[i];
                assert(roles[k] == out[i]);
            } else {
                assert(roles[roles.len() - 1] == out[i]);
            }
        }
        assert forall|other: Identity, role: AdminRoleType| other != identity implies (
        #[trigger] holds_role(out, other, role) <==> holds_role(roles, other, role)) by {
            if holds_role(out, other, role) {
                let i = choose|i: int| holds_role_at(out, other, role, i);
                assert(roles.contains(out[i]));
                let k = choose|k: int| 0 <= k < roles.len() && roles[k] == out[i];
                assert(holds_role_at(roles, other, role, k));
            }
            if holds_role(roles, other, role) {
                let k = choose|k: int| holds_role_at(roles, other, role, k);
                if k < rest.len() {
                    assert(holds_role_at(rest, other, role, k));
                    assert(holds_role(sub, other, role));
                    let i = choose|i: int| holds_role_at(sub, other, role, i);
                    assert(holds_role_at(out, other, role, i));
                } else {
                    assert(holds_role_at(out, other, role, out.len() - 1));
                }
            }
        }
        if is_admin(out, identity) {
            let i = choose|i: int| 0 <= i < out.len() && (#[trigger] out[i]).admin_pubkey == identity;
            if i < sub.len() {
                assert(sub[i].admin_pubkey == identity);
                assert(is_admin(sub, identity));
            }
        }
        if distinct_admins(roles) {
            assert(distinct_admins(rest)) by {
                assert forall|i: int, j: int| 0 <= i < j < rest.len() implies (
                #[trigger] rest[i]).admin_pubkey != (#[trigger] rest[j]).admin_pubkey by {
                    assert(roles[i].admin_pubkey != roles[j].admin_pubkey);
                }
            }
            assert forall|i: int, j: int| 0 <= i < j < out.len() implies (
            #[trigger] out[i]).admin_pubkey != (#[trigger] out[j]).admin_pubkey by {
                if j < sub.len() {
                    assert(sub[i].admin_pubkey != sub[j].admin_pubkey);
                } else {
                    assert(rest.contains(sub[i]));
                    let k = choose|k: int| 0 <= k < rest.len() && rest[k] == sub[i];
                    assert(roles[k].admin_pubkey != roles[roles.len() - 1].admin_pubkey);
                }
            }
        }
    } else {
        assert(out.len() == 0);
    }
}

/// Registers a store owned by `authority`: active, without revenue, with
/// the owner as its only administrator.
pub fn register_store(
    authority: Identity,
    store_id: Identity,
    name: String,
    description: String,
    logo_uri: String,
    loyalty_config: LoyaltyConfig,
    now: i64,
) -> (r: (Store, StoreRegistered))
    ensures
        r.0.id == store_id,
        r.0.owner == authority,
        r.0.name == name,
        r.0.description == description,
        r.0.logo_uri == logo_uri,
        r.0.loyalty_config == loyalty_config,
        r.0.is_active,
        r.0.revenue == 0,
        r.0.admin_roles@ == seq![
            AdminRole { admin_pubkey: authority, role_type: AdminRoleType::Owner },
        ],
        r.0.well_formed(),
        r.1 == (StoreRegistered { store_id, owner: authority, name, created_at: now }),
{
    let mut admin_roles: Vec<AdminRole> = Vec::new();
    admin_roles.push(AdminRole { admin_pubkey: authority, role_type: AdminRoleType::Owner });
    let notice = StoreRegistered { store_id, owner: authority, name: name.clone(), created_at: now };
    let store = Store {
        id: store_id,
        owner: authority,
        name,
        description,
        logo_uri,
        loyalty_config,
        is_active: true,
        revenue: 0,
        admin_roles,
    };
    assert(holds_role_at(store.admin_roles@, authority, AdminRoleType::Owner, 0));
    (store, notice)
}

/// Edits the metadata of a store.  Only the owner may; anyone else gets
/// `Unauthorized` and the store is unchanged.  A field given as `None`
/// keeps its value.
pub fn update_store(
    store: &mut Store,
    caller: &Identity,
    name: Option<String>,
    description: Option<String>,
    logo_uri: Option<String>,
    loyalty_config: Option<LoyaltyConfig>,
    now: i64,
) -> (r: Result<StoreUpdated, CustomError>)
    ensures
        match r {
            Ok(notice) => {
                &&& *caller == old(store).owner
                &&& *final(store) == (Store {
                    name: match name {
                        Some(v) => v,
                        None => old(store).name,
                    },
                    description: match description {
                        Some(v) => v,
                        None => old(store).description,
                    },
                    logo_uri: match logo_uri {
                        Some(v) => v,
                        None => old(store).logo_uri,
                    },
                    loyalty_config: match loyalty_config {
                        Some(v) => v,
                        None => old(store).loyalty_config,
                    },
                    ..*old(store)
                })
                &&& notice == (StoreUpdated {
                    store_id: old(store).id,
                    updated_by: *caller,
                    updated_at: now,
                })
            },
            Err(e) => e == CustomError::Unauthorized && *caller != old(store).owner && *final(store)
                == *old(store),
        },
{
    if !caller.same_as(&store.owner) {
        return Err(CustomError::Unauthorized);
    }
    if let Some(name) = name {
        store.name = name;
    }
    if let Some(description) = description {
        store.description = description;
    }
    if let Some(logo_uri) = logo_uri {
        store.logo_uri = logo_uri;
    }
    if let Some(loyalty_config) = loyalty_config {
        store.loyalty_config = loyalty_config;
    }
    Ok(StoreUpdated { store_id: store.id, updated_by: *caller, updated_at: now })
}

/// Why `caller` may not make `admin_pubkey` an administrator with
/// `role_type`, if so: the caller is not the owner (`Unauthorized`), or
/// the identity is an administrator already, or the role is `Owner`, which
/// a store has exactly once (both `AdminAlreadyExists`).
pub open spec fn add_admin_error(
    store: Store,
    caller: Identity,
    admin_pubkey: Identity,
    role_type: AdminRoleType,
) -> Option<CustomError> {
    if caller != store.owner {
        Some(CustomError::Unauthorized)
    } else if is_admin(store.admin_roles@, admin_pubkey) || role_type == AdminRoleType::Owner {
        Some(CustomError::AdminAlreadyExists)
    } else {
        None
    }
}

/// Gives `admin_pubkey` the role `role_type` in the store, at the end of
/// the administrator list.  On an error the store is unchanged.
pub fn add_admin(
    store: &mut Store,
    caller: &Identity,
    admin_pubkey: Identity,
    role_type: AdminRoleType,
    now: i64,
) -> (r: Result<AdminAdded, CustomError>)
    ensures
        match r {
            Ok(notice) => {
                &&& add_admin_error(*old(store), *caller, admin_pubkey, role_type) is None
                &&& final(store).admin_roles@ == old(store).admin_roles@.push(
                    AdminRole { admin_pubkey, role_type },
                )
                &&& final(store).same_but_admins(*old(store))
                &&& old(store).well_formed() ==> final(store).well_formed()
                &&& notice == (AdminAdded {
                    store_id: old(store).id,
                    admin_pubkey,
                    role_type,
                    added_at: now,
                })
            },
            Err(e) => add_admin_error(*old(store), *caller, admin_pubkey, role_type) == Some(e)
                && *final(store) == *old(store),
        },
{
    if !caller.same_as(&store.owner) {
        return Err(CustomError::Unauthorized);
    }
    if find_admin(&store.admin_roles, &admin_pubkey) || role_type == AdminRoleType::Owner {
        return Err(CustomError::AdminAlreadyExists);
    }
    store.admin_roles.push(AdminRole { admin_pubkey, role_type });
    proof {
        if old(store).well_formed() {
            let i = choose|i: int|
                holds_role_at(old(store).admin_roles@, old(store).owner, AdminRoleType::Owner, i);
            assert(holds_role_at(store.admin_roles@, store.owner, AdminRoleType::Owner, i));
            assert forall|i: int, j: int| 0 <= i < j < store.admin_roles@.len() implies (
            #[trigger] store.admin_roles@[i]).admin_pubkey != (
            #[trigger] store.admin_roles@[j]).admin_pubkey by {
                if j < old(store).admin_roles@.len() {
                    assert(old(store).admin_roles@[i].admin_pubkey != old(store).admin_roles@[j].admin_pubkey);
                } else {
                    assert(old(store).admin_roles@[i].admin_pubkey != admin_pubkey);
                }
            }
        }
    }
    Ok(AdminAdded { store_id: store.id, admin_pubkey, role_type, added_at: now })
}

/// Why `caller` may not remove the administrator `admin_pubkey`, if so:
/// the caller is not the owner (`Unauthorized`), the identity is no
/// administrator (`AdminNotFound`), or it is the owner
/// (`CannotRemoveOwner`).
pub open spec fn remove_admin_error(store: Store, caller: Identity, admin_pubkey: Identity) -> Option<
    CustomError,
> {
    if caller != store.owner {
        Some(CustomError::Unauthorized)
    } else if !is_admin(store.admin_roles@, admin_pubkey) {
        Some(CustomError::AdminNotFound)
    } else if admin_pubkey == store.owner || holds_role(
        store.admin_roles@,
        admin_pubkey,
        AdminRoleType::Owner,
    ) {
        Some(CustomError::CannotRemoveOwner)
    } else {
        None
    }
}

/// Takes every role of `admin_pubkey` away.  The other administrators keep
/// their order.  On an error the store is unchanged.
pub fn remove_admin(store: &mut Store, caller: &Identity, admin_pubkey: Identity, now: i64) -> (r:
    Result<AdminRemoved, CustomError>)
    ensures
        match r {
            Ok(notice) => {
                &&& remove_admin_error(*old(store), *caller, admin_pubkey) is None
                &&& final(store).admin_roles@ == without_admin(
                    old(store).admin_roles@,
                    admin_pubkey,
                )
                &&& final(store).same_but_admins(*old(store))
                &&& old(store).well_formed() ==> final(store).well_formed()
                &&& notice == (AdminRemoved {
                    store_id: old(store).id,
                    admin_pubkey,
                    removed_at: now,
                })
            },
            Err(e) => remove_admin_error(*old(store), *caller, admin_pubkey) == Some(e) && *final(store) == *old(store),
        },
{
    if !caller.same_as(&store.owner) {
        return Err(CustomError::Unauthorized);
    }
    if !find_admin(&store.admin_roles, &admin_pubkey) {
        return Err(CustomError::AdminNotFound);
    }
    if admin_pubkey.same_as(&store.owner) || has_role(store, &admin_pubkey, AdminRoleType::Owner) {
        return Err(CustomError::CannotRemoveOwner);
    }
    let mut kept: Vec<AdminRole> = Vec::new();
    let mut i: usize = 0;
    while i < store.admin_roles.len()
        invariant
            i <= store.admin_roles.len(),
            *store == *old(store),
            kept@ == without_admin(store.admin_roles@.subrange(0, i as int), admin_pubkey),
        decreases store.admin_roles.len() - i,
    {
        proof {
            reveal(Seq::filter);
            assert(store.admin_roles@.subrange(0, i + 1).drop_last()
                =~= store.admin_roles@.subrange(0, i as int));
        }
        if !store.admin_roles[i].admin_pubkey.same_as(&admin_pubkey) {
            kept.push(store.admin_roles[i]);
        }
        i += 1;
    }
    proof {
        assert(store.admin_roles@.subrange(0, i as int) =~= store.admin_roles@);
        lemma_without_admin(old(store).admin_roles@, admin_pubkey);
        if old(store).well_formed() {
            let roles = old(store).admin_roles@;
            let out = without_admin(roles, admin_pubkey);
            assert(holds_role(out, old(store).owner, AdminRoleType::Owner));
            assert forall|i: int|
                0 <= i < out.len() && (#[trigger] out[i]).role_type
                    == AdminRoleType::Owner implies out[i].admin_pubkey == old(store).owner by {
                assert(roles.contains(out[i]));
                let k = choose|k: int| 0 <= k < roles.len() && roles[k] == out[i];
                assert(roles[k].role_type == AdminRoleType::Owner);
            }
        }
    }
    store.admin_roles = kept;
    Ok(AdminRemoved { store_id: store.id, admin_pubkey, removed_at: now })
}

} // verus!
