//! Platform administrators and the root credentials that guard the list.

use vstd::prelude::*;
use crate::error::CustomError;
use crate::identity::Identity;

verus! {

/// The identities that administer the platform.
#[derive(Clone, Debug, PartialEq, Eq)]
pub struct PlatformAdmins {
    pub admins: Vec<Identity>,
}

impl PlatformAdmins {
    /// Bytes reserved for the stored list: room for ten administrators.
    pub const LEN: usize = 4 + 32 * 10;
}

/// Notice that the platform gained an administrator.
#[derive(Clone, Copy, Debug, PartialEq, Eq)]
pub struct PlatformAdminAdded {
    pub admin_pubkey: Identity,
    pub added_at: i64,
}

/// Notice that the platform lost an administrator.
#[derive(Clone, Copy, Debug, PartialEq, Eq)]
pub struct PlatformAdminRemoved {
    pub admin_pubkey: Identity,
    pub removed_at: i64,
}

/// The root administrator and the credentials they must present.  The
/// platform is configured with these; the library holds none of its own.
#[derive(Clone, Debug, PartialEq, Eq)]
pub struct RootCredentials {
    pub super_admin: Identity,
    pub username: String,
    pub password: String,
}

/// Compares two texts character by character.
fn same_text(a: &str, b: &str) -> (same: bool)
    ensures
        same == (a@ == b@),
{
    let left = a.to_owned();
    let right = b.to_owned();
    left == right
}

/// Tells whether the credentials presented are the configured ones.
pub fn check_root_password(
    username: &str,
    password: &str,
    admin_username: &str,
    admin_password: &str,
) -> (ok: bool)
    ensures
        ok == (username@ == admin_username@ && password@ == admin_password@),
{
    same_text(username, admin_username) && same_text(password, admin_password)
}

/// Tells whether `key` is the root administrator.
pub fn is_super_root_admin(key: &Identity, super_admin_pubkey: &Identity) -> (ok: bool)
    ensures
        ok == (*key == *super_admin_pubkey),
{
    key.same_as(super_admin_pubkey)
}

/// `identity` is on the list.
pub open spec fn is_platform_admin(admins: Seq<Identity>, identity: Identity) -> bool {
    admins.contains(identity)
}

/// The list without `identity`, order kept.
pub open spec fn without_platform_admin(admins: Seq<Identity>, identity: Identity) -> Seq<Identity> {
    admins.filter(|a: Identity| a != identity)
}

/// Why the root administrator's request is refused, if it is: the signer
/// is not the root administrator, or the credentials are not the
/// configured ones.
pub open spec fn root_access_denied(
    signer: Identity,
    username: Seq<char>,
    password: Seq<char>,
    root: RootCredentials,
) -> bool {
    signer != root.super_admin || username != root.username@ || password != root.password@
}

/// Tells whether `identity` is on the list.
pub fn contains_admin(admins: &Vec<Identity>, identity: &Identity) -> (found: bool)
    ensures
        found == is_platform_admin(admins@, *identity),
{
    let mut i: usize = 0;
    while i < admins.len()
        invariant
            i <= admins.len(),
            forall|k: int| 0 <= k < i ==> admins@[k] != *identity,
        decreases admins.len() - i,
    {
        if admins[i].same_as(identity) {
            return true;
        }
        i += 1;
    }
    false
}

/// Puts `new_admin` on the list of platform administrators.
///
/// Only the root administrator may, and only with the configured
/// credentials (`Unauthorized` otherwise); an identity already on the list
/// is refused with `AdminAlreadyExists`.  On an error the list is unchanged.
pub fn add_platform_admin(
    platform_admins: &mut PlatformAdmins,
    signer: &Identity,
    new_admin: Identity,
    username: &str,
    password: &str,
    root: &RootCredentials,
    now: i64,
) -> (r: Result<PlatformAdminAdded, CustomError>)
    ensures
        match r {
            Ok(notice) => {
                &&& !root_access_denied(*signer, username@, password@, *root)
                &&& !is_platform_admin(old(platform_admins).admins@, new_admin)
                &&& final(platform_admins).admins@ == old(platform_admins).admins@.push(new_admin)
                &&& notice == (PlatformAdminAdded { admin_pubkey: new_admin, added_at: now })
            },
            Err(e) => {
                &&& *final(platform_admins) == *old(platform_admins)
                &&& e == (if root_access_denied(*signer, username@, password@, *root) {
                    CustomError::Unauthorized
                } else {
                    CustomError::AdminAlreadyExists
                })
                &&& root_access_denied(*signer, username@, password@, *root) || is_platform_admin(
                    old(platform_admins).admins@,
                    new_admin,
                )
            },
        },
{
    if !is_super_root_admin(signer, &root.super_admin) {
        return Err(CustomError::Unauthorized);
    }
    if !check_root_password(username, password, root.username.as_str(), root.password.as_str()) {
        return Err(CustomError::Unauthorized);
    }
    if contains_admin(&platform_admins.admins, &new_admin) {
        return Err(CustomError::AdminAlreadyExists);
    }
    platform_admins.admins.push(new_admin);
    Ok(PlatformAdminAdded { admin_pubkey: new_admin, added_at: now })
}

/// Takes `admin_pubkey` off the list of platform administrators.
///
/// Only the root administrator may, and only with the configured
/// credentials (`Unauthorized` otherwise); an identity that is not on the
/// list is refused with `AdminAlreadyExists`.  On an error the list is
/// unchanged.
pub fn remove_platform_admin(
    platform_admins: &mut PlatformAdmins,
    signer: &Identity,
    admin_pubkey: Identity,
    username: &str,
    password: &str,
    root: &RootCredentials,
    now: i64,
) -> (r: Result<PlatformAdminRemoved, CustomError>)
    ensures
        match r {
            Ok(notice) => {
                &&& !root_access_denied(*signer, username@, password@, *root)
                &&& is_platform_admin(old(platform_admins).admins@, admin_pubkey)
                &&& final(platform_admins).admins@ == without_platform_admin(
                    old(platform_admins).admins@,
                    admin_pubkey,
                )
                &&& notice == (PlatformAdminRemoved { admin_pubkey, removed_at: now })
            },
            Err(e) => {
                &&& *final(platform_admins) == *old(platform_admins)
                &&& e == (if root_access_denied(*signer, username@, password@, *root) {
                    CustomError::Unauthorized
                } else {
                    CustomError::AdminAlreadyExists
                })
                &&& root_access_denied(*signer, username@, password@, *root) || !is_platform_admin(
                    old(platform_admins).admins@,
                    admin_pubkey,
                )
            },
        },
{
    if !is_super_root_admin(signer, &root.super_admin) {
        return Err(CustomError::Unauthorized);
    }
    if !check_root_password(username, password, root.username.as_str(), root.password.as_str()) {
        return Err(CustomError::Unauthorized);
    }
    if !contains_admin(&platform_admins.admins, &admin_pubkey) {
        return Err(CustomError::AdminAlreadyExists);
    }
    let mut kept: Vec<Identity> = Vec::new();
    let mut i: usize = 0;
    while i < platform_admins.admins.len()
        invariant
            i <= platform_admins.admins.len(),
            *platform_admins == *old(platform_admins),
            kept@ == without_platform_admin(
                platform_admins.admins@.subrange(0, i as int),
                admin_pubkey,
            ),
        decreases platform_admins.admins.len() - i,
    {
        proof {
            reveal(Seq::filter);
            assert(platform_admins.admins@.subrange(0, i + 1).drop_last()
                =~= platform_admins.admins@.subrange(0, i as int));
        }
        if !platform_admins.admins[i].same_as(&admin_pubkey) {
            kept.push(platform_admins.admins[i]);
        }
        i += 1;
    }
    assert(platform_admins.admins@.subrange(0, i as int) =~= platform_admins.admins@);
    platform_admins.admins = kept;
    Ok(PlatformAdminRemoved { admin_pubkey, removed_at: now })
}

} // verus!
