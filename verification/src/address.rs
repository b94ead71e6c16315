//! Where the catalog keeps a product: the address derived from the store
//! and the product's identifier.

use vstd::prelude::*;
use crate::error::CustomError;
use crate::identity::Identity;

verus! {

/// The address derived for the program `program_id` from `seeds`; `None`
/// where the seeds derive none.
pub uninterp spec fn program_address(seeds: Seq<Seq<u8>>, program_id: Seq<u8>) -> Option<Seq<u8>>;

/// The bytes of an optional identity.
pub open spec fn address_bytes(address: Option<Identity>) -> Option<Seq<u8>> {
    match address {
        Some(id) => Some(id.bytes@),
        None => None,
    }
}

/// Derives an address with `Pubkey::create_program_address` of
/// `anchor_lang`.  Nothing is proved of it: the contract only gives the
/// result its name, `program_address` of the same seeds and program, and
/// so claims that equal arguments derive equal addresses.
#[verifier::external_body]
fn create_program_address(seeds: &Vec<Vec<u8>>, program_id: &Identity) -> (address: Option<Identity>)
    ensures
        address_bytes(address) == program_address(seeds.deep_view(), program_id.bytes@),
{
    let slices: Vec<&[u8]> = seeds.iter().map(|seed| seed.as_slice()).collect();
    let program = anchor_lang::prelude::Pubkey::new_from_array(program_id.bytes);
    match anchor_lang::prelude::Pubkey::create_program_address(&slices, &program) {
        Ok(key) => Some(Identity { bytes: key.to_bytes() }),
        Err(_) => None,
    }
}

/// The word every product address is derived from: `product`, in ASCII.
pub open spec fn product_marker() -> Seq<u8> {
    seq![0x70u8, 0x72u8, 0x6fu8, 0x64u8, 0x75u8, 0x63u8, 0x74u8]
}

/// The seeds of a product's address: the marker, the store, the product's
/// identifier and the bump.
pub open spec fn product_seeds(store_id: Identity, product_uuid: [u8; 16], bump: u8) -> Seq<Seq<u8>> {
    seq![product_marker(), store_id.bytes@, product_uuid@, seq![bump]]
}

/// Copies bytes into a fresh vector.
fn bytes_of(source: &[u8]) -> (copy: Vec<u8>)
    ensures
        copy@ == source@,
{
    let mut copy: Vec<u8> = Vec::new();
    let mut k: usize = 0;
    while k < source.len()
        invariant
            k <= source.len(),
            copy@ == source@.subrange(0, k as int),
        decreases source.len() - k,
    {
        copy.push(source[k]);
        k += 1;
    }
    copy
}

/// The address at which the catalog keeps product `product_uuid` of store
/// `store_id`, for the given bump; `None` where these derive no address.
pub fn product_address(
    program_id: &Identity,
    store_id: &Identity,
    product_uuid: &[u8; 16],
    bump: u8,
) -> (address: Option<Identity>)
    ensures
        address_bytes(address) == program_address(
            product_seeds(*store_id, *product_uuid, bump),
            program_id.bytes@,
        ),
{
    let mut marker: Vec<u8> = Vec::new();
    marker.push(0x70);
    marker.push(0x72);
    marker.push(0x6f);
    marker.push(0x64);
    marker.push(0x75);
    marker.push(0x63);
    marker.push(0x74);
    let mut last: Vec<u8> = Vec::new();
    last.push(bump);
    let mut seeds: Vec<Vec<u8>> = Vec::new();
    seeds.push(marker);
    seeds.push(bytes_of(store_id.bytes.as_slice()));
    seeds.push(bytes_of(product_uuid.as_slice()));
    seeds.push(last);
    assert(seeds.deep_view() =~~= product_seeds(*store_id, *product_uuid, bump));
    create_program_address(&seeds, program_id)
}

/// Holds a derived address against the address a record was read from:
/// `ProductNotFound` unless an address was derived and it is the same.
pub fn confirm_address(derived: Option<Identity>, claimed: &Identity) -> (r: Result<(), CustomError>)
    ensures
        r is Ok <==> derived == Some(*claimed),
        r is Err ==> r == Err::<(), CustomError>(CustomError::ProductNotFound),
{
    match derived {
        Some(address) => if address.same_as(claimed) {
            Ok(())
        } else {
            Err(CustomError::ProductNotFound)
        },
        None => Err(CustomError::ProductNotFound),
    }
}

/// Checks that `claimed` is the address of product `product_uuid` of store
/// `store_id`: `ProductNotFound` unless the address derived from them is
/// `claimed`.
pub fn check_product_address(
    program_id: &Identity,
    store_id: &Identity,
    product_uuid: &[u8; 16],
    bump: u8,
    claimed: &Identity,
) -> (r: Result<(), CustomError>)
    ensures
        r is Ok <==> program_address(
            product_seeds(*store_id, *product_uuid, bump),
            program_id.bytes@,
        ) == Some(claimed.bytes@),
        r is Err ==> r == Err::<(), CustomError>(CustomError::ProductNotFound),
{
    let derived = product_address(program_id, store_id, product_uuid, bump);
    proof {
        if derived is Some {
            if derived.unwrap().bytes@ == claimed.bytes@ {
                assert(derived.unwrap().bytes =~= claimed.bytes);
            }
        }
    }
    confirm_address(derived, claimed)
}

} // verus!
