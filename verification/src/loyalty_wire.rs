//! The byte form of the loyalty notices: two identities, then fixed-width
//! little-endian integers, in field order.

use vstd::prelude::*;
use vstd::bytes::{lemma_auto_spec_u64_to_from_le_bytes, spec_u64_to_le_bytes, u64_to_le_bytes};
use crate::loyalty::{LoyaltyPointsEarned, LoyaltyPointsRedeemed};
use crate::wire::{
    append_bytes, identity_at, lemma_identity_at, read_identity, read_u64, timestamp_of,
    timestamp_to_word, timestamp_word, word64, word_to_timestamp,
};

verus! {

/// Length of the byte form of a notice of points earned.
pub const POINTS_EARNED_LEN: usize = 88;

/// Length of the byte form of a notice of points redeemed.
pub const POINTS_REDEEMED_LEN: usize = 96;

/// The byte form of a notice of points earned.
pub open spec fn encode_points_earned(notice: LoyaltyPointsEarned) -> Seq<u8> {
    notice.user.bytes@ + notice.store_id.bytes@ + spec_u64_to_le_bytes(notice.points_earned)
        + spec_u64_to_le_bytes(notice.total_points) + spec_u64_to_le_bytes(
        timestamp_word(notice.timestamp),
    )
}

/// The notice of points earned that `bytes` is the byte form of, if any.
pub open spec fn decode_points_earned(bytes: Seq<u8>) -> Option<LoyaltyPointsEarned> {
    if bytes.len() != POINTS_EARNED_LEN {
        None
    } else {
        Some(
            LoyaltyPointsEarned {
                user: identity_at(bytes, 0),
                store_id: identity_at(bytes, 32),
                points_earned: word64(bytes, 64),
                total_points: word64(bytes, 72),
                timestamp: timestamp_of(word64(bytes, 80)),
            },
        )
    }
}

/// The byte form of a notice of points redeemed.
pub open spec fn encode_points_redeemed(notice: LoyaltyPointsRedeemed) -> Seq<u8> {
    notice.user.bytes@ + notice.store_id.bytes@ + spec_u64_to_le_bytes(notice.points_redeemed)
        + spec_u64_to_le_bytes(notice.discount_value) + spec_u64_to_le_bytes(
        notice.remaining_points,
    ) + spec_u64_to_le_bytes(timestamp_word(notice.timestamp))
}

/// The notice of points redeemed that `bytes` is the byte form of, if any.
pub open spec fn decode_points_redeemed(bytes: Seq<u8>) -> Option<LoyaltyPointsRedeemed> {
    if bytes.len() != POINTS_REDEEMED_LEN {
        None
    } else {
        Some(
            LoyaltyPointsRedeemed {
                user: identity_at(bytes, 0),
                store_id: identity_at(bytes, 32),
                points_redeemed: word64(bytes, 64),
                discount_value: word64(bytes, 72),
                remaining_points: word64(bytes, 80),
                timestamp: timestamp_of(word64(bytes, 88)),
            },
        )
    }
}

impl LoyaltyPointsEarned {
    /// Writes the notice as bytes.
    pub fn to_bytes(&self) -> (bytes: Vec<u8>)
        ensures
            bytes@ == encode_points_earned(*self),
    {
        let mut out: Vec<u8> = Vec::new();
        append_bytes(&mut out, self.user.bytes.as_slice());
        append_bytes(&mut out, self.store_id.bytes.as_slice());
        let earned = u64_to_le_bytes(self.points_earned);
        append_bytes(&mut out, earned.as_slice());
        let total = u64_to_le_bytes(self.total_points);
        append_bytes(&mut out, total.as_slice());
        let stamp = u64_to_le_bytes(timestamp_to_word(self.timestamp));
        append_bytes(&mut out, stamp.as_slice());
        out
    }

    /// Reads a notice from its byte form.  `None` unless `bytes` has the
    /// length of one.
    pub fn from_bytes(bytes: &[u8]) -> (r: Option<LoyaltyPointsEarned>)
        ensures
            r == decode_points_earned(bytes@),
    {
        if bytes.len() != POINTS_EARNED_LEN {
            return None;
        }
        Some(
            LoyaltyPointsEarned {
                user: read_identity(bytes, 0),
                store_id: read_identity(bytes, 32),
                points_earned: read_u64(bytes, 64),
                total_points: read_u64(bytes, 72),
                timestamp: word_to_timestamp(read_u64(bytes, 80)),
            },
        )
    }
}

impl LoyaltyPointsRedeemed {
    /// Writes the notice as bytes.
    pub fn to_bytes(&self) -> (bytes: Vec<u8>)
        ensures
            bytes@ == encode_points_redeemed(*self),
    {
        let mut out: Vec<u8> = Vec::new();
        append_bytes(&mut out, self.user.bytes.as_slice());
        append_bytes(&mut out, self.store_id.bytes.as_slice());
        let redeemed = u64_to_le_bytes(self.points_redeemed);
        append_bytes(&mut out, redeemed.as_slice());
        let discount = u64_to_le_bytes(self.discount_value);
        append_bytes(&mut out, discount.as_slice());
        let remaining = u64_to_le_bytes(self.remaining_points);
        append_bytes(&mut out, remaining.as_slice());
        let stamp = u64_to_le_bytes(timestamp_to_word(self.timestamp));
        append_bytes(&mut out, stamp.as_slice());
        out
    }

    /// Reads a notice from its byte form.  `None` unless `bytes` has the
    /// length of one.
    pub fn from_bytes(bytes: &[u8]) -> (r: Option<LoyaltyPointsRedeemed>)
        ensures
            r == decode_points_redeemed(bytes@),
    {
        if bytes.len() != POINTS_REDEEMED_LEN {
            return None;
        }
        Some(
            LoyaltyPointsRedeemed {
                user: read_identity(bytes, 0),
                store_id: read_identity(bytes, 32),
                points_redeemed: read_u64(bytes, 64),
                discount_value: read_u64(bytes, 72),
                remaining_points: read_u64(bytes, 80),
                timestamp: word_to_timestamp(read_u64(bytes, 88)),
            },
        )
    }
}

/// Bytes read as a notice of points earned exactly when they are its byte
/// form; so a notice written and read back is equal in every field.
pub proof fn lemma_points_earned_round_trip(bytes: Seq<u8>, notice: LoyaltyPointsEarned)
    ensures
        decode_points_earned(encode_points_earned(notice)) == Some(notice),
        decode_points_earned(bytes) == Some(notice) <==> encode_points_earned(notice) == bytes,
{
    lemma_auto_spec_u64_to_from_le_bytes();
    let written = encode_points_earned(notice);
    assert(written.subrange(0, 32) =~= notice.user.bytes@);
    assert(written.subrange(32, 64) =~= notice.store_id.bytes@);
    assert(written.subrange(64, 72) =~= spec_u64_to_le_bytes(notice.points_earned));
    assert(written.subrange(72, 80) =~= spec_u64_to_le_bytes(notice.total_points));
    assert(written.subrange(80, 88) =~= spec_u64_to_le_bytes(timestamp_word(notice.timestamp)));
    assert(identity_at(written, 0).bytes =~= notice.user.bytes);
    assert(identity_at(written, 32).bytes =~= notice.store_id.bytes);
    if decode_points_earned(bytes) == Some(notice) {
        lemma_identity_at(bytes, 0);
        lemma_identity_at(bytes, 32);
        assert(spec_u64_to_le_bytes(word64(bytes, 64)) == bytes.subrange(64, 72));
        assert(spec_u64_to_le_bytes(word64(bytes, 72)) == bytes.subrange(72, 80));
        assert(spec_u64_to_le_bytes(word64(bytes, 80)) == bytes.subrange(80, 88));
        assert(written =~= bytes);
    }
}

/// Bytes read as a notice of points redeemed exactly when they are its
/// byte form; so a notice written and read back is equal in every field.
pub proof fn lemma_points_redeemed_round_trip(bytes: Seq<u8>, notice: LoyaltyPointsRedeemed)
    ensures
        decode_points_redeemed(encode_points_redeemed(notice)) == Some(notice),
        decode_points_redeemed(bytes) == Some(notice) <==> encode_points_redeemed(notice) == bytes,
{
    lemma_auto_spec_u64_to_from_le_bytes();
    let written = encode_points_redeemed(notice);
    assert(written.subrange(0, 32) =~= notice.user.bytes@);
    assert(written.subrange(32, 64) =~= notice.store_id.bytes@);
    assert(written.subrange(64, 72) =~= spec_u64_to_le_bytes(notice.points_redeemed));
    assert(written.subrange(72, 80) =~= spec_u64_to_le_bytes(notice.discount_value));
    assert(written.subrange(80, 88) =~= spec_u64_to_le_bytes(notice.remaining_points));
    assert(written.subrange(88, 96) =~= spec_u64_to_le_bytes(timestamp_word(notice.timestamp)));
    assert(identity_at(written, 0).bytes =~= notice.user.bytes);
    assert(identity_at(written, 32).bytes =~= notice.store_id.bytes);
    if decode_points_redeemed(bytes) == Some(notice) {
        lemma_identity_at(bytes, 0);
        lemma_identity_at(bytes, 32);
        assert(spec_u64_to_le_bytes(word64(bytes, 64)) == bytes.subrange(64, 72));
        assert(spec_u64_to_le_bytes(word64(bytes, 72)) == bytes.subrange(72, 80));
        assert(spec_u64_to_le_bytes(word64(bytes, 80)) == bytes.subrange(80, 88));
        assert(spec_u64_to_le_bytes(word64(bytes, 88)) == bytes.subrange(88, 96));
        assert(written =~= bytes);
    }
}

} // verus!
