//! The byte form of a receipt: fixed-width little-endian integers,
//! fixed-length identifiers and length-prefixed lists, in field order.

use vstd::prelude::*;
use vstd::bytes::{
    lemma_auto_spec_u32_to_from_le_bytes, lemma_auto_spec_u64_to_from_le_bytes,
    spec_u32_from_le_bytes, spec_u32_to_le_bytes, spec_u64_from_le_bytes, spec_u64_to_le_bytes,
    u32_from_le_bytes, u32_to_le_bytes, u64_from_le_bytes, u64_to_le_bytes,
};
use vstd::slice::slice_subrange;
use crate::identity::Identity;
use crate::purchase::{Purchase, PurchaseView};
use crate::types::{AnomalyFlag, TransactionStatus};

verus! {

/// The byte that stands for a status.
pub open spec fn status_tag(status: TransactionStatus) -> u8 {
    match status {
        TransactionStatus::Success => 0,
        TransactionStatus::Failed => 1,
        TransactionStatus::Pending => 2,
    }
}

/// The status a byte stands for, if any.
pub open spec fn status_of(tag: u8) -> Option<TransactionStatus> {
    if tag == 0 {
        Some(TransactionStatus::Success)
    } else if tag == 1 {
        Some(TransactionStatus::Failed)
    } else if tag == 2 {
        Some(TransactionStatus::Pending)
    } else {
        None
    }
}

/// The byte that stands for an anomaly flag.
pub open spec fn anomaly_tag(flag: AnomalyFlag) -> u8 {
    match flag {
        AnomalyFlag::HighValue => 0,
        AnomalyFlag::MultiplePurchases => 1,
        AnomalyFlag::UnusualTime => 2,
        AnomalyFlag::Other => 3,
    }
}

/// The anomaly flag a byte stands for, if any.
pub open spec fn anomaly_of(tag: u8) -> Option<AnomalyFlag> {
    if tag == 0 {
        Some(AnomalyFlag::HighValue)
    } else if tag == 1 {
        Some(AnomalyFlag::MultiplePurchases)
    } else if tag == 2 {
        Some(AnomalyFlag::UnusualTime)
    } else if tag == 3 {
        Some(AnomalyFlag::Other)
    } else {
        None
    }
}

/// An optional flag: a zero byte for none, else a one byte and the flag's.
pub open spec fn anomaly_bytes(flag: Option<AnomalyFlag>) -> Seq<u8> {
    match flag {
        None => seq![0u8],
        Some(f) => seq![1u8, anomaly_tag(f)],
    }
}

/// A timestamp as an unsigned word, in two's complement.
pub open spec fn timestamp_word(timestamp: i64) -> u64 {
    if timestamp >= 0 {
        timestamp as u64
    } else {
        (timestamp + 0x1_0000_0000_0000_0000) as u64
    }
}

/// The timestamp an unsigned word stands for.
pub open spec fn timestamp_of(word: u64) -> i64 {
    if word < 0x8000_0000_0000_0000 {
        word as i64
    } else {
        (word - 0x1_0000_0000_0000_0000) as i64
    }
}

/// The identifiers of a list, one after the other.
pub open spec fn uuid_bytes(uuids: Seq<[u8; 16]>) -> Seq<u8> {
    Seq::new((16 * uuids.len()) as nat, |k: int| uuids[k / 16]@[k % 16])
}

/// The quantities of a list, eight little-endian bytes each.
pub open spec fn quantity_bytes(quantities: Seq<u64>) -> Seq<u8> {
    Seq::new(
        (8 * quantities.len()) as nat,
        |k: int| spec_u64_to_le_bytes(quantities[k / 8])[k % 8],
    )
}

/// Both lists of the receipt are short enough for a 32-bit length prefix.
pub open spec fn encodable(receipt: PurchaseView) -> bool {
    receipt.product_uuids.len() <= u32::MAX && receipt.quantities.len() <= u32::MAX
}

/// The two lists, each behind its length.
pub open spec fn cart_bytes(receipt: PurchaseView) -> Seq<u8> {
    spec_u32_to_le_bytes(receipt.product_uuids.len() as u32) + uuid_bytes(receipt.product_uuids)
        + spec_u32_to_le_bytes(receipt.quantities.len() as u32) + quantity_bytes(
        receipt.quantities,
    )
}

/// Total, surcharge, status and optional flag.
pub open spec fn payment_bytes(receipt: PurchaseView) -> Seq<u8> {
    spec_u64_to_le_bytes(receipt.total_paid) + spec_u64_to_le_bytes(receipt.gas_fee)
        + seq![status_tag(receipt.status)] + anomaly_bytes(receipt.anomaly_flag)
}

/// Store, buyer and timestamp.
pub open spec fn party_bytes(receipt: PurchaseView) -> Seq<u8> {
    receipt.store.bytes@ + receipt.buyer.bytes@ + spec_u64_to_le_bytes(
        timestamp_word(receipt.timestamp),
    )
}

/// The byte form of a receipt.
pub open spec fn encode_receipt(receipt: PurchaseView) -> Seq<u8> {
    cart_bytes(receipt) + payment_bytes(receipt) + party_bytes(receipt)
}

/// The 32-bit word at `at`.
pub open spec fn word32(bytes: Seq<u8>, at: int) -> u32 {
    spec_u32_from_le_bytes(bytes.subrange(at, at + 4))
}

/// The 64-bit word at `at`.
pub open spec fn word64(bytes: Seq<u8>, at: int) -> u64 {
    spec_u64_from_le_bytes(bytes.subrange(at, at + 8))
}

/// The product identifier at `at`.
pub open spec fn uuid_at(bytes: Seq<u8>, at: int) -> [u8; 16] {
    choose|uuid: [u8; 16]| uuid@ == bytes.subrange(at, at + 16)
}

/// The identity at `at`.
pub open spec fn identity_at(bytes: Seq<u8>, at: int) -> Identity {
    Identity { bytes: choose|id: [u8; 32]| id@ == bytes.subrange(at, at + 32) }
}

/// The receipt that `bytes` is the byte form of; `None` where it is the
/// byte form of none: too short, too long, or with a byte that stands for
/// no status, no flag or no option.
pub open spec fn decode_receipt(bytes: Seq<u8>) -> Option<PurchaseView> {
    if bytes.len() < 4 {
        None
    } else {
        let lines = word32(bytes, 0) as int;
        let q = 4 + 16 * lines;
        if bytes.len() < q + 4 {
            None
        } else {
            let amounts = word32(bytes, q) as int;
            let t = q + 4 + 8 * amounts;
            if bytes.len() < t + 18 {
                None
            } else if status_of(bytes[t + 16]) is None || bytes[t + 17] > 1 {
                None
            } else {
                let flagged = bytes[t + 17] as int;
                let p = t + 18 + flagged;
                if bytes.len() != p + 72 {
                    None
                } else if flagged == 1 && anomaly_of(bytes[t + 18]) is None {
                    None
                } else {
                    Some(
                        PurchaseView {
                            product_uuids: Seq::new(
                                lines as nat,
                                |i: int| uuid_at(bytes, 4 + 16 * i),
                            ),
                            quantities: Seq::new(
                                amounts as nat,
                                |i: int| word64(bytes, q + 4 + 8 * i),
                            ),
                            total_paid: word64(bytes, t),
                            gas_fee: word64(bytes, t + 8),
                            status: status_of(bytes[t + 16]).unwrap(),
                            anomaly_flag: if flagged == 1 {
                                anomaly_of(bytes[t + 18])
                            } else {
                                None
                            },
                            store: identity_at(bytes, p),
                            buyer: identity_at(bytes, p + 32),
                            timestamp: timestamp_of(word64(bytes, p + 64)),
                        },
                    )
                }
            }
        }
    }
}

/// Appends `bytes` to `out`.
pub(crate) fn append_bytes(out: &mut Vec<u8>, bytes: &[u8])
    ensures
        final(out)@ == old(out)@ + bytes@,
{
    let mut k: usize = 0;
    while k < bytes.len()
        invariant
            k <= bytes.len(),
            out@ == old(out)@ + bytes@.subrange(0, k as int),
        decreases bytes.len() - k,
    {
        out.push(bytes[k]);
        k += 1;
    }
}

/// Appending an identifier to a list appends its bytes.
proof fn lemma_uuid_bytes_push(uuids: Seq<[u8; 16]>, uuid: [u8; 16])
    ensures
        uuid_bytes(uuids.push(uuid)) == uuid_bytes(uuids) + uuid@,
{
}

/// Appending a quantity to a list appends its eight bytes.
proof fn lemma_quantity_bytes_push(quantities: Seq<u64>, quantity: u64)
    ensures
        quantity_bytes(quantities.push(quantity)) == quantity_bytes(quantities)
            + spec_u64_to_le_bytes(quantity),
{
    lemma_auto_spec_u64_to_from_le_bytes();
    assert(quantity_bytes(quantities.push(quantity)) =~= quantity_bytes(quantities)
        + spec_u64_to_le_bytes(quantity));
}

/// The word that stands for a timestamp.
pub(crate) fn timestamp_to_word(timestamp: i64) -> (word: u64)
    ensures
        word == timestamp_word(timestamp),
{
    if timestamp >= 0 {
        timestamp as u64
    } else {
        ((timestamp - i64::MIN) as u64) + 0x8000_0000_0000_0000
    }
}

/// The timestamp that a word stands for.
pub(crate) fn word_to_timestamp(word: u64) -> (timestamp: i64)
    ensures
        timestamp == timestamp_of(word),
{
    if word < 0x8000_0000_0000_0000 {
        word as i64
    } else {
        ((word - 0x8000_0000_0000_0000) as i64) + i64::MIN
    }
}

impl Purchase {
    /// Writes the receipt as bytes.  `None` if one of its lists has more
    /// entries than a 32-bit length can announce.
    pub fn to_bytes(&self) -> (r: Option<Vec<u8>>)
        ensures
            match r {
                Some(bytes) => encodable(self@) && bytes@ == encode_receipt(self@),
                None => !encodable(self@),
            },
    {
        if self.product_uuids.len() > 0xffff_ffff || self.quantities.len() > 0xffff_ffff {
            return None;
        }
        let mut out: Vec<u8> = Vec::new();
        let lines = u32_to_le_bytes(self.product_uuids.len() as u32);
        append_bytes(&mut out, lines.as_slice());
        let mut i: usize = 0;
        while i < self.product_uuids.len()
            invariant
                i <= self.product_uuids.len(),
                out@ == lines@ + uuid_bytes(self.product_uuids@.subrange(0, i as int)),
            decreases self.product_uuids.len() - i,
        {
            proof {
                lemma_uuid_bytes_push(
                    self.product_uuids@.subrange(0, i as int),
                    self.product_uuids@[i as int],
                );
                assert(self.product_uuids@.subrange(0, i as int).push(self.product_uuids@[i as int])
                    =~= self.product_uuids@.subrange(0, i + 1));
            }
            append_bytes(&mut out, self.product_uuids[i].as_slice());
            i += 1;
        }
        let ghost head = out@;
        let amounts = u32_to_le_bytes(self.quantities.len() as u32);
        append_bytes(&mut out, amounts.as_slice());
        let mut i: usize = 0;
        while i < self.quantities.len()
            invariant
                i <= self.quantities.len(),
                out@ == head + amounts@ + quantity_bytes(self.quantities@.subrange(0, i as int)),
            decreases self.quantities.len() - i,
        {
            proof {
                lemma_quantity_bytes_push(
                    self.quantities@.subrange(0, i as int),
                    self.quantities@[i as int],
                );
                assert(self.quantities@.subrange(0, i as int).push(self.quantities@[i as int])
                    =~= self.quantities@.subrange(0, i + 1));
            }
            let word = u64_to_le_bytes(self.quantities[i]);
            append_bytes(&mut out, word.as_slice());
            i += 1;
        }
        let total = u64_to_le_bytes(self.total_paid);
        append_bytes(&mut out, total.as_slice());
        let fee = u64_to_le_bytes(self.gas_fee);
        append_bytes(&mut out, fee.as_slice());
        out.push(
            match self.status {
                TransactionStatus::Success => 0,
                TransactionStatus::Failed => 1,
                TransactionStatus::Pending => 2,
            },
        );
        match self.anomaly_flag {
            None => {
                out.push(0);
            },
            Some(flag) => {
                out.push(1);
                out.push(
                    match flag {
                        AnomalyFlag::HighValue => 0,
                        AnomalyFlag::MultiplePurchases => 1,
                        AnomalyFlag::UnusualTime => 2,
                        AnomalyFlag::Other => 3,
                    },
                );
            },
        }
        append_bytes(&mut out, self.store.bytes.as_slice());
        append_bytes(&mut out, self.buyer.bytes.as_slice());
        let stamp = u64_to_le_bytes(timestamp_to_word(self.timestamp));
        append_bytes(&mut out, stamp.as_slice());
        Some(out)
    }
}

/// Reads the 32-bit word at `at`.
fn read_u32(bytes: &[u8], at: usize) -> (word: u32)
    requires
        at + 4 <= bytes.len(),
    ensures
        word == word32(bytes@, at as int),
{
    u32_from_le_bytes(slice_subrange(bytes, at, at + 4))
}

/// Reads the 64-bit word at `at`.
pub(crate) fn read_u64(bytes: &[u8], at: usize) -> (word: u64)
    requires
        at + 8 <= bytes.len(),
    ensures
        word == word64(bytes@, at as int),
{
    u64_from_le_bytes(slice_subrange(bytes, at, at + 8))
}

/// Reads the product identifier at `at`.
fn read_uuid(bytes: &[u8], at: usize) -> (uuid: [u8; 16])
    requires
        at + 16 <= bytes.len(),
    ensures
        uuid == uuid_at(bytes@, at as int),
        uuid@ == bytes@.subrange(at as int, at + 16),
{
    let mut uuid = [0u8; 16];
    let mut k: usize = 0;
    while k < 16
        invariant
            k <= 16,
            at + 16 <= bytes.len(),
            forall|j: int| 0 <= j < k ==> uuid@[j] == bytes@[at + j],
        decreases 16 - k,
    {
        uuid[k] = bytes[at + k];
        k += 1;
    }
    uuid
}

/// Reads the identity at `at`.
pub(crate) fn read_identity(bytes: &[u8], at: usize) -> (id: Identity)
    requires
        at + 32 <= bytes.len(),
    ensures
        id == identity_at(bytes@, at as int),
        id.bytes@ == bytes@.subrange(at as int, at + 32),
{
    let mut raw = [0u8; 32];
    let mut k: usize = 0;
    while k < 32
        invariant
            k <= 32,
            at + 32 <= bytes.len(),
            forall|j: int| 0 <= j < k ==> raw@[j] == bytes@[at + j],
        decreases 32 - k,
    {
        raw[k] = bytes[at + k];
        k += 1;
    }
    assert(raw@ =~= bytes@.subrange(at as int, at + 32));
    assert(identity_at(bytes@, at as int).bytes =~= raw);
    Identity { bytes: raw }
}

impl Purchase {
    /// Reads a receipt from its byte form.  `None` where `bytes` is the
    /// byte form of no receipt.
    pub fn from_bytes(bytes: &[u8]) -> (r: Option<Purchase>)
        ensures
            match r {
                Some(receipt) => decode_receipt(bytes@) == Some(receipt@),
                None => decode_receipt(bytes@) is None,
            },
    {
        let len = bytes.len();
        if len < 4 {
            return None;
        }
        let lines = read_u32(bytes, 0);
        let q_wide: u64 = 4 + 16 * (lines as u64);
        if (len as u64) < q_wide + 4 {
            return None;
        }
        let q = q_wide as usize;
        let amounts = read_u32(bytes, q);
        let t_wide: u64 = q_wide + 4 + 8 * (amounts as u64);
        if (len as u64) < t_wide + 18 {
            return None;
        }
        let t = t_wide as usize;
        let status = match bytes[t + 16] {
            0 => TransactionStatus::Success,
            1 => TransactionStatus::Failed,
            2 => TransactionStatus::Pending,
            _ => {
                return None;
            },
        };
        let option_tag = bytes[t + 17];
        if option_tag > 1 {
            return None;
        }
        let p = t + 18 + option_tag as usize;
        if len < p || len - p != 72 {
            return None;
        }
        let anomaly_flag = if option_tag == 1 {
            match bytes[t + 18] {
                0 => Some(AnomalyFlag::HighValue),
                1 => Some(AnomalyFlag::MultiplePurchases),
                2 => Some(AnomalyFlag::UnusualTime),
                3 => Some(AnomalyFlag::Other),
                _ => {
                    return None;
                },
            }
        } else {
            None
        };
        let mut product_uuids: Vec<[u8; 16]> = Vec::new();
        let mut i: usize = 0;
        while i < lines as usize
            invariant
                i <= lines,
                4 + 16 * lines <= bytes.len(),
                product_uuids@.len() == i,
                forall|k: int|
                    0 <= k < i ==> #[trigger] product_uuids@[k] == uuid_at(bytes@, 4 + 16 * k),
            decreases lines - i,
        {
            product_uuids.push(read_uuid(bytes, 4 + 16 * i));
            i += 1;
        }
        let mut quantities: Vec<u64> = Vec::new();
        let mut i: usize = 0;
        while i < amounts as usize
            invariant
                i <= amounts,
                q + 4 + 8 * amounts <= bytes.len(),
                quantities@.len() == i,
                forall|k: int|
                    0 <= k < i ==> #[trigger] quantities@[k] == word64(bytes@, q + 4 + 8 * k),
            decreases amounts - i,
        {
            quantities.push(read_u64(bytes, q + 4 + 8 * i));
            i += 1;
        }
        let receipt = Purchase {
            product_uuids,
            quantities,
            total_paid: read_u64(bytes, t),
            gas_fee: read_u64(bytes, t + 8),
            status,
            anomaly_flag,
            store: read_identity(bytes, p),
            buyer: read_identity(bytes, p + 32),
            timestamp: word_to_timestamp(read_u64(bytes, p + 64)),
        };
        proof {
            let decoded = decode_receipt(bytes@).unwrap();
            assert(receipt@.product_uuids =~= decoded.product_uuids);
            assert(receipt@.quantities =~= decoded.quantities);
        }
        Some(receipt)
    }
}

/// Where each field lies in the byte form of a receipt.
proof fn lemma_layout(receipt: PurchaseView)
    requires
        encodable(receipt),
    ensures
        ({
            let bytes = encode_receipt(receipt);
            let q = 4 + 16 * (receipt.product_uuids.len() as int);
            let t = q + 4 + 8 * (receipt.quantities.len() as int);
            let p = t + 16 + 1 + (anomaly_bytes(receipt.anomaly_flag).len() as int);
            &&& bytes.len() == p + 72
            &&& bytes.subrange(0, 4) == spec_u32_to_le_bytes(receipt.product_uuids.len() as u32)
            &&& bytes.subrange(4, q as int) == uuid_bytes(receipt.product_uuids)
            &&& bytes.subrange(q as int, q + 4) == spec_u32_to_le_bytes(
                receipt.quantities.len() as u32,
            )
            &&& bytes.subrange(q + 4, t as int) == quantity_bytes(receipt.quantities)
            &&& bytes.subrange(t as int, t + 8) == spec_u64_to_le_bytes(receipt.total_paid)
            &&& bytes.subrange(t + 8, t + 16) == spec_u64_to_le_bytes(receipt.gas_fee)
            &&& bytes[t + 16] == status_tag(receipt.status)
            &&& bytes.subrange(t + 17, p as int) == anomaly_bytes(receipt.anomaly_flag)
            &&& bytes.subrange(p as int, p + 32) == receipt.store.bytes@
            &&& bytes.subrange(p + 32, p + 64) == receipt.buyer.bytes@
            &&& bytes.subrange(p + 64, p + 72) == spec_u64_to_le_bytes(
                timestamp_word(receipt.timestamp),
            )
        }),
{
    lemma_auto_spec_u32_to_from_le_bytes();
    lemma_auto_spec_u64_to_from_le_bytes();
    let q = 4 + 16 * (receipt.product_uuids.len() as int);
    assert(cart_bytes(receipt).subrange(q, q + 4) =~= spec_u32_to_le_bytes(
        receipt.quantities.len() as u32,
    ));
}

/// The identifier read at the place of line `i` is that line's.
proof fn lemma_decoded_uuid(bytes: Seq<u8>, uuids: Seq<[u8; 16]>, i: int)
    requires
        0 <= i < uuids.len(),
        bytes.len() >= 4 + 16 * uuids.len(),
        bytes.subrange(4, 4 + 16 * (uuids.len() as int)) == uuid_bytes(uuids),
    ensures
        uuid_at(bytes, 4 + 16 * i) == uuids[i],
{
    let at = 4 + 16 * i;
    assert forall|k: int| 0 <= k < 16 implies bytes[at + k] == uuids[i]@[k] by {
        assert(bytes[at + k] == bytes.subrange(4, 4 + 16 * (uuids.len() as int))[16 * i + k]);
    }
    assert(bytes.subrange(at, at + 16) =~= uuids[i]@);
}

/// The word read at the place of quantity `i` is that quantity.
proof fn lemma_decoded_quantity(bytes: Seq<u8>, q: int, quantities: Seq<u64>, i: int)
    requires
        0 <= q,
        0 <= i < quantities.len(),
        bytes.len() >= q + 4 + 8 * quantities.len(),
        bytes.subrange(q + 4, q + 4 + 8 * quantities.len()) == quantity_bytes(quantities),
    ensures
        word64(bytes, q + 4 + 8 * i) == quantities[i],
{
    lemma_auto_spec_u64_to_from_le_bytes();
    let at = q + 4 + 8 * i;
    let word = spec_u64_to_le_bytes(quantities[i]);
    assert forall|k: int| 0 <= k < 8 implies bytes[at + k] == word[k] by {
        assert(bytes[at + k] == bytes.subrange(q + 4, q + 4 + 8 * quantities.len())[8 * i + k]);
    }
    assert(bytes.subrange(at, at + 8) =~= word);
}

/// The header fields read from the byte form of a receipt are the
/// receipt's.
proof fn lemma_decoded_fields(receipt: PurchaseView)
    requires
        encodable(receipt),
    ensures
        ({
            let bytes = encode_receipt(receipt);
            let q = 4 + 16 * (receipt.product_uuids.len() as int);
            let t = q + 4 + 8 * (receipt.quantities.len() as int);
            let flagged: int = if receipt.anomaly_flag is Some {
                1
            } else {
                0
            };
            let p = t + 18 + flagged;
            &&& bytes.len() == p + 72
            &&& word32(bytes, 0) == receipt.product_uuids.len()
            &&& word32(bytes, q) == receipt.quantities.len()
            &&& word64(bytes, t) == receipt.total_paid
            &&& word64(bytes, t + 8) == receipt.gas_fee
            &&& status_of(bytes[t + 16]) == Some(receipt.status)
            &&& bytes[t + 17] == flagged
            &&& flagged == 1 ==> anomaly_of(bytes[t + 18]) == receipt.anomaly_flag
            &&& identity_at(bytes, p) == receipt.store
            &&& identity_at(bytes, p + 32) == receipt.buyer
            &&& timestamp_of(word64(bytes, p + 64)) == receipt.timestamp
        }),
{
    lemma_auto_spec_u32_to_from_le_bytes();
    lemma_auto_spec_u64_to_from_le_bytes();
    lemma_layout(receipt);
    let bytes = encode_receipt(receipt);
    let q = 4 + 16 * (receipt.product_uuids.len() as int);
    let t = q + 4 + 8 * (receipt.quantities.len() as int);
    let flagged: int = if receipt.anomaly_flag is Some {
        1
    } else {
        0
    };
    let p = t + 18 + flagged;
    assert(identity_at(bytes, p).bytes =~= receipt.store.bytes);
    assert(identity_at(bytes, p + 32).bytes =~= receipt.buyer.bytes);
}

/// Reading back the byte form of a receipt gives the receipt, equal in
/// every field.
pub proof fn lemma_receipt_round_trip(receipt: PurchaseView)
    requires
        encodable(receipt),
    ensures
        decode_receipt(encode_receipt(receipt)) == Some(receipt),
{
    lemma_layout(receipt);
    lemma_decoded_fields(receipt);
    let bytes = encode_receipt(receipt);
    let q = 4 + 16 * (receipt.product_uuids.len() as int);
    let decoded = decode_receipt(bytes).unwrap();
    assert forall|i: int| 0 <= i < receipt.product_uuids.len() implies uuid_at(bytes, 4 + 16 * i)
        == receipt.product_uuids[i] by {
        lemma_decoded_uuid(bytes, receipt.product_uuids, i);
    }
    assert forall|i: int| 0 <= i < receipt.quantities.len() implies word64(bytes, q + 4 + 8 * i)
        == receipt.quantities[i] by {
        lemma_decoded_quantity(bytes, q, receipt.quantities, i);
    }
    assert(decoded.product_uuids =~= receipt.product_uuids);
    assert(decoded.quantities =~= receipt.quantities);
}

/// The identifier read at `at` holds the sixteen bytes found there.
proof fn lemma_uuid_at(bytes: Seq<u8>, at: int)
    requires
        0 <= at,
        at + 16 <= bytes.len(),
    ensures
        uuid_at(bytes, at)@ == bytes.subrange(at, at + 16),
{
    let s = bytes.subrange(at, at + 16);
    let witness: [u8; 16] = [
        s[0],
        s[1],
        s[2],
        s[3],
        s[4],
        s[5],
        s[6],
        s[7],
        s[8],
        s[9],
        s[10],
        s[11],
        s[12],
        s[13],
        s[14],
        s[15],
    ];
    assert(witness@ =~= s);
}

/// The identity read at `at` holds the thirty-two bytes found there.
pub(crate) proof fn lemma_identity_at(bytes: Seq<u8>, at: int)
    requires
        0 <= at,
        at + 32 <= bytes.len(),
    ensures
        identity_at(bytes, at).bytes@ == bytes.subrange(at, at + 32),
{
    let s = bytes.subrange(at, at + 32);
    let witness: [u8; 32] = [
        s[0],
        s[1],
        s[2],
        s[3],
        s[4],
        s[5],
        s[6],
        s[7],
        s[8],
        s[9],
        s[10],
        s[11],
        s[12],
        s[13],
        s[14],
        s[15],
        s[16],
        s[17],
        s[18],
        s[19],
        s[20],
        s[21],
        s[22],
        s[23],
        s[24],
        s[25],
        s[26],
        s[27],
        s[28],
        s[29],
        s[30],
        s[31],
    ];
    assert(witness@ =~= s);
}

/// The identifiers read from `lines` places after the first length are the
/// bytes found there.
proof fn lemma_uuids_cover(bytes: Seq<u8>, lines: int)
    requires
        0 <= lines,
        4 + 16 * lines <= bytes.len(),
    ensures
        uuid_bytes(Seq::new(lines as nat, |i: int| uuid_at(bytes, 4 + 16 * i))) == bytes.subrange(
            4,
            4 + 16 * lines,
        ),
{
    let uuids = Seq::new(lines as nat, |i: int| uuid_at(bytes, 4 + 16 * i));
    assert forall|k: int| 0 <= k < 16 * lines implies uuid_bytes(uuids)[k] == bytes[4 + k] by {
        let i = k / 16;
        lemma_uuid_at(bytes, 4 + 16 * i);
    }
}

/// The quantities read from `amounts` places after the second length are
/// the bytes found there.
proof fn lemma_quantities_cover(bytes: Seq<u8>, q: int, amounts: int)
    requires
        0 <= q,
        0 <= amounts,
        q + 4 + 8 * amounts <= bytes.len(),
    ensures
        quantity_bytes(Seq::new(amounts as nat, |i: int| word64(bytes, q + 4 + 8 * i)))
            == bytes.subrange(q + 4, q + 4 + 8 * amounts),
{
    lemma_auto_spec_u64_to_from_le_bytes();
}

/// Bytes that read as a receipt are the byte form of that receipt: no
/// other bytes read as it.
pub proof fn lemma_decoded_receipt_encodes(bytes: Seq<u8>)
    requires
        decode_receipt(bytes) is Some,
    ensures
        encodable(decode_receipt(bytes).unwrap()),
        encode_receipt(decode_receipt(bytes).unwrap()) == bytes,
{
    lemma_auto_spec_u32_to_from_le_bytes();
    lemma_auto_spec_u64_to_from_le_bytes();
    let receipt = decode_receipt(bytes).unwrap();
    let lines = word32(bytes, 0) as int;
    let q = 4 + 16 * lines;
    let amounts = word32(bytes, q) as int;
    let t = q + 4 + 8 * amounts;
    let flagged = bytes[t + 17] as int;
    let p = t + 18 + flagged;
    lemma_uuids_cover(bytes, lines);
    lemma_quantities_cover(bytes, q, amounts);
    lemma_identity_at(bytes, p);
    lemma_identity_at(bytes, p + 32);
    assert(cart_bytes(receipt) =~= bytes.subrange(0, t));
    assert(payment_bytes(receipt) =~= bytes.subrange(t, p));
    assert(party_bytes(receipt) =~= bytes.subrange(p, p + 72));
}

/// Reading is the inverse of writing: bytes read as a receipt exactly when
/// they are its byte form.
pub proof fn lemma_decode_inverts_encode(bytes: Seq<u8>, receipt: PurchaseView)
    ensures
        decode_receipt(bytes) == Some(receipt) <==> encodable(receipt) && encode_receipt(receipt)
            == bytes,
{
    if decode_receipt(bytes) == Some(receipt) {
        lemma_decoded_receipt_encodes(bytes);
    }
    if encodable(receipt) && encode_receipt(receipt) == bytes {
        lemma_receipt_round_trip(receipt);
    }
}

} // verus!
