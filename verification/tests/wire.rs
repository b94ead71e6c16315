use sodap::identity::Identity;
use sodap::purchase::Purchase;
use sodap::types::{AnomalyFlag, TransactionStatus};

fn id(n: u8) -> Identity {
    Identity { bytes: [n; 32] }
}

fn receipt() -> Purchase {
    Purchase {
        product_uuids: vec![[0xaa; 16], [0xbb; 16]],
        quantities: vec![3, 0x0102_0304_0506_0708],
        total_paid: 750,
        gas_fee: 7,
        status: TransactionStatus::Success,
        anomaly_flag: None,
        store: id(1),
        buyer: id(9),
        timestamp: 1_700_000_000,
    }
}

fn expected_bytes() -> Vec<u8> {
    let mut bytes = Vec::new();
    bytes.extend_from_slice(&[2, 0, 0, 0]);
    bytes.extend_from_slice(&[0xaa; 16]);
    bytes.extend_from_slice(&[0xbb; 16]);
    bytes.extend_from_slice(&[2, 0, 0, 0]);
    bytes.extend_from_slice(&[3, 0, 0, 0, 0, 0, 0, 0]);
    bytes.extend_from_slice(&[8, 7, 6, 5, 4, 3, 2, 1]);
    bytes.extend_from_slice(&[0xee, 0x02, 0, 0, 0, 0, 0, 0]);
    bytes.extend_from_slice(&[7, 0, 0, 0, 0, 0, 0, 0]);
    bytes.push(0);
    bytes.push(0);
    bytes.extend_from_slice(&[1; 32]);
    bytes.extend_from_slice(&[9; 32]);
    bytes.extend_from_slice(&[0x00, 0xf1, 0x53, 0x65, 0, 0, 0, 0]);
    bytes
}

#[test]
fn receipt_is_written_field_by_field() {
    assert_eq!(receipt().to_bytes(), Some(expected_bytes()));
    assert_eq!(expected_bytes().len(), 4 + 32 + 4 + 16 + 8 + 8 + 1 + 1 + 32 + 32 + 8);
}

#[test]
fn receipt_is_read_field_by_field() {
    assert_eq!(Purchase::from_bytes(&expected_bytes()), Some(receipt()));
}

#[test]
fn written_receipt_reads_back_equal() {
    let statuses = [TransactionStatus::Success, TransactionStatus::Failed, TransactionStatus::Pending];
    let flags = [
        None,
        Some(AnomalyFlag::HighValue),
        Some(AnomalyFlag::MultiplePurchases),
        Some(AnomalyFlag::UnusualTime),
        Some(AnomalyFlag::Other),
    ];
    let stamps = [0, 1, -1, i64::MAX, i64::MIN, 1_700_000_000, -1_700_000_000];
    for status in statuses {
        for anomaly_flag in flags {
            for timestamp in stamps {
                let written = Purchase { status, anomaly_flag, timestamp, ..receipt() };
                let bytes = written.to_bytes().unwrap();
                assert_eq!(Purchase::from_bytes(&bytes), Some(written));
            }
        }
    }
}

#[test]
fn empty_lists_and_extreme_amounts_read_back_equal() {
    let written = Purchase {
        product_uuids: vec![],
        quantities: vec![],
        total_paid: u64::MAX,
        gas_fee: 0,
        ..receipt()
    };
    let bytes = written.to_bytes().unwrap();
    assert_eq!(bytes.len(), 4 + 4 + 8 + 8 + 1 + 1 + 32 + 32 + 8);
    assert_eq!(Purchase::from_bytes(&bytes), Some(written));
}

#[test]
fn lists_of_different_lengths_read_back_equal() {
    let written = Purchase {
        product_uuids: (0..7u8).map(|n| [n; 16]).collect(),
        quantities: vec![u64::MAX, 0, 1],
        ..receipt()
    };
    let bytes = written.to_bytes().unwrap();
    assert_eq!(Purchase::from_bytes(&bytes), Some(written));
}

#[test]
fn flag_takes_one_more_byte() {
    let flagged = Purchase { anomaly_flag: Some(AnomalyFlag::UnusualTime), ..receipt() };
    let bytes = flagged.to_bytes().unwrap();
    let plain = expected_bytes();
    assert_eq!(bytes.len(), plain.len() + 1);
    assert_eq!(bytes[..73], plain[..73]);
    assert_eq!(bytes[73], 1);
    assert_eq!(bytes[74], 2);
    assert_eq!(bytes[75..], plain[74..]);
}

#[test]
fn negative_timestamp_is_written_in_twos_complement() {
    let bytes = Purchase { timestamp: -2, ..receipt() }.to_bytes().unwrap();
    assert_eq!(bytes[bytes.len() - 8..], [0xfe, 0xff, 0xff, 0xff, 0xff, 0xff, 0xff, 0xff]);
    let bytes = Purchase { timestamp: i64::MIN, ..receipt() }.to_bytes().unwrap();
    assert_eq!(bytes[bytes.len() - 8..], [0, 0, 0, 0, 0, 0, 0, 0x80]);
}

#[test]
fn truncated_receipts_are_refused() {
    let bytes = expected_bytes();
    for len in 0..bytes.len() {
        assert_eq!(Purchase::from_bytes(&bytes[..len]), None, "prefix of {} bytes", len);
    }
}

#[test]
fn trailing_bytes_are_refused() {
    let mut bytes = expected_bytes();
    bytes.push(0);
    assert_eq!(Purchase::from_bytes(&bytes), None);
}

#[test]
fn unknown_tags_are_refused() {
    let mut bytes = expected_bytes();
    bytes[72] = 3;
    assert_eq!(Purchase::from_bytes(&bytes), None);
    let mut bytes = expected_bytes();
    bytes[73] = 2;
    assert_eq!(Purchase::from_bytes(&bytes), None);
    let mut bytes = Purchase { anomaly_flag: Some(AnomalyFlag::Other), ..receipt() }.to_bytes().unwrap();
    assert_eq!(bytes[74], 3);
    bytes[74] = 4;
    assert_eq!(Purchase::from_bytes(&bytes), None);
}

#[test]
fn announced_length_beyond_the_input_is_refused() {
    let mut bytes = expected_bytes();
    bytes[0] = 3;
    assert_eq!(Purchase::from_bytes(&bytes), None);
    let mut bytes = expected_bytes();
    bytes[0..4].copy_from_slice(&[0xff, 0xff, 0xff, 0xff]);
    assert_eq!(Purchase::from_bytes(&bytes), None);
    let mut bytes = expected_bytes();
    bytes[36..40].copy_from_slice(&[0xff, 0xff, 0xff, 0xff]);
    assert_eq!(Purchase::from_bytes(&bytes), None);
}

#[test]
fn receipt_is_built_from_its_fields() {
    let built = Purchase::new(
        id(1),
        id(9),
        vec![[0xaa; 16], [0xbb; 16]],
        vec![3, 0x0102_0304_0506_0708],
        750,
        7,
        TransactionStatus::Success,
        None,
        1_700_000_000,
    );
    assert_eq!(built, receipt());
    let flagged = Purchase::new(
        id(1),
        id(9),
        vec![],
        vec![],
        0,
        0,
        TransactionStatus::Pending,
        Some(AnomalyFlag::HighValue),
        -5,
    );
    assert_eq!(flagged.status, TransactionStatus::Pending);
    assert_eq!(flagged.anomaly_flag, Some(AnomalyFlag::HighValue));
    assert_eq!(flagged.timestamp, -5);
}
