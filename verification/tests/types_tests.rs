use velox_engine::errors::{BundleError, TransactionError};
use velox_engine::types::{Bundle, Transaction, BUNDLE_MAX};

#[test]
fn test_transaction_layout() {
    assert_eq!(core::mem::size_of::<Transaction>(), 32);
    assert_eq!(core::mem::align_of::<Transaction>(), 8);
}

#[test]
fn test_transaction_serialization() {
    let txn = Transaction::new_unchecked(123, 1000000, 50, 0, 1234567890);
    let bytes = txn.to_bytes();
    let txn2 = Transaction::from_bytes(&bytes);

    assert_eq!(txn.id, txn2.id);
    assert_eq!(txn.price, txn2.price);
    assert_eq!(txn.size, txn2.size);
    assert_eq!(txn.side, txn2.side);
    assert_eq!(txn.ingress_ts_ns, txn2.ingress_ts_ns);
}

#[test]
fn test_transaction_validation() {
    assert!(Transaction::new(1, 1000, 100, 0, 0).is_ok());
    assert!(Transaction::new(1, 1000, 100, 1, 0).is_ok());

    assert_eq!(
        Transaction::new(1, 1000, 100, 2, 0),
        Err(TransactionError::InvalidSide(2))
    );
    assert_eq!(
        Transaction::new(1, -1000, 100, 0, 0),
        Err(TransactionError::NegativePrice(-1000))
    );
    assert_eq!(
        Transaction::new(1, 0, 100, 0, 0),
        Err(TransactionError::NegativePrice(0))
    );
    assert_eq!(
        Transaction::new(1, 1000, 0, 0, 0),
        Err(TransactionError::ZeroSize)
    );
}

#[test]
fn test_bundle_validation() {
    let txns = [Transaction::new_unchecked(0, 1, 1, 0, 0); BUNDLE_MAX];

    assert!(Bundle::with_transactions(txns, 16, 0).is_ok());
    assert!(Bundle::with_transactions(txns, 0, 0).is_ok());

    assert_eq!(
        Bundle::with_transactions(txns, 17, 0),
        Err(BundleError::CountTooLarge { count: 17, max: 16 })
    );
}

#[test]
fn test_bundle_layout() {
    let size = core::mem::size_of::<Bundle>();
    assert_eq!(size, 32 * BUNDLE_MAX + 16);
}

#[test]
fn test_bundle_creation() {
    let bundle = Bundle::new();
    assert_eq!(bundle.count, 0);
    assert!(bundle.is_empty());
    assert!(!bundle.is_full());
}

#[test]
fn transaction_wire_image_is_little_endian() {
    let txn = Transaction::new_unchecked(
        0x0102030405060708,
        0x1112131415161718,
        0x21222324,
        1,
        0x3132333435363738,
    );
    let bytes = txn.to_bytes();
    assert_eq!(&bytes[0..8], &[0x08, 0x07, 0x06, 0x05, 0x04, 0x03, 0x02, 0x01]);
    assert_eq!(&bytes[8..16], &[0x18, 0x17, 0x16, 0x15, 0x14, 0x13, 0x12, 0x11]);
    assert_eq!(&bytes[16..20], &[0x24, 0x23, 0x22, 0x21]);
    assert_eq!(bytes[20], 1);
    assert_eq!(&bytes[21..24], &[0, 0, 0]);
    assert_eq!(&bytes[24..32], &[0x38, 0x37, 0x36, 0x35, 0x34, 0x33, 0x32, 0x31]);
    assert_eq!(Transaction::from_bytes(&bytes), txn);
}

#[test]
fn transaction_round_trip_keeps_negative_price() {
    let txn = Transaction {
        id: u64::MAX,
        price: i64::MIN,
        size: u32::MAX,
        side: 1,
        ingress_ts_ns: 12345,
    };
    assert_eq!(Transaction::from_bytes(&txn.to_bytes()), txn);
}

#[test]
fn active_transactions_are_the_first_count_slots() {
    let mut txns = [Transaction::new_unchecked(0, 1, 1, 0, 0); BUNDLE_MAX];
    txns[0] = Transaction::new_unchecked(7, 10, 2, 0, 1);
    txns[1] = Transaction::new_unchecked(8, 11, 3, 1, 2);
    let bundle = Bundle::with_transactions_unchecked(txns, 2, 99);
    assert_eq!(bundle.active_transactions(), &txns[..2]);
    assert_eq!(bundle.timestamp_ns, 99);
}
