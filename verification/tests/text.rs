use zinder_ingest::bounds::{
    nonzero_u64_to_usize, u64_to_usize_saturating, usize_to_u32_saturating,
    usize_to_u64_saturating, NonZeroU32, NonZeroU64,
};
use zinder_ingest::bytes::{
    first_difference, fixed_bytes, precedes, same_byte_strings, same_bytes,
};
use zinder_ingest::ids::{BlockHash, TransactionId, TransparentOutPoint};
use zinder_ingest::text::{
    decimal_text, decode_rpc_block_hash_hex, encode_rpc_block_hash_hex, number_in_text, same_text,
};

fn counting() -> [u8; 32] {
    let mut bytes = [0; 32];
    for (index, byte) in bytes.iter_mut().enumerate() {
        *byte = index as u8;
    }
    bytes
}

#[test]
fn block_hashes_are_written_last_byte_first() {
    let text = encode_rpc_block_hash_hex(BlockHash::from_bytes(counting()));
    assert_eq!(text, "1f1e1d1c1b1a191817161514131211100f0e0d0c0b0a09080706050403020100");
    assert_eq!(decode_rpc_block_hash_hex(&text), Some(BlockHash::from_bytes(counting())));
    assert_eq!(decode_rpc_block_hash_hex("not-a-block-hash"), None);
    assert_eq!(decode_rpc_block_hash_hex(&text[2..]), None);
}

#[test]
fn numbers_are_written_in_decimal() {
    assert_eq!(decimal_text(0), "0");
    assert_eq!(decimal_text(u64::MAX), "18446744073709551615");
    assert_eq!(number_in_text("height ", 42, " is high"), "height 42 is high");
    assert!(same_text("abc", "abc"));
    assert!(!same_text("abc", "abd"));
}

#[test]
fn bytes_are_compared_in_order() {
    let mut other = counting();
    other[9] = 200;
    assert_eq!(first_difference(&counting(), &other), Some(9));
    assert_eq!(first_difference(&counting(), &counting()), None);
    assert!(same_bytes(&counting(), &counting()));
    assert!(precedes(&counting(), &other));
    assert!(!precedes(&other, &counting()));
    assert!(same_byte_strings(&vec![1, 2], &vec![1, 2]));
    assert!(!same_byte_strings(&vec![1, 2], &vec![1, 2, 3]));
    assert_eq!(fixed_bytes(&counting().to_vec()), Some(counting()));
    assert_eq!(fixed_bytes(&vec![0; 31]), None);
}

#[test]
fn amounts_are_narrowed_without_wrapping() {
    assert!(NonZeroU32::new(0).is_none());
    assert!(NonZeroU64::new(0).is_none());
    match NonZeroU64::new(9) {
        Some(bound) => assert_eq!(nonzero_u64_to_usize(bound), 9),
        None => panic!("nine is not zero"),
    }
    assert_eq!(usize_to_u32_saturating(usize::MAX), u32::MAX);
    assert_eq!(usize_to_u64_saturating(7), 7);
    assert_eq!(u64_to_usize_saturating(7), 7);
}

#[test]
fn only_the_null_outpoint_marks_a_coinbase() {
    let null = TransactionId::from_bytes([0; 32]);
    assert!(TransparentOutPoint::new(null, u32::MAX).is_coinbase_sentinel());
    assert!(!TransparentOutPoint::new(null, 0).is_coinbase_sentinel());
    let other = TransactionId::from_bytes([1; 32]);
    assert!(!TransparentOutPoint::new(other, u32::MAX).is_coinbase_sentinel());
}
