use ex_monty::{BigInt, Sign};

fn two_to_the_100() -> Vec<u8> {
    let mut bytes = vec![0u8; 13];
    bytes[0] = 16;
    bytes
}

#[test]
fn from_bytes_be_drops_leading_zeros() {
    let n = BigInt::from_bytes_be(Sign::Plus, &[0, 0, 1, 2]);
    assert_eq!(n.to_bytes_be(), (Sign::Plus, vec![1, 2]));
    assert_eq!(n, BigInt::from_bytes_be(Sign::Plus, &[1, 2]));
}

#[test]
fn from_bytes_be_reads_most_significant_byte_first() {
    let n = BigInt::from_bytes_be(Sign::Plus, &[4, 101]);
    assert_eq!(n.to_i64(), Some(1125));
    let m = BigInt::from_bytes_be(Sign::Minus, &[4, 101]);
    assert_eq!(m.to_i64(), Some(-1125));
    assert_eq!(m.to_bytes_be(), (Sign::Minus, vec![4, 101]));
}

#[test]
fn zero_has_no_sign() {
    assert_eq!(BigInt::from_bytes_be(Sign::Plus, &[]).to_bytes_be(), (Sign::NoSign, vec![0]));
    assert_eq!(BigInt::from_bytes_be(Sign::Minus, &[0, 0]).to_bytes_be(), (Sign::NoSign, vec![0]));
    assert_eq!(BigInt::from_bytes_be(Sign::Plus, &[0]).to_i64(), Some(0));
}

#[test]
fn no_sign_makes_zero_of_any_magnitude() {
    let n = BigInt::from_bytes_be(Sign::NoSign, &[1, 2, 3]);
    assert_eq!(n.to_bytes_be(), (Sign::NoSign, vec![0]));
    assert_eq!(n.to_i64(), Some(0));
    assert_eq!(n.to_u64(), Some(0));
}

#[test]
fn to_i64_covers_the_whole_range() {
    let max = BigInt::from_bytes_be(Sign::Plus, &[0x7f, 0xff, 0xff, 0xff, 0xff, 0xff, 0xff, 0xff]);
    assert_eq!(max.to_i64(), Some(i64::MAX));
    let above = BigInt::from_bytes_be(Sign::Plus, &[0x80, 0, 0, 0, 0, 0, 0, 0]);
    assert_eq!(above.to_i64(), None);
    let min = BigInt::from_bytes_be(Sign::Minus, &[0x80, 0, 0, 0, 0, 0, 0, 0]);
    assert_eq!(min.to_i64(), Some(i64::MIN));
    let below = BigInt::from_bytes_be(Sign::Minus, &[0x80, 0, 0, 0, 0, 0, 0, 1]);
    assert_eq!(below.to_i64(), None);
}

#[test]
fn to_i64_rejects_what_needs_more_than_eight_bytes() {
    assert_eq!(BigInt::from_bytes_be(Sign::Plus, &two_to_the_100()).to_i64(), None);
    assert_eq!(BigInt::from_bytes_be(Sign::Minus, &two_to_the_100()).to_i64(), None);
    assert_eq!(BigInt::from_bytes_be(Sign::Plus, &[1, 0, 0, 0, 0, 0, 0, 0, 0]).to_u64(), None);
}

#[test]
fn to_u64_covers_the_whole_range() {
    let max = BigInt::from_bytes_be(Sign::Plus, &[0xff; 8]);
    assert_eq!(max.to_u64(), Some(u64::MAX));
    assert_eq!(max.to_i64(), None);
    assert_eq!(BigInt::from_bytes_be(Sign::Minus, &[1]).to_u64(), None);
    assert_eq!(BigInt::from_bytes_be(Sign::Plus, &[1, 0]).to_u64(), Some(256));
}

#[test]
fn from_u64_is_undone_by_to_u64() {
    for n in [0u64, 1, 255, 256, 65_535, 1 << 32, i64::MAX as u64, (i64::MAX as u64) + 1, u64::MAX] {
        assert_eq!(BigInt::from_u64(n).to_u64(), Some(n));
    }
    assert_eq!(BigInt::from_u64(258).to_bytes_be(), (Sign::Plus, vec![1, 2]));
    assert_eq!(BigInt::from_u64(0).to_bytes_be(), (Sign::NoSign, vec![0]));
}

#[test]
fn same_compares_the_numbers() {
    let a = BigInt::from_bytes_be(Sign::Plus, &two_to_the_100());
    let mut padded = vec![0u8, 0u8];
    padded.extend(two_to_the_100());
    let b = BigInt::from_bytes_be(Sign::Plus, &padded);
    let c = BigInt::from_bytes_be(Sign::Minus, &two_to_the_100());
    assert!(a.same(&b));
    assert!(!a.same(&c));
    assert!(a.duplicate().same(&a));
    assert!(BigInt::from_bytes_be(Sign::Plus, &[0]).same(&BigInt::from_bytes_be(Sign::Minus, &[])));
}

#[test]
fn agrees_with_the_outside_arithmetic() {
    let n = BigInt::from_bytes_be(Sign::Plus, &two_to_the_100());
    let outside = num_bigint::BigInt::from(1u8) << 100usize;
    let (sign, magnitude) = n.to_bytes_be();
    assert_eq!(sign, Sign::Plus);
    assert_eq!(num_bigint::BigInt::from_bytes_be(num_bigint::Sign::Plus, &magnitude), outside);
}
