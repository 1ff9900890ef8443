use data_coalition::amount::Amount;

fn amount(bytes: &[u8]) -> Amount {
    Amount::from_be_bytes(&bytes.to_vec())
}

#[test]
fn zero_has_empty_encoding() {
    assert_eq!(Amount::zero().to_be_bytes(), Vec::<u8>::new());
    assert!(Amount::zero().is_zero());
    assert_eq!(Amount::from_u64(0).to_be_bytes(), Vec::<u8>::new());
}

#[test]
fn from_u64_encodes_big_endian() {
    assert_eq!(Amount::from_u64(1).to_be_bytes(), vec![1]);
    assert_eq!(Amount::from_u64(256).to_be_bytes(), vec![1, 0]);
    assert_eq!(Amount::from_u64(0x0102_0304).to_be_bytes(), vec![1, 2, 3, 4]);
    assert_eq!(Amount::from_u64(u64::MAX).to_be_bytes(), vec![255; 8]);
}

#[test]
fn leading_zeros_are_dropped() {
    assert_eq!(amount(&[0, 0, 7, 0]).to_be_bytes(), vec![7, 0]);
    assert_eq!(amount(&[0, 0]).to_be_bytes(), Vec::<u8>::new());
    assert!(amount(&[0, 0]).is_zero());
}

#[test]
fn addition_carries_past_u64() {
    let sum = Amount::from_u64(u64::MAX).add(&Amount::from_u64(1));
    assert_eq!(sum.to_be_bytes(), vec![1, 0, 0, 0, 0, 0, 0, 0, 0]);
    let big = amount(&[1, 0, 0, 0, 0, 0, 0, 0, 0, 0, 0, 0]);
    assert_eq!(big.add(&big).to_be_bytes(), vec![2, 0, 0, 0, 0, 0, 0, 0, 0, 0, 0, 0]);
    assert_eq!(Amount::from_u64(200).add(&Amount::from_u64(100)).to_be_bytes(), vec![1, 44]);
}

#[test]
fn subtraction_borrows_and_refuses_negative() {
    let a = amount(&[1, 0, 0]);
    let b = Amount::from_u64(1);
    assert_eq!(a.checked_sub(&b).unwrap().to_be_bytes(), vec![255, 255]);
    assert!(b.checked_sub(&a).is_none());
    assert!(a.checked_sub(&a).unwrap().is_zero());
}

#[test]
fn comparison_follows_value() {
    assert!(amount(&[0, 5]).ge(&Amount::from_u64(5)));
    assert!(Amount::from_u64(5).ge(&amount(&[0, 5])));
    assert!(!Amount::from_u64(4).ge(&Amount::from_u64(5)));
    assert!(amount(&[1, 0, 0, 0, 0, 0, 0, 0, 0]).ge(&Amount::from_u64(u64::MAX)));
}

#[test]
fn fits_u64_and_low_byte() {
    assert!(Amount::from_u64(u64::MAX).fits_u64());
    assert!(!Amount::from_u64(u64::MAX).add(&Amount::from_u64(1)).fits_u64());
    assert_eq!(Amount::from_u64(258).low_byte(), 2);
    assert_eq!(Amount::zero().low_byte(), 0);
}

#[test]
fn encoding_round_trip() {
    for bytes in [vec![], vec![9], vec![1, 2, 3], vec![255; 20]] {
        let a = amount(&bytes);
        assert_eq!(Amount::from_be_bytes(&a.to_be_bytes()).to_be_bytes(), bytes);
    }
}
