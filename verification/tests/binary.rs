use textrender::binary32::{finite, negative, scale_down, scale_up, thousandths};

#[test]
fn scale_up_doubles_until_it_no_longer_fits() {
    assert_eq!(scale_up(3, 0), Some(3));
    assert_eq!(scale_up(3, 4), Some(48));
    assert_eq!(scale_up(1, 63), Some(1 << 63));
    assert_eq!(scale_up(1, 64), None);
    assert_eq!(scale_up(0, 104), Some(0));
    assert_eq!(scale_up(u64::MAX, 0), Some(u64::MAX));
    assert_eq!(scale_up(u64::MAX, 1), None);
}

#[test]
fn scale_down_rounds_ties_to_even() {
    assert_eq!(scale_down(7, 0), 7);
    assert_eq!(scale_down(7, 1), 4);
    assert_eq!(scale_down(5, 1), 2);
    assert_eq!(scale_down(6, 2), 2);
    assert_eq!(scale_down(10, 2), 2);
    assert_eq!(scale_down(11, 2), 3);
    assert_eq!(scale_down(9, 2), 2);
    assert_eq!(scale_down(1, 1), 0);
    assert_eq!(scale_down(3, 1), 2);
    assert_eq!(scale_down(1, 149), 0);
    assert_eq!(scale_down(u64::MAX, 1), 1 << 63);
    assert_eq!(scale_down(u64::MAX, 64), 1);
    assert_eq!(scale_down(u64::MAX, 65), 0);
    assert_eq!(scale_down(0, 7), 0);
}

#[test]
fn finite_and_negative_read_the_fields() {
    assert!(finite(1.5f32.to_bits()));
    assert!(finite(f32::MAX.to_bits()));
    assert!(!finite(f32::INFINITY.to_bits()));
    assert!(!finite(f32::NAN.to_bits()));
    assert!(negative((-1.5f32).to_bits()));
    assert!(!negative(1.5f32.to_bits()));
    assert!(!negative((-0.0f32).to_bits()));
    assert!(negative(0x8000_0001));
}

#[test]
fn thousandths_of_some_numbers() {
    assert_eq!(thousandths(1.0f32.to_bits()), Some(1000));
    assert_eq!(thousandths(0.5f32.to_bits()), Some(500));
    assert_eq!(thousandths((-2.25f32).to_bits()), Some(2250));
    assert_eq!(thousandths(16777216.0f32.to_bits()), Some(16_777_216_000));
    assert_eq!(thousandths(0), Some(0));
    assert_eq!(thousandths(f32::NAN.to_bits()), None);
    assert_eq!(thousandths(f32::MAX.to_bits()), None);
}
