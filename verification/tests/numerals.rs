use textrender::{append_decimal, append_signed};

#[test]
fn decimal_of_zero_and_of_the_largest() {
    let mut s = String::new();
    append_decimal(&mut s, 0);
    s.push(' ');
    append_decimal(&mut s, u64::MAX);
    assert_eq!(s, "0 18446744073709551615");
}

#[test]
fn decimal_agrees_with_std_formatting() {
    for n in [1u64, 9, 10, 11, 99, 100, 101, 1234567890, 1 << 40] {
        let mut s = String::new();
        append_decimal(&mut s, n);
        assert_eq!(s, format!("{}", n));
    }
}

#[test]
fn signed_decimal_carries_a_minus() {
    for v in [0i64, -1, 1, -10, i64::MIN, i64::MAX, -2147483648] {
        let mut s = String::from(">");
        append_signed(&mut s, v);
        assert_eq!(s, format!(">{}", v));
    }
}
