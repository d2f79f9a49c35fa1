use erlfuzz::bigint::IntLiteral;
use erlfuzz::text::{decimal_string, write_list_strings};

#[test]
fn list_of_strings() {
    let mut f = String::from("<");
    write_list_strings(&mut f, vec!["a".to_string(), "bc".to_string(), "d".to_string()], ", ");
    assert_eq!(f, "<a, bc, d");
    let mut g = String::new();
    write_list_strings(&mut g, vec![], "-");
    assert_eq!(g, "");
    let mut h = String::new();
    write_list_strings(&mut h, vec!["only".to_string()], "-");
    assert_eq!(h, "only");
}

#[test]
fn decimals() {
    assert_eq!(decimal_string(0), "0");
    assert_eq!(decimal_string(7), "7");
    assert_eq!(decimal_string(10), "10");
    assert_eq!(decimal_string(1234567890), "1234567890");
    assert_eq!(decimal_string(u64::MAX), "18446744073709551615");
}

#[test]
fn integer_literals() {
    assert_eq!(IntLiteral::from_i64(0).to_string(), "0");
    assert_eq!(IntLiteral::from_i64(42).to_string(), "42");
    assert_eq!(IntLiteral::from_i64(-42).to_string(), "-42");
    assert_eq!(IntLiteral::from_i64(i64::MIN).to_string(), "-9223372036854775808");
    assert_eq!(IntLiteral::from_i64(i64::MAX).to_string(), "9223372036854775807");
    let big = IntLiteral { negative: false, magnitude: vec![0, 0, 1] };
    assert_eq!(big.to_string(), "18446744073709551616");
    let negative_zero = IntLiteral { negative: true, magnitude: vec![0, 0] };
    assert_eq!(negative_zero.to_string(), "0");
    let empty = IntLiteral { negative: false, magnitude: vec![] };
    assert_eq!(empty.to_string(), "0");
}
