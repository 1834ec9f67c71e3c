use gahyar::text::{decimal, persian_digits, persian_number, str_eq};

#[test]
fn decimal_and_persian_digits() {
    assert_eq!(decimal(0), "0");
    assert_eq!(decimal(-1405), "-1405");
    assert_eq!(decimal(i64::MIN), i64::MIN.to_string());
    assert_eq!(decimal(i64::MAX), i64::MAX.to_string());
    assert_eq!(persian_number(1405), "۱۴۰۵");
    assert_eq!(persian_digits("1405/01/02 x"), "۱۴۰۵/۰۱/۰۲ x");
    assert!(str_eq("abc", "abc"));
    assert!(!str_eq("abc", "abd"));
    assert!(!str_eq("ab", "abc"));
}
