use lox_bytecode::lox_type::LoxType;
use std::cmp::Ordering;

fn num(x: f64) -> LoxType {
    LoxType::Number(x.to_bits())
}

fn text(s: &str) -> LoxType {
    LoxType::Text(s.to_string())
}

fn expect_number(v: LoxType, x: f64) {
    match v {
        LoxType::Number(b) => assert_eq!(b, x.to_bits()),
        _ => panic!("expected a number"),
    }
}

#[test]
fn add_numbers() {
    expect_number(num(1.0).lox_add(num(2.5)), 3.5);
}

#[test]
fn sub_numbers() {
    expect_number(num(5.0).lox_sub(num(2.0)), 3.0);
}

#[test]
fn mul_numbers() {
    expect_number(num(2.0).lox_mul(num(3.0)), 6.0);
}

#[test]
fn div_numbers() {
    expect_number(num(1.0).lox_div(num(2.0)), 0.5);
}

#[test]
fn div_by_zero_is_infinite() {
    expect_number(num(1.0).lox_div(num(0.0)), f64::INFINITY);
}

#[test]
fn add_text_concatenates() {
    match text("foo").lox_add(text("bar")) {
        LoxType::Text(s) => assert_eq!(s, "foobar"),
        _ => panic!("expected text"),
    }
}

#[test]
fn add_mixed_is_absence() {
    assert!(matches!(num(1.0).lox_add(text("x")), LoxType::Absence));
}

#[test]
fn sub_text_is_absence() {
    assert!(matches!(text("a").lox_sub(text("b")), LoxType::Absence));
}

#[test]
fn add_booleans_disjoins() {
    assert!(matches!(
        LoxType::Boolean(false).lox_add(LoxType::Boolean(true)),
        LoxType::Boolean(true)
    ));
}

#[test]
fn mul_booleans_conjoins() {
    assert!(matches!(
        LoxType::Boolean(true).lox_mul(LoxType::Boolean(false)),
        LoxType::Boolean(false)
    ));
}

#[test]
fn negate_number() {
    expect_number(num(2.0).lox_not(), -2.0);
}

#[test]
fn negate_boolean_and_text() {
    assert!(matches!(LoxType::Boolean(true).lox_not(), LoxType::Boolean(false)));
    assert!(matches!(text("x").lox_not(), LoxType::Absence));
    assert!(matches!(LoxType::Absence.lox_not(), LoxType::Absence));
}

#[test]
fn truthiness() {
    assert!(!LoxType::Absence.truthy());
    assert!(!LoxType::Boolean(false).truthy());
    assert!(LoxType::Boolean(true).truthy());
    assert!(num(0.0).truthy());
    assert!(text("").truthy());
}

#[test]
fn equality_same_variant() {
    assert!(num(1.0).lox_eq(&num(1.0)));
    assert!(!num(1.0).lox_eq(&num(2.0)));
    assert!(text("ab").lox_eq(&text("ab")));
    assert!(!text("ab").lox_eq(&text("ac")));
    assert!(LoxType::Absence.lox_eq(&LoxType::Absence));
}

#[test]
fn equality_cross_variant_is_false() {
    assert!(!num(1.0).lox_eq(&text("1")));
    assert!(!LoxType::Boolean(true).lox_eq(&num(1.0)));
}

#[test]
fn nan_is_not_equal_to_itself() {
    let nan = num(f64::NAN);
    assert!(!nan.lox_eq(&num(f64::NAN)));
}

#[test]
fn signed_zeros_are_equal() {
    assert!(num(0.0).lox_eq(&num(-0.0)));
    assert_ne!((0.0f64).to_bits(), (-0.0f64).to_bits());
}

#[test]
fn number_ordering() {
    assert_eq!(num(1.0).lox_cmp(&num(2.0)), Some(Ordering::Less));
    assert_eq!(num(2.0).lox_cmp(&num(1.0)), Some(Ordering::Greater));
    assert_eq!(num(1.0).lox_cmp(&num(1.0)), Some(Ordering::Equal));
    assert_eq!(num(-1.0).lox_cmp(&num(1.0)), Some(Ordering::Less));
    assert_eq!(num(-2.0).lox_cmp(&num(-1.0)), Some(Ordering::Less));
    assert_eq!(num(0.0).lox_cmp(&num(-0.0)), Some(Ordering::Equal));
    assert_eq!(num(f64::NAN).lox_cmp(&num(1.0)), None);
}

#[test]
fn text_ordering_is_lexicographic() {
    assert_eq!(text("abc").lox_cmp(&text("abd")), Some(Ordering::Less));
    assert_eq!(text("ab").lox_cmp(&text("abc")), Some(Ordering::Less));
    assert_eq!(text("b").lox_cmp(&text("ab")), Some(Ordering::Greater));
    assert_eq!(text("ab").lox_cmp(&text("ab")), Some(Ordering::Equal));
}

#[test]
fn boolean_ordering_false_below_true() {
    assert_eq!(
        LoxType::Boolean(false).lox_cmp(&LoxType::Boolean(true)),
        Some(Ordering::Less)
    );
}

#[test]
fn cross_variant_ordering_is_none() {
    assert_eq!(num(1.0).lox_cmp(&text("1")), None);
    assert_eq!(LoxType::Absence.lox_cmp(&LoxType::Boolean(false)), None);
}
