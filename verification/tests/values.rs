use rdb::text::to_decimal;
use rdb::value::{f32_bits_equal, f64_bits_equal};
use rdb::{Datatypes, DBERROR};

fn one_of_each() -> Vec<Datatypes> {
    vec![
        Datatypes::Strings("s".to_string()),
        Datatypes::Integers(-1),
        Datatypes::UIntegers(1),
        Datatypes::Floats(1.5f32.to_bits()),
        Datatypes::Doubles(1.5f64.to_bits()),
        Datatypes::Booleans(true),
        Datatypes::BigIntegers(-1),
        Datatypes::BigUIntegers(1),
    ]
}

#[test]
fn same_type_holds_exactly_within_a_variant() {
    let values = one_of_each();
    for (i, a) in values.iter().enumerate() {
        for (j, b) in values.iter().enumerate() {
            assert_eq!(a.is_same_type(b), i == j);
        }
    }
}

#[test]
fn same_type_ignores_the_payload() {
    assert!(Datatypes::Integers(1).is_same_type(&Datatypes::Integers(2)));
    assert!(Datatypes::Strings("a".to_string()).is_same_type(&Datatypes::Strings(String::new())));
    assert!(Datatypes::Booleans(true).is_same_type(&Datatypes::Booleans(false)));
    assert!(Datatypes::Floats(f32::NAN.to_bits()).is_same_type(&Datatypes::Floats(0)));
    assert!(!Datatypes::Floats(7).is_same_type(&Datatypes::UIntegers(7)));
    assert!(!Datatypes::Doubles(7).is_same_type(&Datatypes::BigUIntegers(7)));
}

#[test]
fn full_equality_compares_variant_and_payload() {
    let values = one_of_each();
    for (i, a) in values.iter().enumerate() {
        for (j, b) in values.iter().enumerate() {
            assert_eq!(a == b, i == j);
        }
    }
    assert_ne!(Datatypes::Integers(1), Datatypes::Integers(2));
    assert_ne!(Datatypes::Strings("a".to_string()), Datatypes::Strings("b".to_string()));
    assert_ne!(Datatypes::Booleans(true), Datatypes::Booleans(false));
    assert_ne!(Datatypes::Integers(1), Datatypes::BigIntegers(1));
    assert_ne!(Datatypes::UIntegers(1), Datatypes::Floats(1));
    assert_eq!(Datatypes::BigUIntegers(u64::MAX), Datatypes::BigUIntegers(u64::MAX));
}

#[test]
fn float_patterns_compare_as_numbers() {
    let samples32 = [
        0.0f32,
        -0.0,
        1.5,
        -1.5,
        f32::INFINITY,
        f32::NEG_INFINITY,
        f32::NAN,
        -f32::NAN,
        f32::MIN_POSITIVE,
        f32::MAX,
        f32::from_bits(1),
        f32::from_bits(0x7f80_0001),
        f32::from_bits(0xffff_ffff),
    ];
    for a in samples32 {
        for b in samples32 {
            assert_eq!(f32_bits_equal(a.to_bits(), b.to_bits()), a == b);
            assert_eq!(Datatypes::Floats(a.to_bits()) == Datatypes::Floats(b.to_bits()), a == b);
        }
    }
    let samples64 = [
        0.0f64,
        -0.0,
        1.5,
        -1.5,
        f64::INFINITY,
        f64::NEG_INFINITY,
        f64::NAN,
        -f64::NAN,
        f64::MIN_POSITIVE,
        f64::MAX,
        f64::from_bits(1),
        f64::from_bits(0x7ff0_0000_0000_0001),
        f64::from_bits(u64::MAX),
    ];
    for a in samples64 {
        for b in samples64 {
            assert_eq!(f64_bits_equal(a.to_bits(), b.to_bits()), a == b);
            assert_eq!(Datatypes::Doubles(a.to_bits()) == Datatypes::Doubles(b.to_bits()), a == b);
        }
    }
}

#[test]
fn clone_is_an_exact_copy() {
    for v in one_of_each() {
        assert_eq!(v.clone(), v);
    }
    let nan = Datatypes::Doubles(f64::NAN.to_bits());
    assert!(matches!(nan.clone(), Datatypes::Doubles(b) if b == f64::NAN.to_bits()));
}

#[test]
fn decimal_text_of_numbers() {
    assert_eq!(to_decimal(0), "0");
    assert_eq!(to_decimal(7), "7");
    assert_eq!(to_decimal(9), "9");
    assert_eq!(to_decimal(10), "10");
    assert_eq!(to_decimal(1234567890), "1234567890");
    assert_eq!(to_decimal(100), "100");
    assert_eq!(to_decimal(u128::MAX), u128::MAX.to_string());
}

#[test]
fn errors_are_told_apart() {
    assert_eq!(DBERROR::InsertError, DBERROR::InsertError);
    assert_ne!(DBERROR::InsertError, DBERROR::UpdateError);
    assert_ne!(DBERROR::DeleteError, DBERROR::SelectError);
    assert_ne!(DBERROR::NoDataError, DBERROR::QueryError);
    assert_ne!(DBERROR::ConnectionError, DBERROR::TestError);
}
