use solar_core::ast::IntWidth;
use solar_core::compile::parse_int_literal;
use solar_core::value::Int;

#[test]
fn parse_defaults_to_int64() {
    assert!(matches!(
        parse_int_literal(&String::from("123"), &None),
        Some(Int::Int64(123))
    ));
    assert!(matches!(
        parse_int_literal(&String::from("-1"), &None),
        Some(Int::Int64(-1))
    ));
}

#[test]
fn parse_respects_width_suffixes() {
    assert!(matches!(
        parse_int_literal(&String::from("-128"), &Some(IntWidth::I8)),
        Some(Int::Int8(-128))
    ));
    assert!(matches!(
        parse_int_literal(&String::from("255"), &Some(IntWidth::U8)),
        Some(Int::Uint8(255))
    ));
    assert!(matches!(
        parse_int_literal(&String::from("70000"), &Some(IntWidth::U32)),
        Some(Int::Uint32(70000))
    ));
    assert!(matches!(
        parse_int_literal(&String::from("18446744073709551615"), &Some(IntWidth::U64)),
        Some(Int::Uint64(u64::MAX))
    ));
}

#[test]
fn parse_rejects_out_of_range() {
    assert!(parse_int_literal(&String::from("128"), &Some(IntWidth::I8)).is_none());
    assert!(parse_int_literal(&String::from("-129"), &Some(IntWidth::I8)).is_none());
    assert!(parse_int_literal(&String::from("256"), &Some(IntWidth::U8)).is_none());
    assert!(parse_int_literal(&String::from("-1"), &Some(IntWidth::U64)).is_none());
    // One past the largest representable magnitude.
    assert!(parse_int_literal(&String::from("18446744073709551616"), &Some(IntWidth::U64)).is_none());
    assert!(parse_int_literal(&String::from("9223372036854775808"), &None).is_none());
}

#[test]
fn parse_extremes_and_zero() {
    assert!(matches!(
        parse_int_literal(&String::from("-9223372036854775808"), &None),
        Some(Int::Int64(i64::MIN))
    ));
    // A signed zero fits every width, the unsigned ones included.
    assert!(matches!(
        parse_int_literal(&String::from("-0"), &Some(IntWidth::U8)),
        Some(Int::Uint8(0))
    ));
}

#[test]
fn parse_rejects_malformed_text() {
    assert!(parse_int_literal(&String::from(""), &None).is_none());
    assert!(parse_int_literal(&String::from("-"), &None).is_none());
    assert!(parse_int_literal(&String::from("12a"), &None).is_none());
    assert!(parse_int_literal(&String::from("a12"), &None).is_none());
    assert!(parse_int_literal(&String::from("1 2"), &None).is_none());
}
