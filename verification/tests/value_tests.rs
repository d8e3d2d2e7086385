use solar_core::types::{ty_name_str, Ty};
use solar_core::value::{int_to_text, Int, Value};

#[test]
fn type_names_render() {
    assert_eq!(ty_name_str(Ty::Void), "Void");
    assert_eq!(ty_name_str(Ty::Bool), "Bool");
    assert_eq!(ty_name_str(Ty::Str), "String");
    assert_eq!(ty_name_str(Ty::I8), "Int8");
    assert_eq!(ty_name_str(Ty::I64), "Int64");
    assert_eq!(ty_name_str(Ty::U16), "Uint16");
    assert_eq!(ty_name_str(Ty::U64), "Uint64");
}

#[test]
fn int_decimal_text() {
    assert_eq!(int_to_text(Int::Int64(0)), "0");
    assert_eq!(int_to_text(Int::Int64(-42)), "-42");
    assert_eq!(int_to_text(Int::Int32(1000000)), "1000000");
    assert_eq!(int_to_text(Int::Uint64(u64::MAX)), "18446744073709551615");
    assert_eq!(int_to_text(Int::Int64(i64::MIN)), "-9223372036854775808");
    assert_eq!(int_to_text(Int::Int8(-128)), "-128");
    assert_eq!(int_to_text(Int::Uint8(255)), "255");
}

#[test]
fn value_textual_forms() {
    assert_eq!(Value::Void.to_text(), "()");
    assert_eq!(Value::Bool(true).to_text(), "true");
    assert_eq!(Value::Bool(false).to_text(), "false");
    assert_eq!(Value::Int(Int::Int16(-7)).to_text(), "-7");
    assert_eq!(Value::Str(String::from("hi")).to_text(), "hi");
}

#[test]
fn value_types() {
    assert_eq!(Value::Void.ty_of(), Ty::Void);
    assert_eq!(Value::Bool(true).ty_of(), Ty::Bool);
    assert_eq!(Value::Int(Int::Uint32(3)).ty_of(), Ty::U32);
    assert_eq!(Value::Str(String::new()).ty_of(), Ty::Str);
}
