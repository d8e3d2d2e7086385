//! The dynamic runtime value domain.
//!
//! A `Value` is produced by evaluating an instruction tree and is also the
//! payload of constant instruction nodes. Strings are plain owned text; all
//! other variants are copied by value.

use crate::types::Ty;
use vstd::prelude::*;

verus! {

/// A width-and-signedness-tagged machine integer.
#[derive(Clone, Copy, Debug, PartialEq, Eq, Structural)]
pub enum Int {
    Int64(i64),
    Int32(i32),
    Int16(i16),
    Int8(i8),
    Uint64(u64),
    Uint32(u32),
    Uint16(u16),
    Uint8(u8),
}

/// A dynamically typed runtime value.
#[derive(Debug)]
pub enum Value {
    Void,
    Bool(bool),
    Int(Int),
    Str(String),
}

/// Mathematical mirror of `Value`: text is a sequence of characters.
pub enum ValueModel {
    Void,
    Bool(bool),
    Int(Int),
    Str(Seq<char>),
}

/// The abstraction of a runtime value.
pub open spec fn value_model(v: Value) -> ValueModel {
    match v {
        Value::Void => ValueModel::Void,
        Value::Bool(b) => ValueModel::Bool(b),
        Value::Int(i) => ValueModel::Int(i),
        Value::Str(s) => ValueModel::Str(s@),
    }
}

/// The mathematical integer held by a machine integer.
pub open spec fn int_val(i: Int) -> int {
    match i {
        Int::Int64(v) => v as int,
        Int::Int32(v) => v as int,
        Int::Int16(v) => v as int,
        Int::Int8(v) => v as int,
        Int::Uint64(v) => v as int,
        Int::Uint32(v) => v as int,
        Int::Uint16(v) => v as int,
        Int::Uint8(v) => v as int,
    }
}

/// The static type identifier of a machine integer's width.
pub open spec fn int_ty(i: Int) -> Ty {
    match i {
        Int::Int64(_) => Ty::I64,
        Int::Int32(_) => Ty::I32,
        Int::Int16(_) => Ty::I16,
        Int::Int8(_) => Ty::I8,
        Int::Uint64(_) => Ty::U64,
        Int::Uint32(_) => Ty::U32,
        Int::Uint16(_) => Ty::U16,
        Int::Uint8(_) => Ty::U8,
    }
}

/// The static type identifier of a runtime value.
pub open spec fn value_ty(v: ValueModel) -> Ty {
    match v {
        ValueModel::Void => Ty::Void,
        ValueModel::Bool(_) => Ty::Bool,
        ValueModel::Int(i) => int_ty(i),
        ValueModel::Str(_) => Ty::Str,
    }
}

/// The decimal digit character for `d`.
pub open spec fn digit_char(d: nat) -> char {
    if d == 0 {
        '0'
    } else if d == 1 {
        '1'
    } else if d == 2 {
        '2'
    } else if d == 3 {
        '3'
    } else if d == 4 {
        '4'
    } else if d == 5 {
        '5'
    } else if d == 6 {
        '6'
    } else if d == 7 {
        '7'
    } else if d == 8 {
        '8'
    } else {
        '9'
    }
}

/// Decimal digits of `n`, most significant first.
pub open spec fn dec_digits(n: nat) -> Seq<char>
    decreases n,
{
    if n < 10 {
        seq![digit_char(n)]
    } else {
        dec_digits(n / 10).push(digit_char(n % 10))
    }
}

/// Decimal text of a mathematical integer, with a leading minus sign when
/// negative.
pub open spec fn int_text(i: int) -> Seq<char> {
    if i < 0 {
        seq!['-'] + dec_digits((-i) as nat)
    } else {
        dec_digits(i as nat)
    }
}

/// The textual form of a runtime value, as written by `print`.
pub open spec fn value_text(v: ValueModel) -> Seq<char> {
    match v {
        ValueModel::Void => seq!['(', ')'],
        ValueModel::Bool(b) => if b {
            seq!['t', 'r', 'u', 'e']
        } else {
            seq!['f', 'a', 'l', 's', 'e']
        },
        ValueModel::Int(i) => int_text(int_val(i)),
        ValueModel::Str(s) => s,
    }
}

impl Clone for Value {
    /// A clone holds the very same value.
    fn clone(&self) -> (r: Self)
        ensures
            r == *self,
    {
        match self {
            Value::Void => Value::Void,
            Value::Bool(b) => Value::Bool(*b),
            Value::Int(i) => Value::Int(*i),
            Value::Str(s) => Value::Str(s.clone()),
        }
    }
}

/// One decimal digit as text.
fn digit_str(d: u64) -> (r: &'static str)
    requires
        d < 10,
    ensures
        r@ == seq![digit_char(d as nat)],
{
    if d == 0 {
        proof {
            reveal_strlit("0");
        }
        let r = "0";
        proof {
            assert(r@ =~= seq![digit_char(d as nat)]);
        }
        r
    } else if d == 1 {
        proof {
            reveal_strlit("1");
        }
        let r = "1";
        proof {
            assert(r@ =~= seq![digit_char(d as nat)]);
        }
        r
    } else if d == 2 {
        proof {
            reveal_strlit("2");
        }
        let r = "2";
        proof {
            assert(r@ =~= seq![digit_char(d as nat)]);
        }
        r
    } else if d == 3 {
        proof {
            reveal_strlit("3");
        }
        let r = "3";
        proof {
            assert(r@ =~= seq![digit_char(d as nat)]);
        }
        r
    } else if d == 4 {
        proof {
            reveal_strlit("4");
        }
        let r = "4";
        proof {
            assert(r@ =~= seq![digit_char(d as nat)]);
        }
        r
    } else if d == 5 {
        proof {
            reveal_strlit("5");
        }
        let r = "5";
        proof {
            assert(r@ =~= seq![digit_char(d as nat)]);
        }
        r
    } else if d == 6 {
        proof {
            reveal_strlit("6");
        }
        let r = "6";
        proof {
            assert(r@ =~= seq![digit_char(d as nat)]);
        }
        r
    } else if d == 7 {
        proof {
            reveal_strlit("7");
        }
        let r = "7";
        proof {
            assert(r@ =~= seq![digit_char(d as nat)]);
        }
        r
    } else if d == 8 {
        proof {
            reveal_strlit("8");
        }
        let r = "8";
        proof {
            assert(r@ =~= seq![digit_char(d as nat)]);
        }
        r
    } else {
        proof {
            reveal_strlit("9");
        }
        let r = "9";
        proof {
            assert(r@ =~= seq![digit_char(d as nat)]);
        }
        r
    }
}

/// Appends the decimal digits of `n` to `out`.
fn push_decimal(n: u64, out: &mut String)
    ensures
        final(out)@ == old(out)@ + dec_digits(n as nat),
    decreases n,
{
    if n >= 10 {
        push_decimal(n / 10, out);
    }
    let ghost mid = out@;
    out.append(digit_str(n % 10));
    proof {
        if n < 10 {
            assert(final(out)@ =~= old(out)@ + dec_digits(n as nat));
        } else {
            assert(final(out)@ =~= old(out)@ + dec_digits(n as nat));
        }
    }
}

impl Value {
    /// The static type identifier of this value.
    pub fn ty_of(&self) -> (t: Ty)
        ensures
            t == value_ty(value_model(*self)),
    {
        match self {
            Value::Void => Ty::Void,
            Value::Bool(_) => Ty::Bool,
            Value::Int(i) => match i {
                Int::Int64(_) => Ty::I64,
                Int::Int32(_) => Ty::I32,
                Int::Int16(_) => Ty::I16,
                Int::Int8(_) => Ty::I8,
                Int::Uint64(_) => Ty::U64,
                Int::Uint32(_) => Ty::U32,
                Int::Uint16(_) => Ty::U16,
                Int::Uint8(_) => Ty::U8,
            },
            Value::Str(_) => Ty::Str,
        }
    }

    /// Renders the textual form of this value, as `print` writes it.
    pub fn to_text(&self) -> (r: String)
        ensures
            r@ == value_text(value_model(*self)),
    {
        match self {
            Value::Void => {
                proof {
                    reveal_strlit("()");
                }
                let r = String::from_str("()");
                proof {
                    assert(r@ =~= value_text(value_model(*self)));
                }
                r
            },
            Value::Bool(b) => {
                if *b {
                    proof {
                        reveal_strlit("true");
                    }
                    let r = String::from_str("true");
                    proof {
                        assert(r@ =~= value_text(value_model(*self)));
                    }
                    r
                } else {
                    proof {
                        reveal_strlit("false");
                    }
                    let r = String::from_str("false");
                    proof {
                        assert(r@ =~= value_text(value_model(*self)));
                    }
                    r
                }
            },
            Value::Int(i) => int_to_text(*i),
            Value::Str(s) => s.clone(),
        }
    }
}

/// Renders the decimal text of a machine integer.
pub fn int_to_text(i: Int) -> (r: String)
    ensures
        r@ == int_text(int_val(i)),
{
    let (neg, mag): (bool, u64) = match i {
        Int::Int64(v) => if v >= 0 {
            (false, v as u64)
        } else {
            let m: i128 = -(v as i128);
            (true, m as u64)
        },
        Int::Int32(v) => if v >= 0 {
            (false, v as u64)
        } else {
            let m: i64 = -(v as i64);
            (true, m as u64)
        },
        Int::Int16(v) => if v >= 0 {
            (false, v as u64)
        } else {
            let m: i64 = -(v as i64);
            (true, m as u64)
        },
        Int::Int8(v) => if v >= 0 {
            (false, v as u64)
        } else {
            let m: i64 = -(v as i64);
            (true, m as u64)
        },
        Int::Uint64(v) => (false, v),
        Int::Uint32(v) => (false, v as u64),
        Int::Uint16(v) => (false, v as u64),
        Int::Uint8(v) => (false, v as u64),
    };
    let mut r = String::new();
    if neg {
        proof {
            reveal_strlit("-");
        }
        r.append("-");
        proof {
            assert(r@ =~= seq!['-']);
        }
    }
    push_decimal(mag, &mut r);
    proof {
        if neg {
            assert(r@ =~= int_text(int_val(i)));
        } else {
            assert(r@ =~= int_text(int_val(i)));
        }
    }
    r
}

} // verus!
