//! Static type identifiers.
//!
//! The full static type system is an outside concern; the core only needs one
//! identifier per concrete type, enough to key the compiled-function cache and
//! to type the nodes of the instruction tree.

use vstd::prelude::*;

verus! {

/// Identifier of a concrete static type.
#[derive(Clone, Copy, Debug, PartialEq, Eq, Structural)]
pub enum Ty {
    Void,
    Bool,
    Str,
    I8,
    I16,
    I32,
    I64,
    U8,
    U16,
    U32,
    U64,
}

/// The display name of a type, as it appears in diagnostics.
pub open spec fn ty_name(t: Ty) -> Seq<char> {
    match t {
        Ty::Void => seq!['V', 'o', 'i', 'd'],
        Ty::Bool => seq!['B', 'o', 'o', 'l'],
        Ty::Str => seq!['S', 't', 'r', 'i', 'n', 'g'],
        Ty::I8 => seq!['I', 'n', 't', '8'],
        Ty::I16 => seq!['I', 'n', 't', '1', '6'],
        Ty::I32 => seq!['I', 'n', 't', '3', '2'],
        Ty::I64 => seq!['I', 'n', 't', '6', '4'],
        Ty::U8 => seq!['U', 'i', 'n', 't', '8'],
        Ty::U16 => seq!['U', 'i', 'n', 't', '1', '6'],
        Ty::U32 => seq!['U', 'i', 'n', 't', '3', '2'],
        Ty::U64 => seq!['U', 'i', 'n', 't', '6', '4'],
    }
}

/// Renders the display name of a type.
pub fn ty_name_str(t: Ty) -> (r: String)
    ensures
        r@ == ty_name(t),
{
    match t {
        Ty::Void => {
            proof {
                reveal_strlit("Void");
            }
            let r = String::from_str("Void");
            proof {
                assert(r@ =~= ty_name(t));
            }
            r
        },
        Ty::Bool => {
            proof {
                reveal_strlit("Bool");
            }
            let r = String::from_str("Bool");
            proof {
                assert(r@ =~= ty_name(t));
            }
            r
        },
        Ty::Str => {
            proof {
                reveal_strlit("String");
            }
            let r = String::from_str("String");
            proof {
                assert(r@ =~= ty_name(t));
            }
            r
        },
        Ty::I8 => {
            proof {
                reveal_strlit("Int8");
            }
            let r = String::from_str("Int8");
            proof {
                assert(r@ =~= ty_name(t));
            }
            r
        },
        Ty::I16 => {
            proof {
                reveal_strlit("Int16");
            }
            let r = String::from_str("Int16");
            proof {
                assert(r@ =~= ty_name(t));
            }
            r
        },
        Ty::I32 => {
            proof {
                reveal_strlit("Int32");
            }
            let r = String::from_str("Int32");
            proof {
                assert(r@ =~= ty_name(t));
            }
            r
        },
        Ty::I64 => {
            proof {
                reveal_strlit("Int64");
            }
            let r = String::from_str("Int64");
            proof {
                assert(r@ =~= ty_name(t));
            }
            r
        },
        Ty::U8 => {
            proof {
                reveal_strlit("Uint8");
            }
            let r = String::from_str("Uint8");
            proof {
                assert(r@ =~= ty_name(t));
            }
            r
        },
        Ty::U16 => {
            proof {
                reveal_strlit("Uint16");
            }
            let r = String::from_str("Uint16");
            proof {
                assert(r@ =~= ty_name(t));
            }
            r
        },
        Ty::U32 => {
            proof {
                reveal_strlit("Uint32");
            }
            let r = String::from_str("Uint32");
            proof {
                assert(r@ =~= ty_name(t));
            }
            r
        },
        Ty::U64 => {
            proof {
                reveal_strlit("Uint64");
            }
            let r = String::from_str("Uint64");
            proof {
                assert(r@ =~= ty_name(t));
            }
            r
        },
    }
}

} // verus!
