//! The compiler: resolves symbol references, memoizes compiled functions by
//! (definition site, argument types), and lowers function bodies into typed
//! instruction trees.
//!
//! Compilation is synchronous and depth-first: compiling a call compiles its
//! callee first. The function store guards recursion: a function is reserved
//! before its body is lowered, and a recursive reference that observes the
//! reservation uses the reserved index as a forward reference, reporting the
//! declared return type.
//!
//! Every compilation step is specified by a model function (`spec_...`)
//! returning both the result and the new store state; the executable
//! functions are proved to follow the model exactly. Conditions the design
//! rules out (ambiguous candidates, unimplemented declaration kinds,
//! unsupported syntax) are reported as distinct error values; the caller
//! treats them as fatal.

use crate::ast::{
    buildin_shortname, is_buildin_call, op_name_identity, op_name_print, op_name_readline,
    op_name_str_concat, Expression, FullExpression, FunctionDecl, IntWidth, Item, Literal, Span,
    SubExpr,
};
use crate::ids::{
    symbol_id_model, IdPath, IdPathModel, SsidModel, SymbolId, SymbolIdModel,
};
use crate::instr::{
    sexpr_model, sexprs_model, BuiltinOp, InstrModel, Instruction, SExprModel, StaticExpression,
};
use crate::modules::{
    find_in_module, registry_module, table_lookup, FileInfo, Module, ModuleRegistry, TableModel,
};
use crate::scope::{scope_get, Scope};
use crate::store::{store_find, FunctionInfo, FunctionStore, InfoModel, StoreModel};
use crate::types::Ty;
use crate::value::{int_ty, Int, Value, ValueModel};
use vstd::prelude::*;

verus! {

// ---------------------------------------------------------------------------
// Errors
// ---------------------------------------------------------------------------

/// A construct the design leaves unimplemented; reaching one is fatal for
/// the compilation run.
#[derive(Clone, Copy, Debug, PartialEq, Eq, Structural)]
pub enum UnsupportedKind {
    /// Reading the value of a global variable.
    GlobalVarValue,
    /// Constructing a value from a type declaration.
    TypeConstructor,
    /// Fields of a built-in type declaration.
    BuildinTypeFields,
    /// A floating-point literal: the runtime value domain has no floats.
    FloatLiteral,
    /// A tuple of more than (or fewer than) one element.
    Tuple,
    /// A multi-segment bare identifier (field access).
    FieldAccess,
}

/// A failed compilation, reported to the caller with its cause.
#[derive(Debug)]
pub enum CompilationError {
    /// No candidate was found for the referenced name.
    SymbolNotFound { path: Vec<String> },
    /// More than one candidate; disambiguation by argument types is an open
    /// question upstream, so ambiguity is reported, never resolved here.
    Ambiguous { path: Vec<String> },
    /// A call supplied arguments to a global variable.
    CallingVariable { identifier: String },
    /// A name carrying the built-in prefix that names no built-in.
    WrongBuildin { found: String },
    /// An argument of the wrong static type.
    TypeError { got: Ty, wanted: Ty },
    /// A call whose target is a plain value, not a function.
    ExpectedCallable { got: Ty },
    /// An integer literal that does not parse or overflows its width.
    IntParse { span: Span },
    /// Argument count does not match the parameter count.
    ArityMismatch { expected: usize, got: usize },
    /// A built-in was applied to the wrong number of arguments.
    BuildinArity { expected: usize, got: usize },
    /// An unimplemented construct was reached.
    Unsupported { kind: UnsupportedKind },
    /// The recursion bound on nested compilation was exhausted.
    DepthLimit,
}

/// Mathematical mirror of `CompilationError`.
#[verifier::ext_equal]
pub enum ErrModel {
    SymbolNotFound { path: IdPathModel },
    Ambiguous { path: IdPathModel },
    CallingVariable { identifier: Seq<char> },
    WrongBuildin { found: Seq<char> },
    TypeError { got: Ty, wanted: Ty },
    ExpectedCallable { got: Ty },
    IntParse { span: Span },
    ArityMismatch { expected: int, got: int },
    BuildinArity { expected: int, got: int },
    Unsupported { kind: UnsupportedKind },
    DepthLimit,
}

pub open spec fn err_model(e: CompilationError) -> ErrModel {
    match e {
        CompilationError::SymbolNotFound { path } => ErrModel::SymbolNotFound {
            path: path.deep_view(),
        },
        CompilationError::Ambiguous { path } => ErrModel::Ambiguous { path: path.deep_view() },
        CompilationError::CallingVariable { identifier } => ErrModel::CallingVariable {
            identifier: identifier@,
        },
        CompilationError::WrongBuildin { found } => ErrModel::WrongBuildin { found: found@ },
        CompilationError::TypeError { got, wanted } => ErrModel::TypeError { got, wanted },
        CompilationError::ExpectedCallable { got } => ErrModel::ExpectedCallable { got },
        CompilationError::IntParse { span } => ErrModel::IntParse { span },
        CompilationError::ArityMismatch { expected, got } => ErrModel::ArityMismatch {
            expected: expected as int,
            got: got as int,
        },
        CompilationError::BuildinArity { expected, got } => ErrModel::BuildinArity {
            expected: expected as int,
            got: got as int,
        },
        CompilationError::Unsupported { kind } => ErrModel::Unsupported { kind },
        CompilationError::DepthLimit => ErrModel::DepthLimit,
    }
}

// ---------------------------------------------------------------------------
// Integer literals
// ---------------------------------------------------------------------------

/// The value of a decimal digit character, or -1.
pub open spec fn digit_val(c: char) -> int {
    if c == '0' {
        0
    } else if c == '1' {
        1
    } else if c == '2' {
        2
    } else if c == '3' {
        3
    } else if c == '4' {
        4
    } else if c == '5' {
        5
    } else if c == '6' {
        6
    } else if c == '7' {
        7
    } else if c == '8' {
        8
    } else if c == '9' {
        9
    } else {
        -1
    }
}

/// Folds decimal digits onto `acc`; any non-digit fails.
pub open spec fn parse_nat_acc(s: Seq<char>, acc: int) -> Option<int>
    decreases s.len(),
{
    if s.len() == 0 {
        Some(acc)
    } else if digit_val(s[0]) < 0 {
        None
    } else {
        parse_nat_acc(s.drop_first(), acc * 10 + digit_val(s[0]))
    }
}

/// The integer denoted by decimal text with an optional leading minus sign.
pub open spec fn parse_int_text(s: Seq<char>) -> Option<int> {
    if s.len() == 0 {
        None
    } else if s[0] == '-' {
        if s.len() == 1 {
            None
        } else {
            match parse_nat_acc(s.drop_first(), 0) {
                Some(m) => Some(-m),
                None => None,
            }
        }
    } else {
        parse_nat_acc(s, 0)
    }
}

pub open spec fn width_min(w: IntWidth) -> int {
    match w {
        IntWidth::I8 => -0x80,
        IntWidth::I16 => -0x8000,
        IntWidth::I32 => -0x8000_0000,
        IntWidth::I64 => -0x8000_0000_0000_0000,
        IntWidth::U8 => 0,
        IntWidth::U16 => 0,
        IntWidth::U32 => 0,
        IntWidth::U64 => 0,
    }
}

pub open spec fn width_max(w: IntWidth) -> int {
    match w {
        IntWidth::I8 => 0x7f,
        IntWidth::I16 => 0x7fff,
        IntWidth::I32 => 0x7fff_ffff,
        IntWidth::I64 => 0x7fff_ffff_ffff_ffff,
        IntWidth::U8 => 0xff,
        IntWidth::U16 => 0xffff,
        IntWidth::U32 => 0xffff_ffff,
        IntWidth::U64 => 0xffff_ffff_ffff_ffff,
    }
}

/// The machine integer of the given width holding `v`.
pub open spec fn make_int(w: IntWidth, v: int) -> Int {
    match w {
        IntWidth::I8 => Int::Int8(v as i8),
        IntWidth::I16 => Int::Int16(v as i16),
        IntWidth::I32 => Int::Int32(v as i32),
        IntWidth::I64 => Int::Int64(v as i64),
        IntWidth::U8 => Int::Uint8(v as u8),
        IntWidth::U16 => Int::Uint16(v as u16),
        IntWidth::U32 => Int::Uint32(v as u32),
        IntWidth::U64 => Int::Uint64(v as u64),
    }
}

/// Without a suffix an integer literal is a 64-bit signed integer.
pub open spec fn effective_width(w: Option<IntWidth>) -> IntWidth {
    match w {
        Some(w0) => w0,
        None => IntWidth::I64,
    }
}

/// The machine integer an integer literal denotes: its decimal value, in the
/// range of its (defaulted) width.
pub open spec fn spec_parse_literal(digits: Seq<char>, w: Option<IntWidth>) -> Option<Int> {
    match parse_int_text(digits) {
        None => None,
        Some(v) => {
            let ew = effective_width(w);
            if width_min(ew) <= v <= width_max(ew) {
                Some(make_int(ew, v))
            } else {
                None
            }
        },
    }
}

/// The decimal digit a character denotes.
fn digit_of(c: char) -> (r: Option<u64>)
    ensures
        match r {
            Some(d) => digit_val(c) == d as int && d < 10,
            None => digit_val(c) < 0,
        },
{
    if c == '0' {
        Some(0)
    } else if c == '1' {
        Some(1)
    } else if c == '2' {
        Some(2)
    } else if c == '3' {
        Some(3)
    } else if c == '4' {
        Some(4)
    } else if c == '5' {
        Some(5)
    } else if c == '6' {
        Some(6)
    } else if c == '7' {
        Some(7)
    } else if c == '8' {
        Some(8)
    } else if c == '9' {
        Some(9)
    } else {
        None
    }
}

/// Parses an integer literal: decimal digits with an optional leading minus
/// sign, valued in the range of the literal's (defaulted) width. `None` is a
/// parse failure: empty or malformed text, or a value out of range.
pub fn parse_int_literal(digits: &String, width: &Option<IntWidth>) -> (r: Option<Int>)
    ensures
        r == spec_parse_literal(digits@, *width),
{
    let s = digits.as_str();
    let n = s.unicode_len();
    if n == 0 {
        return None;
    }
    let neg = s.get_char(0) == '-';
    let start: usize = if neg {
        1
    } else {
        0
    };
    if neg && n == 1 {
        return None;
    }
    // The magnitude, saturating just above the largest width's range so
    // that an over-long literal is still detected exactly.
    let cap: u128 = 0xffff_ffff_ffff_ffff;
    let mut acc: u128 = 0;
    let ghost mut gacc: int = 0;
    let mut i: usize = start;
    proof {
        assert(s@.skip(0) =~= s@);
        assert(s@.skip(1) =~= s@.drop_first());
    }
    while i < n
        invariant
            start <= i <= n,
            n == s@.len(),
            digits@ == s@,
            n >= 1,
            neg == (s@[0] == '-'),
            neg ==> n >= 2,
            start == 1 || start == 0,
            neg ==> start == 1,
            !neg ==> start == 0,
            cap == 0xffff_ffff_ffff_ffff,
            0 <= gacc,
            (gacc <= cap as int && acc == gacc) || (gacc > cap as int && acc == cap as int + 1),
            parse_nat_acc(s@.skip(start as int), 0) == parse_nat_acc(s@.skip(i as int), gacc),
        decreases n - i,
    {
        proof {
            assert(s@.skip(i as int)[0] == s@[i as int]);
            assert(s@.skip(i as int).drop_first() =~= s@.skip(i as int + 1));
        }
        let c = s.get_char(i);
        match digit_of(c) {
            None => {
                proof {
                    assert(parse_nat_acc(s@.skip(start as int), 0) is None);
                    assert(s@.skip(0) =~= s@);
                    assert(s@.skip(1) =~= s@.drop_first());
                }
                return None;
            },
            Some(d) => {
                proof {
                    gacc = gacc * 10 + d as int;
                }
                let na: u128 = acc * 10 + d as u128;
                if na > cap {
                    acc = cap + 1;
                } else {
                    acc = na;
                }
            },
        }
        i = i + 1;
    }
    proof {
        assert(s@.skip(n as int) =~= Seq::<char>::empty());
        assert(parse_nat_acc(s@.skip(start as int), 0) == Some(gacc));
        if neg {
            assert(s@.skip(1) =~= s@.drop_first());
        }
    }
    // The literal's exact mathematical value is now `gacc`, negated when
    // signed; every representable value's magnitude fits a `u64`.
    let ghost v: int = if neg {
        -gacc
    } else {
        gacc
    };
    proof {
        assert(parse_int_text(digits@) == Some(v));
    }
    if acc > cap {
        proof {
            assert(gacc > 0xffff_ffff_ffff_ffff);
            let ew = effective_width(*width);
            if neg {
                assert(v < width_min(ew));
            } else {
                assert(v > width_max(ew));
            }
        }
        return None;
    }
    let m: u64 = acc as u64;
    proof {
        assert(gacc == m as int);
    }
    let ew: IntWidth = match width {
        Some(w) => *w,
        None => IntWidth::I64,
    };
    match ew {
        IntWidth::I8 => {
            if neg {
                if m <= 0x80 {
                    Some(Int::Int8((-(m as i64)) as i8))
                } else {
                    None
                }
            } else if m <= 0x7f {
                Some(Int::Int8(m as i8))
            } else {
                None
            }
        },
        IntWidth::I16 => {
            if neg {
                if m <= 0x8000 {
                    Some(Int::Int16((-(m as i64)) as i16))
                } else {
                    None
                }
            } else if m <= 0x7fff {
                Some(Int::Int16(m as i16))
            } else {
                None
            }
        },
        IntWidth::I32 => {
            if neg {
                if m <= 0x8000_0000 {
                    Some(Int::Int32((-(m as i64)) as i32))
                } else {
                    None
                }
            } else if m <= 0x7fff_ffff {
                Some(Int::Int32(m as i32))
            } else {
                None
            }
        },
        IntWidth::I64 => {
            if neg {
                if m <= 0x8000_0000_0000_0000 {
                    Some(Int::Int64((-(m as i128)) as i64))
                } else {
                    None
                }
            } else if m <= 0x7fff_ffff_ffff_ffff {
                Some(Int::Int64(m as i64))
            } else {
                None
            }
        },
        IntWidth::U8 => {
            if neg {
                if m == 0 {
                    Some(Int::Uint8(0))
                } else {
                    None
                }
            } else if m <= 0xff {
                Some(Int::Uint8(m as u8))
            } else {
                None
            }
        },
        IntWidth::U16 => {
            if neg {
                if m == 0 {
                    Some(Int::Uint16(0))
                } else {
                    None
                }
            } else if m <= 0xffff {
                Some(Int::Uint16(m as u16))
            } else {
                None
            }
        },
        IntWidth::U32 => {
            if neg {
                if m == 0 {
                    Some(Int::Uint32(0))
                } else {
                    None
                }
            } else if m <= 0xffff_ffff {
                Some(Int::Uint32(m as u32))
            } else {
                None
            }
        },
        IntWidth::U64 => {
            if neg {
                if m == 0 {
                    Some(Int::Uint64(0))
                } else {
                    None
                }
            } else {
                Some(Int::Uint64(m))
            }
        },
    }
}

// ---------------------------------------------------------------------------
// Built-in dispatch (compile time)
// ---------------------------------------------------------------------------

/// The static type of the first argument that is not text, if any.
pub open spec fn first_bad_str(args: Seq<SExprModel>) -> Option<Ty>
    decreases args.len(),
{
    if args.len() == 0 {
        None
    } else if args[0].ty != Ty::Str {
        Some(args[0].ty)
    } else {
        first_bad_str(args.drop_first())
    }
}

/// The types of already-compiled argument expressions.
pub open spec fn arg_tys(args: Seq<SExprModel>) -> Seq<Ty> {
    Seq::new(args.len(), |i: int| args[i].ty)
}

/// What a call with the built-in prefix compiles to: never a symbol lookup,
/// whatever declarations exist. `fname` is the call's single name segment.
pub open spec fn spec_dispatch(fname: Seq<char>, args: Seq<SExprModel>) -> Result<
    SExprModel,
    ErrModel,
> {
    let short = buildin_shortname(fname);
    if short == op_name_str_concat() {
        match first_bad_str(args) {
            Some(t) => Err(ErrModel::TypeError { got: t, wanted: Ty::Str }),
            None => Ok(
                SExprModel { instr: InstrModel::Custom { code: BuiltinOp::StrConcat, args }, ty: Ty::Str },
            ),
        }
    } else if short == op_name_identity() {
        if args.len() != 1 {
            Err(ErrModel::BuildinArity { expected: 1, got: args.len() as int })
        } else {
            Ok(
                SExprModel {
                    instr: InstrModel::Custom { code: BuiltinOp::Identity, args },
                    ty: args[0].ty,
                },
            )
        }
    } else if short == op_name_print() {
        Ok(SExprModel { instr: InstrModel::Custom { code: BuiltinOp::Print, args }, ty: Ty::Void })
    } else if short == op_name_readline() {
        if args.len() > 1 {
            Err(ErrModel::BuildinArity { expected: 1, got: args.len() as int })
        } else if args.len() == 1 && args[0].ty != Ty::Str {
            Err(ErrModel::TypeError { got: args[0].ty, wanted: Ty::Str })
        } else {
            Ok(
                SExprModel {
                    instr: InstrModel::Custom { code: BuiltinOp::Readline, args },
                    ty: Ty::Str,
                },
            )
        }
    } else {
        Err(ErrModel::WrongBuildin { found: fname })
    }
}

// ---------------------------------------------------------------------------
// Candidate resolution
// ---------------------------------------------------------------------------

/// A possible resolution of a name: a lexical binding's slot, or a
/// module-level declaration.
#[derive(Debug)]
pub enum Candidate {
    Local(usize),
    Decl(SymbolId),
}

/// Mathematical mirror of `Candidate`.
#[verifier::ext_equal]
pub enum CandModel {
    Local(int),
    Decl(SymbolIdModel),
}

pub open spec fn cand_model(c: Candidate) -> CandModel {
    match c {
        Candidate::Local(s) => CandModel::Local(s as int),
        Candidate::Decl(sid) => CandModel::Decl(symbol_id_model(sid)),
    }
}

pub open spec fn cands_model(s: Seq<Candidate>) -> Seq<CandModel> {
    Seq::new(s.len(), |i: int| cand_model(s[i]))
}

pub open spec fn decls_to_cands(s: Seq<SymbolIdModel>) -> Seq<CandModel> {
    Seq::new(s.len(), |i: int| CandModel::Decl(s[i]))
}

/// Candidates contributed by the file's imports: each recorded base path is
/// expanded with the reference's remaining segments, the resulting module is
/// searched for the final segment, and every match counts.
pub open spec fn import_cands_from(
    reg: ModuleRegistry,
    bases: Seq<IdPathModel>,
    path: Seq<Seq<char>>,
    k: int,
) -> Seq<CandModel>
    decreases bases.len() - k,
{
    if k < 0 || k >= bases.len() {
        Seq::empty()
    } else {
        let expanded = bases[k] + path.drop_first();
        let here = match registry_module(reg, expanded) {
            None => Seq::<CandModel>::empty(),
            Some(m) => decls_to_cands(find_in_module(m, expanded, path.last())),
        };
        here + import_cands_from(reg, bases, path, k + 1)
    }
}

pub open spec fn import_cands(
    reg: ModuleRegistry,
    imports: TableModel,
    path: Seq<Seq<char>>,
) -> Seq<CandModel> {
    match table_lookup(imports, path[0]) {
        None => Seq::empty(),
        Some(bases) => import_cands_from(reg, bases, path, 0),
    }
}

/// Candidate resolution. A lexical binding is the sole, overriding
/// candidate; otherwise module-level declarations of the current module (for
/// single names) and imported declarations are collected, in that order.
pub open spec fn spec_resolve(
    reg: ModuleRegistry,
    cur_mod: Module,
    cur_path: IdPathModel,
    imports: TableModel,
    scope: Seq<Seq<char>>,
    path: Seq<Seq<char>>,
) -> Seq<CandModel> {
    if path.len() == 1 && scope_get(scope, path[0]) is Some {
        seq![CandModel::Local(scope_get(scope, path[0])->0)]
    } else {
        let local = if path.len() == 1 {
            decls_to_cands(find_in_module(cur_mod, cur_path, path[0]))
        } else {
            Seq::<CandModel>::empty()
        };
        local + import_cands(reg, imports, path)
    }
}

/// Compile-time half of the built-in contract: maps a call name carrying
/// the built-in prefix to a primitive instruction over the already-compiled
/// arguments, checking what can be checked statically. Never consults the
/// module registry or the store.
#[verifier::loop_isolation(false)]
fn dispatch_buildin(fname: &String, args: Vec<StaticExpression>) -> (r: Result<
    StaticExpression,
    CompilationError,
>)
    requires
        crate::ast::has_buildin_prefix(fname@),
    ensures
        match r {
            Ok(se) => spec_dispatch(fname@, sexprs_model(args@)) == Ok::<SExprModel, ErrModel>(
                sexpr_model(se),
            ),
            Err(e) => spec_dispatch(fname@, sexprs_model(args@)) == Err::<SExprModel, ErrModel>(
                err_model(e),
            ),
        },
{
    proof {
        crate::instr::lemma_sexprs_model_index(args@);
    }
    let ghost am = sexprs_model(args@);
    let short = crate::ast::str_buildin_shortname(fname.as_str());
    proof {
        reveal_strlit("str_concat");
        reveal_strlit("identity");
        reveal_strlit("print");
        reveal_strlit("readline");
        assert(("str_concat")@ =~= op_name_str_concat());
        assert(("identity")@ =~= op_name_identity());
        assert(("print")@ =~= op_name_print());
        assert(("readline")@ =~= op_name_readline());
    }
    if crate::ast::str_eq(short, "str_concat") {
        // Every argument must be text.
        let mut i: usize = 0;
        proof {
            assert(am.skip(0) =~= am);
        }
        while i < args.len()
            invariant
                i <= args@.len(),
                am == sexprs_model(args@),
                am.len() == args@.len(),
                forall|j: int| 0 <= j < am.len() ==> am[j] == sexpr_model(args@[j]),
                first_bad_str(am) == first_bad_str(am.skip(i as int)),
            decreases args@.len() - i,
        {
            proof {
                assert(am.skip(i as int)[0] == am[i as int]);
                assert(am.skip(i as int).drop_first() =~= am.skip(i as int + 1));
            }
            let t = args[i].ty;
            if !(t == Ty::Str) {
                return Err(CompilationError::TypeError { got: t, wanted: Ty::Str });
            }
            i = i + 1;
        }
        proof {
            assert(am.skip(am.len() as int) =~= Seq::<SExprModel>::empty());
        }
        Ok(
            StaticExpression {
                ty: Ty::Str,
                instr: Instruction::Custom { code: BuiltinOp::StrConcat, args },
            },
        )
    } else if crate::ast::str_eq(short, "identity") {
        // A pass-through marker with exactly one operand.
        if args.len() != 1 {
            return Err(CompilationError::BuildinArity { expected: 1, got: args.len() });
        }
        let t = args[0].ty;
        Ok(
            StaticExpression { ty: t, instr: Instruction::Custom { code: BuiltinOp::Identity, args } },
        )
    } else if crate::ast::str_eq(short, "print") {
        Ok(
            StaticExpression {
                ty: Ty::Void,
                instr: Instruction::Custom { code: BuiltinOp::Print, args },
            },
        )
    } else if crate::ast::str_eq(short, "readline") {
        // Zero arguments, or one text prompt.
        if args.len() > 1 {
            return Err(CompilationError::BuildinArity { expected: 1, got: args.len() });
        }
        if args.len() == 1 {
            let t = args[0].ty;
            if !(t == Ty::Str) {
                return Err(CompilationError::TypeError { got: t, wanted: Ty::Str });
            }
        }
        Ok(
            StaticExpression {
                ty: Ty::Str,
                instr: Instruction::Custom { code: BuiltinOp::Readline, args },
            },
        )
    } else {
        Err(CompilationError::WrongBuildin { found: fname.clone() })
    }
}

/// Appending one declaration candidate extends the mapped prefix by one.
proof fn lemma_push_decl(
    prefix: Seq<CandModel>,
    pre: Seq<Candidate>,
    c: Candidate,
    svm: Seq<SymbolIdModel>,
    t: int,
)
    requires
        0 <= t < svm.len(),
        cands_model(pre) == prefix + decls_to_cands(svm.take(t)),
        cand_model(c) == CandModel::Decl(svm[t]),
    ensures
        cands_model(pre.push(c)) =~= prefix + decls_to_cands(svm.take(t + 1)),
{
    let post = pre.push(c);
    assert(pre.len() == prefix.len() + t) by {
        assert(cands_model(pre).len() == pre.len());
    }
    assert forall|j: int| 0 <= j < post.len() implies cands_model(post)[j] == (prefix
        + decls_to_cands(svm.take(t + 1)))[j] by {
        assert(cands_model(post)[j] == cand_model(post[j]));
        if j < prefix.len() {
            assert(post[j] == pre[j]);
            assert(cand_model(pre[j]) == cands_model(pre)[j]);
        } else if j < prefix.len() + t {
            assert(post[j] == pre[j]);
            assert(cand_model(pre[j]) == cands_model(pre)[j]);
            assert(cands_model(pre)[j] == decls_to_cands(svm.take(t))[j - prefix.len()]);
            assert(decls_to_cands(svm.take(t))[j - prefix.len()] == CandModel::Decl(
                svm.take(t)[j - prefix.len()],
            ));
            assert(svm.take(t)[j - prefix.len()] == svm[j - prefix.len()]);
            assert(decls_to_cands(svm.take(t + 1))[j - prefix.len()] == CandModel::Decl(
                svm.take(t + 1)[j - prefix.len()],
            ));
        } else {
            assert(post[j] == c);
            assert(decls_to_cands(svm.take(t + 1))[j - prefix.len()] == CandModel::Decl(
                svm.take(t + 1)[j - prefix.len()],
            ));
            assert(svm.take(t + 1)[j - prefix.len()] == svm[t]);
        }
    }
    assert(cands_model(post).len() == prefix.len() + t + 1);
}

/// Lists the candidates a reference may resolve to: the lexical binding if
/// the name is in scope — lexical scope overrides everything — else the
/// current module's declarations and every declaration reachable through
/// the file's imports.
#[verifier::loop_isolation(false)]
pub fn resolve_symbol(
    reg: &ModuleRegistry,
    cur_mod: &Module,
    cur_path: &IdPath,
    imports: &crate::modules::ImportTable,
    scope: &Scope,
    path: &Vec<String>,
) -> (r: Vec<Candidate>)
    requires
        path@.len() >= 1,
    ensures
        cands_model(r@) == spec_resolve(
            *reg,
            *cur_mod,
            cur_path.deep_view(),
            imports.model(),
            scope.model(),
            path.deep_view(),
        ),
{
    let ghost goal = spec_resolve(
        *reg,
        *cur_mod,
        cur_path.deep_view(),
        imports.model(),
        scope.model(),
        path.deep_view(),
    );
    if path.len() == 1 {
        // Lexical scope wins over module- and import-level lookup.
        if let Some(slot) = scope.get(&path[0]) {
            let r = vec![Candidate::Local(slot)];
            proof {
                assert(path.deep_view()[0] == path@[0]@);
                assert(cands_model(r@) =~= goal);
            }
            return r;
        }
    }
    let mut cands: Vec<Candidate> = Vec::new();
    proof {
        assert(path.deep_view()[0] == path@[0]@);
        assert(cands_model(cands@) =~= Seq::<CandModel>::empty());
    }

    // Declarations of the current module, for single names.
    if path.len() == 1 {
        let sids = cur_mod.find(&path[0], cur_path);
        let mut k: usize = 0;
        while k < sids.len()
            invariant
                k <= sids@.len(),
                cands_model(cands@) =~= decls_to_cands(
                    crate::modules::sid_vec_model(sids@).take(k as int),
                ),
                crate::modules::sid_vec_model(sids@) == find_in_module(
                    *cur_mod,
                    cur_path.deep_view(),
                    path@[0]@,
                ),
            decreases sids@.len() - k,
        {
            let ghost pre = cands@;
            cands.push(
                Candidate::Decl(
                    SymbolId {
                        module: crate::ids::clone_path(&sids[k].module),
                        file: sids[k].file,
                        item: sids[k].item,
                    },
                ),
            );
            proof {
                let svm = crate::modules::sid_vec_model(sids@);
                assert(svm[k as int] == crate::ids::symbol_id_model(sids@[k as int]));
                assert(cand_model(cands@.last()) == CandModel::Decl(svm[k as int]));
                assert(cands_model(pre) == Seq::<CandModel>::empty() + decls_to_cands(
                    svm.take(k as int),
                )) by {
                    assert(Seq::<CandModel>::empty() + decls_to_cands(svm.take(k as int))
                        =~= decls_to_cands(svm.take(k as int)));
                }
                lemma_push_decl(
                    Seq::<CandModel>::empty(),
                    pre,
                    cands@.last(),
                    svm,
                    k as int,
                );
                assert(Seq::<CandModel>::empty() + decls_to_cands(svm.take(k as int + 1))
                    =~= decls_to_cands(svm.take(k as int + 1)));
                assert(cands_model(cands@) =~= decls_to_cands(svm.take(k as int + 1)));
            }
            k = k + 1;
        }
        proof {
            assert(crate::modules::sid_vec_model(sids@).take(sids@.len() as int)
                =~= crate::modules::sid_vec_model(sids@));
        }
    }
    let ghost local_cands = cands_model(cands@);

    // Candidates through the file's import table.
    if let Some(bases) = imports.get(&path[0]) {
        let ghost basesm = bases.deep_view();
        let mut k: usize = 0;
        proof {
            assert(cands_model(cands@) =~= local_cands + Seq::<CandModel>::empty());
        }
        while k < bases.len()
            invariant
                k <= bases@.len(),
                basesm == bases.deep_view(),
                path@.len() >= 1,
                cands_model(cands@) + import_cands_from(*reg, basesm, path.deep_view(), k as int)
                    =~= local_cands + import_cands_from(*reg, basesm, path.deep_view(), 0),
            decreases bases@.len() - k,
        {
            // Expand the base path with the reference's remaining segments.
            let mut expanded = crate::ids::clone_path(&bases[k]);
            let ghost stem = expanded.deep_view();
            let mut j: usize = 1;
            proof {
                assert(stem + path.deep_view().subrange(1, 1) =~= stem);
            }
            while j < path.len()
                invariant
                    1 <= j <= path@.len(),
                    expanded.deep_view() =~= stem + path.deep_view().subrange(1, j as int),
                decreases path@.len() - j,
            {
                let ghost dv_pre = expanded.deep_view();
                expanded.push(path[j].clone());
                proof {
                    assert(path.deep_view().subrange(1, j as int + 1) =~= path.deep_view()
                        .subrange(1, j as int).push(path.deep_view()[j as int]));
                    assert(expanded.deep_view() =~= dv_pre.push(path.deep_view()[j as int]));
                }
                j = j + 1;
            }
            proof {
                assert(path.deep_view().subrange(1, path@.len() as int) =~= path.deep_view()
                    .drop_first());
                assert(expanded.deep_view() =~= basesm[k as int] + path.deep_view().drop_first());
            }
            let ghost pre = cands@;
            if let Some(m) = reg.get(&expanded) {
                let last = &path[path.len() - 1];
                let sids = m.find(last, &expanded);
                proof {
                    assert(path@[path@.len() - 1]@ == path.deep_view().last());
                }
                let mut t: usize = 0;
                while t < sids.len()
                    invariant
                        t <= sids@.len(),
                        cands_model(cands@) =~= cands_model(pre) + decls_to_cands(
                            crate::modules::sid_vec_model(sids@).take(t as int),
                        ),
                        crate::modules::sid_vec_model(sids@) == find_in_module(
                            *m,
                            basesm[k as int] + path.deep_view().drop_first(),
                            path.deep_view().last(),
                        ),
                    decreases sids@.len() - t,
                {
                    let ghost pre2 = cands@;
                    cands.push(
                        Candidate::Decl(
                            SymbolId {
                                module: crate::ids::clone_path(&sids[t].module),
                                file: sids[t].file,
                                item: sids[t].item,
                            },
                        ),
                    );
                    proof {
                        let svm = crate::modules::sid_vec_model(sids@);
                        assert(svm[t as int] == crate::ids::symbol_id_model(sids@[t as int]));
                        assert(cand_model(cands@.last()) == CandModel::Decl(svm[t as int]));
                        lemma_push_decl(
                            cands_model(pre),
                            pre2,
                            cands@.last(),
                            svm,
                            t as int,
                        );
                        assert(cands_model(cands@) =~= cands_model(pre) + decls_to_cands(
                            svm.take(t as int + 1),
                        ));
                    }
                    t = t + 1;
                }
                proof {
                    assert(crate::modules::sid_vec_model(sids@).take(sids@.len() as int)
                        =~= crate::modules::sid_vec_model(sids@));
                }
            }
            proof {
                let pathv = path.deep_view();
                let expv = basesm[k as int] + pathv.drop_first();
                let here = match registry_module(*reg, expv) {
                    None => Seq::<CandModel>::empty(),
                    Some(m0) => decls_to_cands(find_in_module(m0, expv, pathv.last())),
                };
                assert(cands_model(cands@) =~= cands_model(pre) + here);
                assert(import_cands_from(*reg, basesm, pathv, k as int) =~= here
                    + import_cands_from(*reg, basesm, pathv, k as int + 1));
                assert(cands_model(cands@) + import_cands_from(*reg, basesm, pathv, k as int + 1)
                    =~= local_cands + import_cands_from(*reg, basesm, pathv, 0));
            }
            k = k + 1;
        }
        proof {
            assert(import_cands_from(*reg, basesm, path.deep_view(), bases@.len() as int)
                =~= Seq::<CandModel>::empty());
            assert(cands_model(cands@) =~= local_cands + import_cands_from(
                *reg,
                basesm,
                path.deep_view(),
                0,
            ));
            assert(cands_model(cands@) =~= goal);
        }
    } else {
        proof {
            assert(cands_model(cands@) =~= local_cands + Seq::<CandModel>::empty());
            assert(cands_model(cands@) =~= goal);
        }
    }
    cands
}

// ---------------------------------------------------------------------------
// The compilation model
// ---------------------------------------------------------------------------

/// The lookup context of the file being compiled: its module, the module's
/// absolute path, and the file's import table.
pub struct LkModel {
    pub cur_mod: Module,
    pub cur_path: IdPathModel,
    pub imports: TableModel,
}

/// The declaration a symbol identity addresses, if it is in range.
pub open spec fn site_item(reg: ModuleRegistry, sidm: SymbolIdModel) -> Option<Item> {
    match registry_module(reg, sidm.module) {
        None => None,
        Some(m) => if 0 <= sidm.file < m.files@.len() {
            let fi = m.files@[sidm.file];
            if 0 <= sidm.item < fi.items@.len() {
                Some(fi.items@[sidm.item])
            } else {
                None
            }
        } else {
            None
        },
    }
}

/// Body size of the function a symbol addresses; a measure for recursion.
pub open spec fn site_body_size(reg: ModuleRegistry, sidm: SymbolIdModel) -> nat {
    match site_item(reg, sidm) {
        Some(Item::Function(f)) => crate::ast::full_size(f.body),
        _ => 0,
    }
}

/// Wraps `body` in `NewLocalVar` nodes, outermost first in binding order.
/// Each wrapper threads the previously built tree; the overall type is the
/// body's.
pub open spec fn nest_lets(lets: Seq<(int, SExprModel)>, body: SExprModel) -> SExprModel
    decreases lets.len(),
{
    if lets.len() == 0 {
        body
    } else {
        let inner = nest_lets(lets.drop_first(), body);
        SExprModel {
            ty: inner.ty,
            instr: InstrModel::NewLocal {
                slot: lets[0].0,
                value: Box::new(lets[0].1),
                body: Box::new(inner),
            },
        }
    }
}

/// What a literal compiles to.
pub open spec fn spec_compile_literal(l: Literal) -> Result<SExprModel, ErrModel> {
    match l {
        Literal::Str(s) => Ok(
            SExprModel { instr: InstrModel::Const(ValueModel::Str(s@)), ty: Ty::Str },
        ),
        Literal::Bool(b) => Ok(
            SExprModel { instr: InstrModel::Const(ValueModel::Bool(b)), ty: Ty::Bool },
        ),
        Literal::Int { digits, width, span } => match spec_parse_literal(digits@, width) {
            Some(i) => Ok(
                SExprModel { instr: InstrModel::Const(ValueModel::Int(i)), ty: int_ty(i) },
            ),
            None => Err(ErrModel::IntParse { span }),
        },
        Literal::Float { .. } => Err(ErrModel::Unsupported { kind: UnsupportedKind::FloatLiteral }),
    }
}

/// Compiling the symbol behind a reference: dispatch on the declaration
/// kind. Function declarations are compiled (or found in the cache); calling
/// a global variable with arguments is an error; the other kinds are
/// unimplemented.
pub open spec fn spec_compile_symbol(
    reg: ModuleRegistry,
    store: StoreModel,
    sidm: SymbolIdModel,
    args: Seq<Ty>,
    fuel: nat,
) -> (Result<(int, Ty), ErrModel>, StoreModel)
    decreases fuel, 3 + site_body_size(reg, sidm), 0nat,
{
    match site_item(reg, sidm) {
        None => (Err(ErrModel::SymbolNotFound { path: sidm.module }), store),
        Some(it) => match it {
            Item::Function(f) => {
                let m = registry_module(reg, sidm.module)->0;
                let lk = LkModel {
                    cur_mod: m,
                    cur_path: sidm.module,
                    imports: m.files@[sidm.file].imports.model(),
                };
                spec_compile(reg, store, f, lk, sidm, args, fuel)
            },
            Item::GlobalVar { name } => if args.len() > 0 {
                (Err(ErrModel::CallingVariable { identifier: name@ }), store)
            } else {
                (Err(ErrModel::Unsupported { kind: UnsupportedKind::GlobalVarValue }), store)
            },
            Item::TypeDecl { .. } => (
                Err(ErrModel::Unsupported { kind: UnsupportedKind::TypeConstructor }),
                store,
            ),
            Item::BuildinTypeDecl { .. } => (
                Err(ErrModel::Unsupported { kind: UnsupportedKind::BuildinTypeFields }),
                store,
            ),
            Item::Test { .. } => (Err(ErrModel::SymbolNotFound { path: sidm.module }), store),
        },
    }
}

/// Compiling one function for one argument-type list. A `Complete` cache
/// entry is returned as is; a `Reserved` entry is the function currently
/// being compiled, and its index is handed back as a forward reference with
/// the declared return type. Otherwise an index is reserved, the body is
/// lowered with the parameters in scope, and the entry is completed.
pub open spec fn spec_compile(
    reg: ModuleRegistry,
    store: StoreModel,
    f: FunctionDecl,
    lk: LkModel,
    sidm: SymbolIdModel,
    args: Seq<Ty>,
    fuel: nat,
) -> (Result<(int, Ty), ErrModel>, StoreModel)
    decreases fuel, 2 + crate::ast::full_size(f.body), 0nat,
{
    let key = SsidModel { sym: sidm, args };
    match store_find(store, key) {
        Some(i) => match store[i].1 {
            InfoModel::Complete { body, .. } => (Ok((i, body.ty)), store),
            InfoModel::Reserved { ret } => (Ok((i, ret)), store),
        },
        None => {
            if f.params@.len() != args.len() {
                (
                    Err(
                        ErrModel::ArityMismatch {
                            expected: f.params@.len() as int,
                            got: args.len() as int,
                        },
                    ),
                    store,
                )
            } else {
                let idx = store.len() as int;
                let store1 = store.push((key, InfoModel::Reserved { ret: f.ret }));
                let (bres, store2) = spec_cfe(
                    reg,
                    store1,
                    lk,
                    f.params.deep_view(),
                    args,
                    f.body,
                    fuel,
                );
                match bres {
                    Err(e) => (Err(e), store2),
                    Ok(body) => (
                        Ok((idx, body.ty)),
                        store2.update(idx, (key, InfoModel::Complete { args, body })),
                    ),
                }
            }
        },
    }
}

/// Lowering a full expression.
pub open spec fn spec_cfe(
    reg: ModuleRegistry,
    store: StoreModel,
    lk: LkModel,
    scope: Seq<Seq<char>>,
    tys: Seq<Ty>,
    e: FullExpression,
    fuel: nat,
) -> (Result<SExprModel, ErrModel>, StoreModel)
    decreases fuel, crate::ast::full_size(e), 1nat,
{
    match e {
        FullExpression::Let(l) => {
            let (dres, store1) = spec_compile_defs(reg, store, lk, scope, tys, l.defs@, fuel);
            match dres {
                Err(er) => (Err(er), store1),
                Ok((lets, scope1, tys1)) => {
                    let (bres, store2) = spec_cfe(reg, store1, lk, scope1, tys1, *l.body, fuel);
                    match bres {
                        Err(er) => (Err(er), store2),
                        Ok(body) => (Ok(nest_lets(lets, body)), store2),
                    }
                },
            }
        },
        FullExpression::Simple(x) => spec_cme(reg, store, lk, scope, tys, x, fuel),
    }
}

/// Lowering the bindings of a `let`, in declared order: each value is
/// compiled in the scope extended by the earlier bindings, then its name is
/// pushed, so later values see earlier bindings and the body sees them all.
pub open spec fn spec_compile_defs(
    reg: ModuleRegistry,
    store: StoreModel,
    lk: LkModel,
    scope: Seq<Seq<char>>,
    tys: Seq<Ty>,
    defs: Seq<(String, FullExpression)>,
    fuel: nat,
) -> (Result<(Seq<(int, SExprModel)>, Seq<Seq<char>>, Seq<Ty>), ErrModel>, StoreModel)
    decreases fuel, crate::ast::defs_size(defs), 1nat,
{
    if defs.len() == 0 {
        (Ok((Seq::empty(), scope, tys)), store)
    } else {
        let (vres, store1) = spec_cfe(reg, store, lk, scope, tys, defs[0].1, fuel);
        match vres {
            Err(er) => (Err(er), store1),
            Ok(v) => {
                let slot = scope.len() as int;
                let scope1 = scope.push(defs[0].0@);
                let tys1 = tys.push(v.ty);
                let (rres, store2) = spec_compile_defs(
                    reg,
                    store1,
                    lk,
                    scope1,
                    tys1,
                    defs.drop_first(),
                    fuel,
                );
                match rres {
                    Err(er) => (Err(er), store2),
                    Ok((lets, scope2, tys2)) => (
                        Ok((seq![(slot, v)] + lets, scope2, tys2)),
                        store2,
                    ),
                }
            },
        }
    }
}

/// Lowering a minor expression: a call or a plain value.
pub open spec fn spec_cme(
    reg: ModuleRegistry,
    store: StoreModel,
    lk: LkModel,
    scope: Seq<Seq<char>>,
    tys: Seq<Ty>,
    x: Expression,
    fuel: nat,
) -> (Result<SExprModel, ErrModel>, StoreModel)
    decreases fuel, crate::ast::expr_size(x), 1nat,
{
    match x {
        Expression::Val(v) => spec_cv(reg, store, lk, scope, tys, v, fuel),
        Expression::Call(fc) => {
            let (ares, store1) = spec_compile_args(reg, store, lk, scope, tys, fc.args@, fuel);
            match ares {
                Err(er) => (Err(er), store1),
                Ok(arges) => {
                    if fc.name@.len() == 0 {
                        (Err(ErrModel::SymbolNotFound { path: fc.name.deep_view() }), store1)
                    } else if is_buildin_call(fc.name.deep_view()) {
                        (spec_dispatch(fc.name.deep_view()[0], arges), store1)
                    } else {
                        let cands = spec_resolve(
                            reg,
                            lk.cur_mod,
                            lk.cur_path,
                            lk.imports,
                            scope,
                            fc.name.deep_view(),
                        );
                        if cands.len() == 0 {
                            (
                                Err(ErrModel::SymbolNotFound { path: fc.name.deep_view() }),
                                store1,
                            )
                        } else if cands.len() > 1 {
                            (Err(ErrModel::Ambiguous { path: fc.name.deep_view() }), store1)
                        } else {
                            match cands[0] {
                                CandModel::Local(slot) => if arges.len() > 0 {
                                    (
                                        Err(
                                            ErrModel::ExpectedCallable {
                                                got: if 0 <= slot < tys.len() {
                                                    tys[slot]
                                                } else {
                                                    Ty::Void
                                                },
                                            },
                                        ),
                                        store1,
                                    )
                                } else {
                                    (
                                        Ok(
                                            SExprModel {
                                                instr: InstrModel::GetLocal(slot),
                                                ty: if 0 <= slot < tys.len() {
                                                    tys[slot]
                                                } else {
                                                    Ty::Void
                                                },
                                            },
                                        ),
                                        store1,
                                    )
                                },
                                CandModel::Decl(sidm) => if fuel == 0 {
                                    (Err(ErrModel::DepthLimit), store1)
                                } else {
                                    let (fres, store2) = spec_compile_symbol(
                                        reg,
                                        store1,
                                        sidm,
                                        arg_tys(arges),
                                        (fuel - 1) as nat,
                                    );
                                    match fres {
                                        Err(er) => (Err(er), store2),
                                        Ok((fidx, rty)) => (
                                            Ok(
                                                SExprModel {
                                                    instr: InstrModel::Call {
                                                        func: fidx,
                                                        args: arges,
                                                    },
                                                    ty: rty,
                                                },
                                            ),
                                            store2,
                                        ),
                                    }
                                },
                            }
                        }
                    }
                },
            }
        },
    }
}

/// Lowering a call's argument expressions, left to right, eagerly, before
/// the callee is resolved.
pub open spec fn spec_compile_args(
    reg: ModuleRegistry,
    store: StoreModel,
    lk: LkModel,
    scope: Seq<Seq<char>>,
    tys: Seq<Ty>,
    args: Seq<SubExpr>,
    fuel: nat,
) -> (Result<Seq<SExprModel>, ErrModel>, StoreModel)
    decreases fuel, crate::ast::subs_size(args), 1nat,
{
    if args.len() == 0 {
        (Ok(Seq::empty()), store)
    } else {
        let (hres, store1) = spec_cv(reg, store, lk, scope, tys, args[0], fuel);
        match hres {
            Err(er) => (Err(er), store1),
            Ok(h) => {
                let (rres, store2) = spec_compile_args(
                    reg,
                    store1,
                    lk,
                    scope,
                    tys,
                    args.drop_first(),
                    fuel,
                );
                match rres {
                    Err(er) => (Err(er), store2),
                    Ok(rest) => (Ok(seq![h] + rest), store2),
                }
            },
        }
    }
}

/// Lowering an argument-position expression.
pub open spec fn spec_cv(
    reg: ModuleRegistry,
    store: StoreModel,
    lk: LkModel,
    scope: Seq<Seq<char>>,
    tys: Seq<Ty>,
    v: SubExpr,
    fuel: nat,
) -> (Result<SExprModel, ErrModel>, StoreModel)
    decreases fuel, crate::ast::sub_size(v), 1nat,
{
    match v {
        SubExpr::Lit(l) => (spec_compile_literal(l), store),
        SubExpr::Path(p) => {
            if p@.len() != 1 {
                (Err(ErrModel::Unsupported { kind: UnsupportedKind::FieldAccess }), store)
            } else {
                let cands = spec_resolve(
                    reg,
                    lk.cur_mod,
                    lk.cur_path,
                    lk.imports,
                    scope,
                    p.deep_view(),
                );
                if cands.len() == 0 {
                    (Err(ErrModel::SymbolNotFound { path: p.deep_view() }), store)
                } else if cands.len() > 1 {
                    (Err(ErrModel::Ambiguous { path: p.deep_view() }), store)
                } else {
                    match cands[0] {
                        CandModel::Local(slot) => (
                            Ok(
                                SExprModel {
                                    instr: InstrModel::GetLocal(slot),
                                    ty: if 0 <= slot < tys.len() {
                                        tys[slot]
                                    } else {
                                        Ty::Void
                                    },
                                },
                            ),
                            store,
                        ),
                        CandModel::Decl(sidm) => if fuel == 0 {
                            (Err(ErrModel::DepthLimit), store)
                        } else {
                            let (fres, store2) = spec_compile_symbol(
                                reg,
                                store,
                                sidm,
                                Seq::empty(),
                                (fuel - 1) as nat,
                            );
                            match fres {
                                Err(er) => (Err(er), store2),
                                Ok((fidx, rty)) => (
                                    Ok(
                                        SExprModel {
                                            instr: InstrModel::Call {
                                                func: fidx,
                                                args: Seq::empty(),
                                            },
                                            ty: rty,
                                        },
                                    ),
                                    store2,
                                ),
                            }
                        },
                    }
                }
            }
        },
        SubExpr::Tuple(es) => {
            if es@.len() != 1 {
                (Err(ErrModel::Unsupported { kind: UnsupportedKind::Tuple }), store)
            } else {
                spec_cfe(reg, store, lk, scope, tys, es@[0], fuel)
            }
        },
    }
}

// ---------------------------------------------------------------------------
// The executable compiler
// ---------------------------------------------------------------------------

/// Mirror of collected `let` bindings: slots with compiled values.
pub open spec fn lets_model(v: Seq<(usize, StaticExpression)>) -> Seq<(int, SExprModel)> {
    Seq::new(v.len(), |i: int| (v[i].0 as int, sexpr_model(v[i].1)))
}

/// Mirroring a list of nodes commutes with appending one.
proof fn lemma_sexprs_model_push(pre: Seq<StaticExpression>, x: StaticExpression)
    ensures
        sexprs_model(pre.push(x)) == sexprs_model(pre).push(sexpr_model(x)),
{
    crate::instr::lemma_sexprs_model_index(pre.push(x));
    crate::instr::lemma_sexprs_model_index(pre);
    assert(sexprs_model(pre.push(x)) =~= sexprs_model(pre).push(sexpr_model(x)));
}

/// An element weighs less than its whole argument list.
proof fn lemma_subs_size_at(s: Seq<SubExpr>, i: int)
    requires
        0 <= i < s.len(),
    ensures
        crate::ast::sub_size(s[i]) < crate::ast::subs_size(s),
    decreases s.len(),
{
    if i > 0 {
        lemma_subs_size_at(s.drop_first(), i - 1);
    }
}

/// A binding's value weighs less than the whole binding list.
proof fn lemma_defs_size_at(s: Seq<(String, FullExpression)>, i: int)
    requires
        0 <= i < s.len(),
    ensures
        crate::ast::full_size(s[i].1) < crate::ast::defs_size(s),
    decreases s.len(),
{
    if i > 0 {
        lemma_defs_size_at(s.drop_first(), i - 1);
    }
}

/// The static type identifier of a machine integer.
fn int_ty_exec(i: Int) -> (t: Ty)
    ensures
        t == int_ty(i),
{
    match i {
        Int::Int64(_) => Ty::I64,
        Int::Int32(_) => Ty::I32,
        Int::Int16(_) => Ty::I16,
        Int::Int8(_) => Ty::I8,
        Int::Uint64(_) => Ty::U64,
        Int::Uint32(_) => Ty::U32,
        Int::Uint16(_) => Ty::U16,
        Int::Uint8(_) => Ty::U8,
    }
}

/// Compiles the declaration behind a symbol reference for concrete argument
/// types: the main entry point. Function declarations are compiled or found
/// in the cache; a global variable rejects arguments; type declarations and
/// the rest are unimplemented and reported as such.
#[verifier::loop_isolation(false)]
pub fn compile_symbol_id(
    reg: &ModuleRegistry,
    store: &mut FunctionStore,
    sid: &SymbolId,
    args: &Vec<Ty>,
    fuel: u64,
) -> (r: Result<(usize, Ty), CompilationError>)
    ensures
        ({
            let (sr, sst) = spec_compile_symbol(
                *reg,
                old(store).model(),
                symbol_id_model(*sid),
                args@,
                fuel as nat,
            );
            final(store).model() == sst && match r {
                Ok((i, t)) => sr == Ok::<(int, Ty), ErrModel>((i as int, t)),
                Err(e) => sr == Err::<(int, Ty), ErrModel>(err_model(e)),
            }
        }),
    decreases fuel, 3 + site_body_size(*reg, symbol_id_model(*sid)), 0nat,
{
    let m = match reg.get(&sid.module) {
        Some(m) => m,
        None => {
            return Err(
                CompilationError::SymbolNotFound { path: crate::ids::clone_path(&sid.module) },
            );
        },
    };
    if sid.file >= m.files.len() {
        return Err(CompilationError::SymbolNotFound { path: crate::ids::clone_path(&sid.module) });
    }
    let fi = &m.files[sid.file];
    if sid.item >= fi.items.len() {
        return Err(CompilationError::SymbolNotFound { path: crate::ids::clone_path(&sid.module) });
    }
    match &fi.items[sid.item] {
        Item::Function(f) => compile_fn(reg, store, f, m, &sid.module, &fi.imports, sid, args, fuel),
        Item::GlobalVar { name } => {
            if args.len() > 0 {
                Err(CompilationError::CallingVariable { identifier: name.clone() })
            } else {
                Err(CompilationError::Unsupported { kind: UnsupportedKind::GlobalVarValue })
            }
        },
        Item::TypeDecl { .. } => Err(
            CompilationError::Unsupported { kind: UnsupportedKind::TypeConstructor },
        ),
        Item::BuildinTypeDecl { .. } => Err(
            CompilationError::Unsupported { kind: UnsupportedKind::BuildinTypeFields },
        ),
        Item::Test { .. } => Err(
            CompilationError::SymbolNotFound { path: crate::ids::clone_path(&sid.module) },
        ),
    }
}

/// Compiles one function declaration for one argument-type list, as
/// `spec_compile` lays it out: cache first, then reserve, lower the body
/// with the parameters in scope, and complete the entry.
#[verifier::loop_isolation(false)]
fn compile_fn(
    reg: &ModuleRegistry,
    store: &mut FunctionStore,
    f: &FunctionDecl,
    cur_mod: &Module,
    cur_path: &IdPath,
    imports: &crate::modules::ImportTable,
    sid: &SymbolId,
    args: &Vec<Ty>,
    fuel: u64,
) -> (r: Result<(usize, Ty), CompilationError>)
    ensures
        ({
            let lk = LkModel {
                cur_mod: *cur_mod,
                cur_path: cur_path.deep_view(),
                imports: imports.model(),
            };
            let (sr, sst) = spec_compile(
                *reg,
                old(store).model(),
                *f,
                lk,
                symbol_id_model(*sid),
                args@,
                fuel as nat,
            );
            final(store).model() == sst && match r {
                Ok((i, t)) => sr == Ok::<(int, Ty), ErrModel>((i as int, t)),
                Err(e) => sr == Err::<(int, Ty), ErrModel>(err_model(e)),
            }
        }),
    decreases fuel, 2 + crate::ast::full_size(f.body), 0nat,
{
    let ghost lk = LkModel {
        cur_mod: *cur_mod,
        cur_path: cur_path.deep_view(),
        imports: imports.model(),
    };
    let key = crate::ids::Ssid {
        sym: SymbolId {
            module: crate::ids::clone_path(&sid.module),
            file: sid.file,
            item: sid.item,
        },
        args: crate::ids::copy_tys(args),
    };
    let ghost keym = SsidModel { sym: symbol_id_model(*sid), args: args@ };
    proof {
        assert(crate::ids::ssid_model(key) =~= keym);
    }
    if let Some((i, info)) = store.get_by_key(&key) {
        match info {
            FunctionInfo::Complete { args: _, body } => {
                let t = body.ty;
                return Ok((i, t));
            },
            FunctionInfo::Reserved { ret } => {
                let t = *ret;
                return Ok((i, t));
            },
        }
    }
    if f.params.len() != args.len() {
        return Err(
            CompilationError::ArityMismatch { expected: f.params.len(), got: args.len() },
        );
    }
    let idx = store.reserve(key, f.ret);
    let ghost store1 = store.model();

    // The parameters enter a fresh scope in declaration order; their slots
    // are the argument positions, their types the concrete argument types.
    let mut scope = Scope::new();
    let mut pi: usize = 0;
    proof {
        assert(scope.model() =~= f.params.deep_view().subrange(0, 0));
    }
    while pi < f.params.len()
        invariant
            pi <= f.params@.len(),
            scope.model() =~= f.params.deep_view().subrange(0, pi as int),
        decreases f.params@.len() - pi,
    {
        let ghost pre = scope.model();
        scope.push(f.params[pi].clone());
        proof {
            crate::modules::lemma_subrange_push(f.params.deep_view(), 0, pi as int);
            assert(f.params.deep_view()[pi as int] == f.params@[pi as int]@);
            assert(scope.model() =~= f.params.deep_view().subrange(0, pi as int + 1));
        }
        pi = pi + 1;
    }
    proof {
        assert(f.params.deep_view().subrange(0, f.params@.len() as int) =~= f.params.deep_view());
        assert(scope.model() =~= f.params.deep_view());
    }
    let mut tys = crate::ids::copy_tys(args);

    let bres = compile_full_expression(
        reg,
        store,
        cur_mod,
        cur_path,
        imports,
        &mut scope,
        &mut tys,
        &f.body,
        fuel,
    );
    match bres {
        Err(e) => Err(e),
        Ok(body) => {
            let t = body.ty;
            proof {
                lemma_cfe_extends(*reg, store1, lk, f.params.deep_view(), args@, f.body, fuel as nat);
                assert(store.model()[idx as int] == store1[idx as int]);
            }
            store.update_complete(idx, crate::ids::copy_tys(args), body);
            Ok((idx, t))
        },
    }
}

/// Lowers a full expression: a `let` chain or a minor expression. The
/// lexical scope and the slot types come back exactly as they went in.
#[verifier::loop_isolation(false)]
pub fn compile_full_expression(
    reg: &ModuleRegistry,
    store: &mut FunctionStore,
    cur_mod: &Module,
    cur_path: &IdPath,
    imports: &crate::modules::ImportTable,
    scope: &mut Scope,
    tys: &mut Vec<Ty>,
    e: &FullExpression,
    fuel: u64,
) -> (r: Result<StaticExpression, CompilationError>)
    ensures
        final(scope).model() == old(scope).model(),
        final(tys)@ == old(tys)@,
        ({
            let lk = LkModel {
                cur_mod: *cur_mod,
                cur_path: cur_path.deep_view(),
                imports: imports.model(),
            };
            let (sr, sst) = spec_cfe(
                *reg,
                old(store).model(),
                lk,
                old(scope).model(),
                old(tys)@,
                *e,
                fuel as nat,
            );
            final(store).model() == sst && match r {
                Ok(se) => sr == Ok::<SExprModel, ErrModel>(sexpr_model(se)),
                Err(e2) => sr == Err::<SExprModel, ErrModel>(err_model(e2)),
            }
        }),
    decreases fuel, crate::ast::full_size(*e), 2nat,
{
    let ghost lk = LkModel {
        cur_mod: *cur_mod,
        cur_path: cur_path.deep_view(),
        imports: imports.model(),
    };
    match e {
        FullExpression::Simple(x) => compile_minor_expr(
            reg,
            store,
            cur_mod,
            cur_path,
            imports,
            scope,
            tys,
            x,
            fuel,
        ),
        FullExpression::Let(l) => {
            let ghost s0 = store.model();
            let ghost scope0 = scope.model();
            let ghost tys0 = tys@;
            let ghost full = spec_compile_defs(*reg, s0, lk, scope0, tys0, l.defs@, fuel as nat);
            let base_len = scope.len();
            let base_tys_len = tys.len();

            // Compile each binding's value, then push its name, so later
            // bindings and the body see the earlier ones.
            let mut lets: Vec<(usize, StaticExpression)> = Vec::new();
            let mut di: usize = 0;
            proof {
                assert(l.defs@.skip(0) =~= l.defs@);
                assert(lets_model(lets@) + Seq::<(int, SExprModel)>::empty() =~= lets_model(
                    lets@,
                ));
            }
            while di < l.defs.len()
                invariant
                    di <= l.defs@.len(),
                    base_len == scope0.len(),
                    base_tys_len == tys0.len(),
                    scope.model().len() == scope0.len() + di,
                    tys@.len() == tys0.len() + di,
                    scope.model().take(base_len as int) == scope0,
                    tys@.take(base_tys_len as int) == tys0,
                    lets@.len() == di,
                    ({
                        let (rres, rst) = spec_compile_defs(
                            *reg,
                            store.model(),
                            lk,
                            scope.model(),
                            tys@,
                            l.defs@.skip(di as int),
                            fuel as nat,
                        );
                        match rres {
                            Ok((rlets, sc, tz)) => full == (
                                Ok::<_, ErrModel>((lets_model(lets@) + rlets, sc, tz)),
                                rst,
                            ),
                            Err(er) => full == (
                                Err::<(Seq<(int, SExprModel)>, Seq<Seq<char>>, Seq<Ty>), ErrModel>(
                                    er,
                                ),
                                rst,
                            ),
                        }
                    }),
                decreases l.defs@.len() - di,
            {
                proof {
                    assert(l.defs@.skip(di as int)[0] == l.defs@[di as int]);
                    assert(l.defs@.skip(di as int).drop_first() =~= l.defs@.skip(di as int + 1));
                    lemma_defs_size_at(l.defs@, di as int);
                }
                let vres = compile_full_expression(
                    reg,
                    store,
                    cur_mod,
                    cur_path,
                    imports,
                    scope,
                    tys,
                    &l.defs[di].1,
                    fuel,
                );
                match vres {
                    Err(er) => {
                        // Restore the enclosing scope before reporting.
                        restore_scope(scope, tys, base_len, base_tys_len);
                        return Err(er);
                    },
                    Ok(v) => {
                        let ghost lets_pre = lets@;
                        let slot = scope.push(l.defs[di].0.clone());
                        tys.push(v.ty);
                        let ghost vm = sexpr_model(v);
                        lets.push((slot, v));
                        proof {
                            assert(lets_model(lets@) =~= lets_model(lets_pre).push(
                                (slot as int, vm),
                            ));
                            assert(scope.model().take(base_len as int) =~= scope0);
                            assert(tys@.take(base_tys_len as int) =~= tys0);
                            assert forall|rl: Seq<(int, SExprModel)>|
                                true implies #[trigger] (lets_model(lets_pre) + (seq![
                                (slot as int, vm),
                            ] + rl)) =~= lets_model(lets@) + rl by {
                                assert(lets_model(lets_pre) + (seq![(slot as int, vm)] + rl)
                                    =~= lets_model(lets_pre).push((slot as int, vm)) + rl);
                            }
                        }
                    },
                }
                di = di + 1;
            }
            proof {
                assert(l.defs@.skip(l.defs@.len() as int) =~= Seq::<(String, FullExpression)>::empty());
            }

            // The body, in the extended scope.
            let bres = compile_full_expression(
                reg,
                store,
                cur_mod,
                cur_path,
                imports,
                scope,
                tys,
                &l.body,
                fuel,
            );
            let body = match bres {
                Err(er) => {
                    restore_scope(scope, tys, base_len, base_tys_len);
                    return Err(er);
                },
                Ok(b) => b,
            };
            restore_scope(scope, tys, base_len, base_tys_len);

            // Nest the wrappers innermost-last: each encloses the tree built
            // so far, so binding order is outermost-first.
            let ghost letsm = lets_model(lets@);
            let ghost bodym = sexpr_model(body);
            let mut tree = body;
            proof {
                assert(lets_model(lets@).take(lets@.len() as int) =~= letsm);
                assert(nest_lets(letsm.skip(lets@.len() as int), bodym) == bodym) by {
                    assert(letsm.skip(lets@.len() as int) =~= Seq::<(int, SExprModel)>::empty());
                }
            }
            while lets.len() > 0
                invariant
                    lets@.len() <= letsm.len(),
                    lets_model(lets@) =~= letsm.take(lets@.len() as int),
                    sexpr_model(tree) == nest_lets(letsm.skip(lets@.len() as int), bodym),
                decreases lets@.len(),
            {
                let ghost lpre = lets@;
                let (slot, v) = match lets.pop() {
                    Some(p) => p,
                    None => vstd::pervasive::unreached(),
                };
                proof {
                    assert(lpre[lpre.len() - 1].0 == slot && lpre[lpre.len() - 1].1 == v);
                    assert(lets_model(lpre)[lpre.len() - 1] == (slot as int, sexpr_model(v)));
                    assert(letsm.take(lpre.len() as int)[lpre.len() - 1] == letsm[lpre.len() - 1]);
                    assert(letsm[lpre.len() - 1] == (slot as int, sexpr_model(v)));
                    assert(lets@ == lpre.drop_last());
                    assert(lets_model(lets@) =~= lets_model(lpre).drop_last());
                    assert(letsm.take(lpre.len() as int).drop_last() =~= letsm.take(
                        lpre.len() - 1,
                    ));
                    assert(lets_model(lets@) =~= letsm.take(lets@.len() as int));
                }
                let ghost tpre = sexpr_model(tree);
                let t = tree.ty;
                tree = StaticExpression {
                    ty: t,
                    instr: Instruction::NewLocalVar {
                        slot,
                        value: Box::new(v),
                        body: Box::new(tree),
                    },
                };
                proof {
                    let k = lets@.len() as int;
                    assert(letsm.skip(k)[0] == letsm[k]);
                    assert(letsm.skip(k).drop_first() =~= letsm.skip(k + 1));
                    assert(nest_lets(letsm.skip(k), bodym) == SExprModel {
                        ty: tpre.ty,
                        instr: InstrModel::NewLocal {
                            slot: slot as int,
                            value: Box::new(sexpr_model(v)),
                            body: Box::new(tpre),
                        },
                    });
                    assert(tpre.ty == t);
                    assert(sexpr_model(tree) == nest_lets(letsm.skip(k), bodym));
                }
            }
            proof {
                assert(letsm.skip(0) =~= letsm);
            }
            Ok(tree)
        },
    }
}

/// Lowers a minor expression: a function call or a plain value. Arguments
/// are compiled left to right before the callee is resolved; a name with the
/// built-in prefix goes to the dispatcher and never to symbol resolution.
#[verifier::loop_isolation(false)]
fn compile_minor_expr(
    reg: &ModuleRegistry,
    store: &mut FunctionStore,
    cur_mod: &Module,
    cur_path: &IdPath,
    imports: &crate::modules::ImportTable,
    scope: &mut Scope,
    tys: &mut Vec<Ty>,
    x: &Expression,
    fuel: u64,
) -> (r: Result<StaticExpression, CompilationError>)
    ensures
        final(scope).model() == old(scope).model(),
        final(tys)@ == old(tys)@,
        ({
            let lk = LkModel {
                cur_mod: *cur_mod,
                cur_path: cur_path.deep_view(),
                imports: imports.model(),
            };
            let (sr, sst) = spec_cme(
                *reg,
                old(store).model(),
                lk,
                old(scope).model(),
                old(tys)@,
                *x,
                fuel as nat,
            );
            final(store).model() == sst && match r {
                Ok(se) => sr == Ok::<SExprModel, ErrModel>(sexpr_model(se)),
                Err(e2) => sr == Err::<SExprModel, ErrModel>(err_model(e2)),
            }
        }),
    decreases fuel, crate::ast::expr_size(*x), 2nat,
{
    let ghost lk = LkModel {
        cur_mod: *cur_mod,
        cur_path: cur_path.deep_view(),
        imports: imports.model(),
    };
    match x {
        Expression::Val(v) => compile_value(
            reg,
            store,
            cur_mod,
            cur_path,
            imports,
            scope,
            tys,
            v,
            fuel,
        ),
        Expression::Call(fc) => {
            let ghost s0 = store.model();
            let ghost scope0 = scope.model();
            let ghost tys0 = tys@;
            let ghost full = spec_compile_args(*reg, s0, lk, scope0, tys0, fc.args@, fuel as nat);

            // Arguments first, left to right: their static types are needed
            // to identify the callee.
            let mut arges: Vec<StaticExpression> = Vec::new();
            let mut ai: usize = 0;
            proof {
                assert(fc.args@.skip(0) =~= fc.args@);
                assert(sexprs_model(arges@) =~= Seq::<SExprModel>::empty());
            }
            while ai < fc.args.len()
                invariant
                    ai <= fc.args@.len(),
                    scope.model() == scope0,
                    tys@ == tys0,
                    ({
                        let (rres, rst) = spec_compile_args(
                            *reg,
                            store.model(),
                            lk,
                            scope0,
                            tys0,
                            fc.args@.skip(ai as int),
                            fuel as nat,
                        );
                        match rres {
                            Ok(rest) => full == (
                                Ok::<Seq<SExprModel>, ErrModel>(sexprs_model(arges@) + rest),
                                rst,
                            ),
                            Err(er) => full == (Err::<Seq<SExprModel>, ErrModel>(er), rst),
                        }
                    }),
                decreases fc.args@.len() - ai,
            {
                proof {
                    assert(fc.args@.skip(ai as int)[0] == fc.args@[ai as int]);
                    assert(fc.args@.skip(ai as int).drop_first() =~= fc.args@.skip(ai as int + 1));
                    lemma_subs_size_at(fc.args@, ai as int);
                }
                let vres = compile_value(
                    reg,
                    store,
                    cur_mod,
                    cur_path,
                    imports,
                    scope,
                    tys,
                    &fc.args[ai],
                    fuel,
                );
                match vres {
                    Err(er) => {
                        return Err(er);
                    },
                    Ok(v) => {
                        let ghost apre = arges@;
                        let ghost vm = sexpr_model(v);
                        arges.push(v);
                        proof {
                            lemma_sexprs_model_push(apre, arges@.last());
                            assert forall|rl: Seq<SExprModel>|
                                true implies #[trigger] (sexprs_model(apre) + (seq![vm] + rl))
                                =~= sexprs_model(arges@) + rl by {
                                assert(sexprs_model(apre) + (seq![vm] + rl) =~= sexprs_model(
                                    apre,
                                ).push(vm) + rl);
                            }
                        }
                    },
                }
                ai = ai + 1;
            }
            proof {
                assert(fc.args@.skip(fc.args@.len() as int) =~= Seq::<SubExpr>::empty());
                assert(sexprs_model(arges@) + Seq::<SExprModel>::empty() =~= sexprs_model(arges@));
            }
            let ghost argesm = sexprs_model(arges@);

            if fc.name.len() == 0 {
                return Err(
                    CompilationError::SymbolNotFound { path: crate::ids::clone_path(&fc.name) },
                );
            }

            // A prefixed name is a built-in: no symbol resolution, ever.
            if crate::ast::call_is_buildin(&fc.name) {
                proof {
                    assert(fc.name.deep_view()[0] == fc.name@[0]@);
                }
                return dispatch_buildin(&fc.name[0], arges);
            }

            let cands = resolve_symbol(reg, cur_mod, cur_path, imports, scope, &fc.name);
            if cands.len() == 0 {
                return Err(
                    CompilationError::SymbolNotFound { path: crate::ids::clone_path(&fc.name) },
                );
            }
            if cands.len() > 1 {
                return Err(
                    CompilationError::Ambiguous { path: crate::ids::clone_path(&fc.name) },
                );
            }
            proof {
                assert(cands_model(cands@)[0] == cand_model(cands@[0]));
            }
            match &cands[0] {
                Candidate::Local(slot) => {
                    let t = if *slot < tys.len() {
                        tys[*slot]
                    } else {
                        Ty::Void
                    };
                    if arges.len() > 0 {
                        Err(CompilationError::ExpectedCallable { got: t })
                    } else {
                        Ok(StaticExpression { ty: t, instr: Instruction::GetLocalVar(*slot) })
                    }
                },
                Candidate::Decl(sid2) => {
                    if fuel == 0 {
                        return Err(CompilationError::DepthLimit);
                    }
                    // The argument types identify which overload is meant.
                    let mut atys: Vec<Ty> = Vec::new();
                    let mut ti: usize = 0;
                    proof {
                        crate::instr::lemma_sexprs_model_index(arges@);
                    }
                    while ti < arges.len()
                        invariant
                            ti <= arges@.len(),
                            atys@.len() == ti,
                            forall|j: int| 0 <= j < ti ==> atys@[j] == argesm[j].ty,
                            argesm == sexprs_model(arges@),
                            argesm.len() == arges@.len(),
                            forall|j: int|
                                0 <= j < arges@.len() ==> argesm[j] == sexpr_model(arges@[j]),
                        decreases arges@.len() - ti,
                    {
                        atys.push(arges[ti].ty);
                        ti = ti + 1;
                    }
                    proof {
                        assert(atys@ =~= arg_tys(argesm));
                    }
                    let fres = compile_symbol_id(reg, store, sid2, &atys, fuel - 1);
                    match fres {
                        Err(er) => Err(er),
                        Ok((fidx, rty)) => Ok(
                            StaticExpression {
                                ty: rty,
                                instr: Instruction::FunctionCall { func: fidx, args: arges },
                            },
                        ),
                    }
                },
            }
        },
    }
}

/// Lowers an argument-position expression: a literal, a bare identifier, or
/// a parenthesized expression.
#[verifier::loop_isolation(false)]
fn compile_value(
    reg: &ModuleRegistry,
    store: &mut FunctionStore,
    cur_mod: &Module,
    cur_path: &IdPath,
    imports: &crate::modules::ImportTable,
    scope: &mut Scope,
    tys: &mut Vec<Ty>,
    v: &SubExpr,
    fuel: u64,
) -> (r: Result<StaticExpression, CompilationError>)
    ensures
        final(scope).model() == old(scope).model(),
        final(tys)@ == old(tys)@,
        ({
            let lk = LkModel {
                cur_mod: *cur_mod,
                cur_path: cur_path.deep_view(),
                imports: imports.model(),
            };
            let (sr, sst) = spec_cv(
                *reg,
                old(store).model(),
                lk,
                old(scope).model(),
                old(tys)@,
                *v,
                fuel as nat,
            );
            final(store).model() == sst && match r {
                Ok(se) => sr == Ok::<SExprModel, ErrModel>(sexpr_model(se)),
                Err(e2) => sr == Err::<SExprModel, ErrModel>(err_model(e2)),
            }
        }),
    decreases fuel, crate::ast::sub_size(*v), 2nat,
{
    match v {
        SubExpr::Lit(l) => match l {
            Literal::Str(s) => Ok(
                StaticExpression { ty: Ty::Str, instr: Instruction::Const(Value::Str(s.clone())) },
            ),
            Literal::Bool(b) => Ok(
                StaticExpression { ty: Ty::Bool, instr: Instruction::Const(Value::Bool(*b)) },
            ),
            Literal::Int { digits, width, span } => match parse_int_literal(digits, width) {
                Some(i) => {
                    let t = int_ty_exec(i);
                    Ok(StaticExpression { ty: t, instr: Instruction::Const(Value::Int(i)) })
                },
                None => Err(CompilationError::IntParse { span: *span }),
            },
            Literal::Float { .. } => Err(
                CompilationError::Unsupported { kind: UnsupportedKind::FloatLiteral },
            ),
        },
        SubExpr::Path(p) => {
            if p.len() != 1 {
                return Err(CompilationError::Unsupported { kind: UnsupportedKind::FieldAccess });
            }
            let cands = resolve_symbol(reg, cur_mod, cur_path, imports, scope, p);
            if cands.len() == 0 {
                return Err(CompilationError::SymbolNotFound { path: crate::ids::clone_path(p) });
            }
            if cands.len() > 1 {
                return Err(CompilationError::Ambiguous { path: crate::ids::clone_path(p) });
            }
            proof {
                assert(cands_model(cands@)[0] == cand_model(cands@[0]));
            }
            match &cands[0] {
                Candidate::Local(slot) => {
                    let t = if *slot < tys.len() {
                        tys[*slot]
                    } else {
                        Ty::Void
                    };
                    Ok(StaticExpression { ty: t, instr: Instruction::GetLocalVar(*slot) })
                },
                Candidate::Decl(sid2) => {
                    if fuel == 0 {
                        return Err(CompilationError::DepthLimit);
                    }
                    let noargs: Vec<Ty> = Vec::new();
                    let fres = compile_symbol_id(reg, store, sid2, &noargs, fuel - 1);
                    match fres {
                        Err(er) => Err(er),
                        Ok((fidx, rty)) => {
                            proof {
                                assert(sexprs_model(Seq::<StaticExpression>::empty())
                                    =~= Seq::<SExprModel>::empty());
                            }
                            Ok(
                                StaticExpression {
                                    ty: rty,
                                    instr: Instruction::FunctionCall { func: fidx, args: Vec::new() },
                                },
                            )
                        },
                    }
                },
            }
        },
        SubExpr::Tuple(es) => {
            if es.len() != 1 {
                return Err(CompilationError::Unsupported { kind: UnsupportedKind::Tuple });
            }
            compile_full_expression(
                reg,
                store,
                cur_mod,
                cur_path,
                imports,
                scope,
                tys,
                &es[0],
                fuel,
            )
        },
    }
}

/// Pops bindings until the scope and slot-type list are back at the given
/// lengths; their prefixes are untouched, so this restores the state at
/// those lengths.
fn restore_scope(scope: &mut Scope, tys: &mut Vec<Ty>, base_len: usize, base_tys_len: usize)
    requires
        base_len <= old(scope).model().len(),
        base_tys_len <= old(tys)@.len(),
    ensures
        final(scope).model() == old(scope).model().take(base_len as int),
        final(tys)@ == old(tys)@.take(base_tys_len as int),
{
    while scope.len() > base_len
        invariant
            base_len <= scope.model().len(),
            scope.model().len() <= old(scope).model().len(),
            scope.model() =~= old(scope).model().take(scope.model().len() as int),
        decreases scope.model().len(),
    {
        proof {
            assert(old(scope).model().take(scope.model().len() as int).drop_last()
                =~= old(scope).model().take(scope.model().len() - 1));
        }
        scope.pop();
    }
    proof {
        assert(scope.model() =~= old(scope).model().take(base_len as int));
    }
    while tys.len() > base_tys_len
        invariant
            base_tys_len <= tys@.len(),
            tys@.len() <= old(tys)@.len(),
            tys@ =~= old(tys)@.take(tys@.len() as int),
        decreases tys@.len(),
    {
        proof {
            assert(old(tys)@.take(tys@.len() as int).drop_last() =~= old(tys)@.take(
                tys@.len() - 1,
            ));
        }
        tys.pop();
    }
    proof {
        assert(tys@ =~= old(tys)@.take(base_tys_len as int));
    }
}

// ---------------------------------------------------------------------------
// The compiler context
// ---------------------------------------------------------------------------

/// The name of the entry function.
pub open spec fn main_name() -> Seq<char> {
    seq!['m', 'a', 'i', 'n']
}

/// Finding the entry function of a target module: the one declaration named
/// `main` in the module registered under the target path.
pub open spec fn spec_find_target_main(reg: ModuleRegistry, path: IdPathModel) -> Result<
    SymbolIdModel,
    crate::modules::FindErrModel,
> {
    match registry_module(reg, path) {
        None => Err(crate::modules::FindErrModel::ModuleNotFound { path }),
        Some(m) => {
            let c = find_in_module(m, path, main_name());
            if c.len() == 1 {
                Ok(c[0])
            } else if c.len() == 0 {
                Err(crate::modules::FindErrModel::NotFound { symbol: main_name() })
            } else {
                Err(crate::modules::FindErrModel::TooMany { symbol: main_name(), module: path })
            }
        },
    }
}

/// The global compilation state: the read-only module registry, built once
/// at startup, and the growing store of compiled functions.
#[derive(Debug)]
pub struct CompilerContext {
    pub registry: ModuleRegistry,
    pub store: FunctionStore,
}

impl CompilerContext {
    /// Creates a context over a finished registry, with an empty store.
    pub fn new(registry: ModuleRegistry) -> (c: CompilerContext)
        ensures
            c.registry == registry,
            c.store.model() == Seq::<(SsidModel, InfoModel)>::empty(),
    {
        CompilerContext { registry, store: FunctionStore::new() }
    }

    /// Compiles the declaration behind `sid` for the given argument types,
    /// recursively compiling every callee, up to `fuel` nested symbol
    /// compilations.
    pub fn compile_symbol(&mut self, sid: &SymbolId, args: &Vec<Ty>, fuel: u64) -> (r: Result<
        (usize, Ty),
        CompilationError,
    >)
        ensures
            final(self).registry == old(self).registry,
            ({
                let (sr, sst) = spec_compile_symbol(
                    old(self).registry,
                    old(self).store.model(),
                    symbol_id_model(*sid),
                    args@,
                    fuel as nat,
                );
                final(self).store.model() == sst && match r {
                    Ok((i, t)) => sr == Ok::<(int, Ty), ErrModel>((i as int, t)),
                    Err(e) => sr == Err::<(int, Ty), ErrModel>(err_model(e)),
                }
            }),
    {
        compile_symbol_id(&self.registry, &mut self.store, sid, args, fuel)
    }

    /// The module registered under `idpath`.
    pub fn resolve_module<'a>(&'a self, idpath: &IdPath) -> (r: Result<
        &'a Module,
        crate::modules::FindError,
    >)
        ensures
            match r {
                Ok(m) => registry_module(self.registry, idpath.deep_view()) == Some(*m),
                Err(e) => registry_module(self.registry, idpath.deep_view()) is None
                    && crate::modules::find_err_model(e)
                    == (crate::modules::FindErrModel::ModuleNotFound { path: idpath.deep_view() }),
            },
    {
        match self.registry.get(idpath) {
            Some(m) => Ok(m),
            None => Err(
                crate::modules::FindError::ModuleNotFound { path: crate::ids::clone_path(idpath) },
            ),
        }
    }

    /// The declaration a symbol identity addresses, with its module and
    /// file, when the identity is in range.
    pub fn get_symbol<'a>(&'a self, sid: &SymbolId) -> (r: Option<(&'a Module, &'a FileInfo, &'a Item)>)
        ensures
            match r {
                Some((m, fi, it)) => {
                    &&& registry_module(self.registry, symbol_id_model(*sid).module) == Some(*m)
                    &&& 0 <= symbol_id_model(*sid).file < m.files@.len()
                    &&& *fi == m.files@[symbol_id_model(*sid).file]
                    &&& site_item(self.registry, symbol_id_model(*sid)) == Some(*it)
                },
                None => site_item(self.registry, symbol_id_model(*sid)) is None,
            },
    {
        let m = match self.registry.get(&sid.module) {
            Some(m) => m,
            None => {
                return None;
            },
        };
        if sid.file >= m.files.len() {
            return None;
        }
        let fi = &m.files[sid.file];
        if sid.item >= fi.items.len() {
            return None;
        }
        Some((m, fi, &fi.items[sid.item]))
    }

    /// Finds the entry function of the target project: exactly one
    /// declaration named `main` in the module at `target`.
    pub fn find_target_main(&self, target: &IdPath) -> (r: Result<
        SymbolId,
        crate::modules::FindError,
    >)
        ensures
            match r {
                Ok(sid) => spec_find_target_main(self.registry, target.deep_view()) == Ok::<
                    SymbolIdModel,
                    crate::modules::FindErrModel,
                >(symbol_id_model(sid)),
                Err(e) => spec_find_target_main(self.registry, target.deep_view()) == Err::<
                    SymbolIdModel,
                    crate::modules::FindErrModel,
                >(crate::modules::find_err_model(e)),
            },
    {
        proof {
            reveal_strlit("main");
            assert(("main")@ =~= main_name());
        }
        let m = match self.registry.get(target) {
            Some(m) => m,
            None => {
                return Err(
                    crate::modules::FindError::ModuleNotFound {
                        path: crate::ids::clone_path(target),
                    },
                );
            },
        };
        let name = String::from_str("main");
        let mut candidates = m.find(&name, target);
        if candidates.len() == 1 {
            let sid = match candidates.pop() {
                Some(s) => s,
                None => vstd::pervasive::unreached(),
            };
            proof {
                assert(crate::modules::sid_vec_model(candidates@.push(sid))[0]
                    == symbol_id_model(sid));
            }
            Ok(sid)
        } else if candidates.len() == 0 {
            Err(crate::modules::FindError::NotFound { symbol: name })
        } else {
            Err(
                crate::modules::FindError::TooMany {
                    symbol: name,
                    module: crate::ids::clone_path(target),
                },
            )
        }
    }
}

// ---------------------------------------------------------------------------
// The store only grows
// ---------------------------------------------------------------------------

/// `n` extends `o`: every entry of `o` stands unchanged, new entries only at
/// the end.
pub open spec fn store_extends(o: StoreModel, n: StoreModel) -> bool {
    n.len() >= o.len() && forall|i: int| 0 <= i < o.len() ==> n[i] == o[i]
}

/// Compiling a symbol never disturbs existing store entries.
pub proof fn lemma_css_extends(
    reg: ModuleRegistry,
    store: StoreModel,
    sidm: SymbolIdModel,
    args: Seq<Ty>,
    fuel: nat,
)
    ensures
        store_extends(store, spec_compile_symbol(reg, store, sidm, args, fuel).1),
    decreases fuel, 3 + site_body_size(reg, sidm), 0nat,
{
    match site_item(reg, sidm) {
        Some(Item::Function(f)) => {
            let m = registry_module(reg, sidm.module)->0;
            let lk = LkModel {
                cur_mod: m,
                cur_path: sidm.module,
                imports: m.files@[sidm.file].imports.model(),
            };
            lemma_sc_extends(reg, store, f, lk, sidm, args, fuel);
        },
        _ => {},
    }
}

/// Compiling a function never disturbs existing store entries.
pub proof fn lemma_sc_extends(
    reg: ModuleRegistry,
    store: StoreModel,
    f: FunctionDecl,
    lk: LkModel,
    sidm: SymbolIdModel,
    args: Seq<Ty>,
    fuel: nat,
)
    ensures
        store_extends(store, spec_compile(reg, store, f, lk, sidm, args, fuel).1),
    decreases fuel, 2 + crate::ast::full_size(f.body), 0nat,
{
    let key = SsidModel { sym: sidm, args };
    if store_find(store, key) is None && f.params@.len() == args.len() {
        let store1 = store.push((key, InfoModel::Reserved { ret: f.ret }));
        lemma_cfe_extends(reg, store1, lk, f.params.deep_view(), args, f.body, fuel);
    }
}

/// Lowering a full expression never disturbs existing store entries.
pub proof fn lemma_cfe_extends(
    reg: ModuleRegistry,
    store: StoreModel,
    lk: LkModel,
    scope: Seq<Seq<char>>,
    tys: Seq<Ty>,
    e: FullExpression,
    fuel: nat,
)
    ensures
        store_extends(store, spec_cfe(reg, store, lk, scope, tys, e, fuel).1),
    decreases fuel, crate::ast::full_size(e), 1nat,
{
    match e {
        FullExpression::Let(l) => {
            let (dres, store1) = spec_compile_defs(reg, store, lk, scope, tys, l.defs@, fuel);
            lemma_defs_extends(reg, store, lk, scope, tys, l.defs@, fuel);
            match dres {
                Err(_) => {},
                Ok((lets, scope1, tys1)) => {
                    lemma_cfe_extends(reg, store1, lk, scope1, tys1, *l.body, fuel);
                },
            }
        },
        FullExpression::Simple(x) => {
            lemma_cme_extends(reg, store, lk, scope, tys, x, fuel);
        },
    }
}

/// Lowering `let` bindings never disturbs existing store entries.
pub proof fn lemma_defs_extends(
    reg: ModuleRegistry,
    store: StoreModel,
    lk: LkModel,
    scope: Seq<Seq<char>>,
    tys: Seq<Ty>,
    defs: Seq<(String, FullExpression)>,
    fuel: nat,
)
    ensures
        store_extends(store, spec_compile_defs(reg, store, lk, scope, tys, defs, fuel).1),
    decreases fuel, crate::ast::defs_size(defs), 1nat,
{
    if defs.len() > 0 {
        let (vres, store1) = spec_cfe(reg, store, lk, scope, tys, defs[0].1, fuel);
        lemma_cfe_extends(reg, store, lk, scope, tys, defs[0].1, fuel);
        match vres {
            Err(_) => {},
            Ok(v) => {
                lemma_defs_extends(
                    reg,
                    store1,
                    lk,
                    scope.push(defs[0].0@),
                    tys.push(v.ty),
                    defs.drop_first(),
                    fuel,
                );
            },
        }
    }
}

/// Lowering a minor expression never disturbs existing store entries.
pub proof fn lemma_cme_extends(
    reg: ModuleRegistry,
    store: StoreModel,
    lk: LkModel,
    scope: Seq<Seq<char>>,
    tys: Seq<Ty>,
    x: Expression,
    fuel: nat,
)
    ensures
        store_extends(store, spec_cme(reg, store, lk, scope, tys, x, fuel).1),
    decreases fuel, crate::ast::expr_size(x), 1nat,
{
    match x {
        Expression::Val(v) => {
            lemma_cv_extends(reg, store, lk, scope, tys, v, fuel);
        },
        Expression::Call(fc) => {
            let (ares, store1) = spec_compile_args(reg, store, lk, scope, tys, fc.args@, fuel);
            lemma_args_extends(reg, store, lk, scope, tys, fc.args@, fuel);
            match ares {
                Err(_) => {},
                Ok(arges) => {
                    if !is_buildin_call(fc.name.deep_view()) {
                        let cands = spec_resolve(
                            reg,
                            lk.cur_mod,
                            lk.cur_path,
                            lk.imports,
                            scope,
                            fc.name.deep_view(),
                        );
                        if cands.len() == 1 {
                            match cands[0] {
                                CandModel::Local(_) => {},
                                CandModel::Decl(sidm) => {
                                    if fuel > 0 {
                                        lemma_css_extends(
                                            reg,
                                            store1,
                                            sidm,
                                            arg_tys(arges),
                                            (fuel - 1) as nat,
                                        );
                                    }
                                },
                            }
                        }
                    }
                },
            }
        },
    }
}

/// Lowering a call's arguments never disturbs existing store entries.
pub proof fn lemma_args_extends(
    reg: ModuleRegistry,
    store: StoreModel,
    lk: LkModel,
    scope: Seq<Seq<char>>,
    tys: Seq<Ty>,
    args: Seq<SubExpr>,
    fuel: nat,
)
    ensures
        store_extends(store, spec_compile_args(reg, store, lk, scope, tys, args, fuel).1),
    decreases fuel, crate::ast::subs_size(args), 1nat,
{
    if args.len() > 0 {
        let (hres, store1) = spec_cv(reg, store, lk, scope, tys, args[0], fuel);
        lemma_cv_extends(reg, store, lk, scope, tys, args[0], fuel);
        match hres {
            Err(_) => {},
            Ok(_) => {
                lemma_args_extends(reg, store1, lk, scope, tys, args.drop_first(), fuel);
            },
        }
    }
}

/// Lowering an argument-position expression never disturbs existing store
/// entries.
pub proof fn lemma_cv_extends(
    reg: ModuleRegistry,
    store: StoreModel,
    lk: LkModel,
    scope: Seq<Seq<char>>,
    tys: Seq<Ty>,
    v: SubExpr,
    fuel: nat,
)
    ensures
        store_extends(store, spec_cv(reg, store, lk, scope, tys, v, fuel).1),
    decreases fuel, crate::ast::sub_size(v), 1nat,
{
    match v {
        SubExpr::Lit(_) => {},
        SubExpr::Path(p) => {
            if p@.len() == 1 {
                let cands = spec_resolve(
                    reg,
                    lk.cur_mod,
                    lk.cur_path,
                    lk.imports,
                    scope,
                    p.deep_view(),
                );
                if cands.len() == 1 {
                    match cands[0] {
                        CandModel::Local(_) => {},
                        CandModel::Decl(sidm) => {
                            if fuel > 0 {
                                lemma_css_extends(
                                    reg,
                                    store,
                                    sidm,
                                    Seq::empty(),
                                    (fuel - 1) as nat,
                                );
                            }
                        },
                    }
                }
            }
        },
        SubExpr::Tuple(es) => {
            if es@.len() == 1 {
                lemma_cfe_extends(reg, store, lk, scope, tys, es@[0], fuel);
            }
        },
    }
}

} // verus!
