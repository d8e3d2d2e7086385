//! The abstract syntax consumed by the compiler.
//!
//! Parsing source text is an outside concern; the core receives an immutable
//! tree of declarations, expressions and literals, already grouped into files
//! and modules. Only the parts the compiler reads are represented: function
//! declarations with named parameters and one body expression, `let`
//! expressions, function calls with dotted names, literals, and import
//! declarations.
//!
//! The well-formedness predicates below rule out the constructs the design
//! treats as internal errors (multi-element tuples, multi-segment bare
//! identifiers, empty `let` binding lists, float literals — the runtime value
//! domain has no floating-point variant — and misused built-in arities).
//! Compilation demands a well-formed tree; `check_*_wf` let a caller test it.

use crate::types::Ty;
use vstd::prelude::*;

verus! {

/// A half-open region of source text, carried by diagnostics.
#[derive(Clone, Copy, Debug, PartialEq, Eq, Structural)]
pub struct Span {
    pub start: usize,
    pub end: usize,
}

/// The width-and-signedness suffix of an integer literal.
#[derive(Clone, Copy, Debug, PartialEq, Eq, Structural)]
pub enum IntWidth {
    I8,
    I16,
    I32,
    I64,
    U8,
    U16,
    U32,
    U64,
}

/// A literal value in an expression.
#[derive(Debug)]
pub enum Literal {
    Str(String),
    Bool(bool),
    /// Decimal digits with an optional sign, and an optional width suffix;
    /// without a suffix the literal is a 64-bit signed integer.
    Int { digits: String, width: Option<IntWidth>, span: Span },
    /// Floating-point literals cannot be compiled: the runtime value domain
    /// has no float variant. Well-formed trees do not contain them.
    Float { text: String, span: Span },
}

/// A call of a possibly dotted name on argument expressions.
#[derive(Debug)]
pub struct FunctionCall {
    /// The segments of the called name, at least one.
    pub name: Vec<String>,
    pub args: Vec<SubExpr>,
}

/// An argument-position expression.
#[derive(Debug)]
pub enum SubExpr {
    Lit(Literal),
    /// A bare identifier reference; only single-segment paths are legal.
    Path(Vec<String>),
    /// A parenthesized expression; only one-element tuples are supported.
    Tuple(Vec<FullExpression>),
}

/// A minor expression: a call or a plain value.
#[derive(Debug)]
pub enum Expression {
    Call(FunctionCall),
    Val(SubExpr),
}

/// A `let` expression: ordered bindings, then one body expression.
#[derive(Debug)]
pub struct LetExpr {
    pub defs: Vec<(String, FullExpression)>,
    pub body: Box<FullExpression>,
}

/// A full expression: a `let` or a minor expression.
#[derive(Debug)]
pub enum FullExpression {
    Let(LetExpr),
    Simple(Expression),
}

/// A function declaration: ordered named parameters, a declared return type,
/// and one body expression. The declared return type stands in for the body's
/// type while the function is still being compiled, which is what a recursive
/// call sees.
#[derive(Debug)]
pub struct FunctionDecl {
    pub name: String,
    pub params: Vec<String>,
    pub ret: Ty,
    pub body: FullExpression,
}

/// A top-level declaration in a file.
#[derive(Debug)]
pub enum Item {
    Function(FunctionDecl),
    GlobalVar { name: String },
    TypeDecl { name: String },
    BuildinTypeDecl { name: String },
    Test { name: String },
}

/// What an import declaration selects.
#[derive(Debug)]
pub enum Selection {
    /// Import everything; recognized but not supported.
    All,
    /// The path's trailing segment is itself the imported symbol.
    This,
    /// An explicit list of symbols from the imported module.
    Items(Vec<String>),
}

/// An import declaration.
#[derive(Debug)]
pub struct Import {
    /// True when the path starts with a library name from the dependency
    /// map; false when it is relative to the current project.
    pub is_lib: bool,
    pub path: Vec<String>,
    pub items: Selection,
}

// ---------------------------------------------------------------------------
// Built-in call names
// ---------------------------------------------------------------------------

/// The prefix marking built-in calls, with its first character given
/// (lower or upper case).
pub open spec fn buildin_prefix(first: char) -> Seq<char> {
    seq![first, 'u', 'i', 'l', 'd', 'i', 'n', '_']
}

/// True when `s` starts with the recognized built-in prefix.
pub open spec fn has_buildin_prefix(s: Seq<char>) -> bool {
    s.len() >= 8 && (s.subrange(0, 8) == buildin_prefix('b') || s.subrange(0, 8)
        == buildin_prefix('B'))
}

/// True when a call name addresses the built-in namespace: one single
/// segment carrying the recognized prefix.
pub open spec fn is_buildin_call(name: Seq<Seq<char>>) -> bool {
    name.len() == 1 && has_buildin_prefix(name[0])
}

/// The name after the prefix.
pub open spec fn buildin_shortname(s: Seq<char>) -> Seq<char> {
    s.skip(8)
}

pub open spec fn op_name_str_concat() -> Seq<char> {
    seq!['s', 't', 'r', '_', 'c', 'o', 'n', 'c', 'a', 't']
}

pub open spec fn op_name_identity() -> Seq<char> {
    seq!['i', 'd', 'e', 'n', 't', 'i', 't', 'y']
}

pub open spec fn op_name_print() -> Seq<char> {
    seq!['p', 'r', 'i', 'n', 't']
}

pub open spec fn op_name_readline() -> Seq<char> {
    seq!['r', 'e', 'a', 'd', 'l', 'i', 'n', 'e']
}

// ---------------------------------------------------------------------------
// Sizes, for termination measures
// ---------------------------------------------------------------------------

pub open spec fn full_size(e: FullExpression) -> nat
    decreases e,
{
    match e {
        FullExpression::Let(l) => 1 + defs_size(l.defs@) + full_size(*l.body),
        FullExpression::Simple(x) => 1 + expr_size(x),
    }
}

pub open spec fn defs_size(d: Seq<(String, FullExpression)>) -> nat
    decreases d,
{
    if d.len() == 0 {
        0
    } else {
        1 + full_size(d[0].1) + defs_size(d.drop_first())
    }
}

pub open spec fn expr_size(x: Expression) -> nat
    decreases x,
{
    match x {
        Expression::Call(fc) => 1 + subs_size(fc.args@),
        Expression::Val(v) => 1 + sub_size(v),
    }
}

pub open spec fn subs_size(s: Seq<SubExpr>) -> nat
    decreases s,
{
    if s.len() == 0 {
        0
    } else {
        1 + sub_size(s[0]) + subs_size(s.drop_first())
    }
}

pub open spec fn sub_size(v: SubExpr) -> nat
    decreases v,
{
    match v {
        SubExpr::Lit(_) => 1,
        SubExpr::Path(_) => 1,
        SubExpr::Tuple(es) => 1 + fulls_size(es@),
    }
}

pub open spec fn fulls_size(s: Seq<FullExpression>) -> nat
    decreases s,
{
    if s.len() == 0 {
        0
    } else {
        1 + full_size(s[0]) + fulls_size(s.drop_first())
    }
}

// ---------------------------------------------------------------------------
// Well-formedness
// ---------------------------------------------------------------------------

pub open spec fn full_wf(e: FullExpression) -> bool
    decreases e,
{
    match e {
        FullExpression::Let(l) => l.defs@.len() >= 1 && defs_wf(l.defs@) && full_wf(*l.body),
        FullExpression::Simple(x) => expr_wf(x),
    }
}

pub open spec fn defs_wf(d: Seq<(String, FullExpression)>) -> bool
    decreases d,
{
    if d.len() == 0 {
        true
    } else {
        full_wf(d[0].1) && defs_wf(d.drop_first())
    }
}

/// The arity constraints on built-in calls that the design treats as fixed:
/// `identity` takes exactly one argument, `readline` at most one.
pub open spec fn buildin_arity_ok(name: Seq<char>, n_args: nat) -> bool {
    &&& (buildin_shortname(name) == op_name_identity() ==> n_args == 1)
    &&& (buildin_shortname(name) == op_name_readline() ==> n_args <= 1)
}

pub open spec fn expr_wf(x: Expression) -> bool
    decreases x,
{
    match x {
        Expression::Call(fc) => {
            &&& fc.name@.len() >= 1
            &&& (is_buildin_call(fc.name.deep_view()) ==> buildin_arity_ok(
                fc.name.deep_view()[0],
                fc.args@.len() as nat,
            ))
            &&& subs_wf(fc.args@)
        },
        Expression::Val(v) => sub_wf(v),
    }
}

pub open spec fn subs_wf(s: Seq<SubExpr>) -> bool
    decreases s,
{
    if s.len() == 0 {
        true
    } else {
        sub_wf(s[0]) && subs_wf(s.drop_first())
    }
}

pub open spec fn sub_wf(v: SubExpr) -> bool
    decreases v,
{
    match v {
        SubExpr::Lit(l) => !(l is Float),
        SubExpr::Path(p) => p@.len() == 1,
        SubExpr::Tuple(es) => es@.len() == 1 && fulls_wf(es@),
    }
}

pub open spec fn fulls_wf(s: Seq<FullExpression>) -> bool
    decreases s,
{
    if s.len() == 0 {
        true
    } else {
        full_wf(s[0]) && fulls_wf(s.drop_first())
    }
}

/// A declaration is well formed when a function body is well formed.
pub open spec fn item_wf(it: Item) -> bool {
    match it {
        Item::Function(f) => full_wf(f.body),
        _ => true,
    }
}

// ---------------------------------------------------------------------------
// Executable text helpers
// ---------------------------------------------------------------------------

/// Character-wise text equality.
pub fn str_eq(a: &str, b: &str) -> (r: bool)
    ensures
        r == (a@ == b@),
{
    let alen = a.unicode_len();
    let blen = b.unicode_len();
    if alen != blen {
        return false;
    }
    let mut i: usize = 0;
    while i < alen
        invariant
            alen == a@.len(),
            blen == b@.len(),
            alen == blen,
            i <= alen,
            forall|j: int| 0 <= j < i ==> a@[j] == b@[j],
        decreases alen - i,
    {
        let ca = a.get_char(i);
        let cb = b.get_char(i);
        if ca != cb {
            return false;
        }
        i = i + 1;
    }
    proof {
        assert(a@ =~= b@);
    }
    true
}

/// True when `s` starts with the built-in prefix.
pub fn str_has_buildin_prefix(s: &str) -> (r: bool)
    ensures
        r == has_buildin_prefix(s@),
{
    let n = s.unicode_len();
    if n < 8 {
        return false;
    }
    proof {
        assert forall|k: int| 0 <= k < 8 implies s@.subrange(0, 8)[k] == s@[k] by {}
    }
    let c0 = s.get_char(0);
    if !(c0 == 'b' || c0 == 'B') {
        return false;
    }
    let ok = s.get_char(1) == 'u' && s.get_char(2) == 'i' && s.get_char(3) == 'l' && s.get_char(4)
        == 'd' && s.get_char(5) == 'i' && s.get_char(6) == 'n' && s.get_char(7) == '_';
    if ok {
        proof {
            if c0 == 'b' {
                assert(s@.subrange(0, 8) =~= buildin_prefix('b'));
            } else {
                assert(s@.subrange(0, 8) =~= buildin_prefix('B'));
            }
        }
        true
    } else {
        false
    }
}

/// The name after the built-in prefix.
pub fn str_buildin_shortname<'a>(s: &'a str) -> (r: &'a str)
    requires
        has_buildin_prefix(s@),
    ensures
        r@ == buildin_shortname(s@),
{
    let n = s.unicode_len();
    let r = s.substring_char(8, n);
    proof {
        assert(r@ =~= buildin_shortname(s@));
    }
    r
}

/// True when a call name addresses the built-in namespace.
pub fn call_is_buildin(name: &Vec<String>) -> (r: bool)
    ensures
        r == is_buildin_call(name.deep_view()),
{
    if name.len() != 1 {
        return false;
    }
    let r = str_has_buildin_prefix(name[0].as_str());
    proof {
        assert(name.deep_view()[0] == name@[0]@);
    }
    r
}

// ---------------------------------------------------------------------------
// Executable well-formedness checkers
// ---------------------------------------------------------------------------

/// Decides `full_wf`.
pub fn check_full_wf(e: &FullExpression) -> (r: bool)
    ensures
        r == full_wf(*e),
    decreases full_size(*e),
{
    match e {
        FullExpression::Let(l) => {
            if l.defs.len() < 1 {
                return false;
            }
            proof {
                assert(l.defs@.skip(0) =~= l.defs@);
            }
            let dw = check_defs_wf(&l.defs, 0);
            if !dw {
                return false;
            }
            check_full_wf(&l.body)
        },
        FullExpression::Simple(x) => check_expr_wf(x),
    }
}

/// Decides `defs_wf` on the bindings from position `from` on.
pub fn check_defs_wf(d: &Vec<(String, FullExpression)>, from: usize) -> (r: bool)
    requires
        from <= d@.len(),
    ensures
        r == defs_wf(d@.skip(from as int)),
    decreases defs_size(d@.skip(from as int)),
{
    if from == d.len() {
        return true;
    }
    proof {
        assert(d@.skip(from as int)[0] == d@[from as int]);
        assert(d@.skip(from as int).drop_first() =~= d@.skip(from as int + 1));
    }
    let hd = check_full_wf(&d[from].1);
    if !hd {
        return false;
    }
    check_defs_wf(d, from + 1)
}

/// Decides `expr_wf`.
pub fn check_expr_wf(x: &Expression) -> (r: bool)
    ensures
        r == expr_wf(*x),
    decreases expr_size(*x),
{
    match x {
        Expression::Call(fc) => {
            if fc.name.len() < 1 {
                return false;
            }
            if call_is_buildin(&fc.name) {
                let s = fc.name[0].as_str();
                proof {
                    assert(fc.name.deep_view()[0] == fc.name@[0]@);
                }
                let short = str_buildin_shortname(s);
                proof {
                    reveal_strlit("identity");
                    reveal_strlit("readline");
                    assert(("identity")@ =~= op_name_identity());
                    assert(("readline")@ =~= op_name_readline());
                }
                if str_eq(short, "identity") {
                    if fc.args.len() != 1 {
                        return false;
                    }
                }
                if str_eq(short, "readline") {
                    if fc.args.len() > 1 {
                        return false;
                    }
                }
            }
            proof {
                assert(fc.args@.skip(0) =~= fc.args@);
            }
            check_subs_wf(&fc.args, 0)
        },
        Expression::Val(v) => check_sub_wf(v),
    }
}

/// Decides `subs_wf` on the arguments from position `from` on.
pub fn check_subs_wf(s: &Vec<SubExpr>, from: usize) -> (r: bool)
    requires
        from <= s@.len(),
    ensures
        r == subs_wf(s@.skip(from as int)),
    decreases subs_size(s@.skip(from as int)),
{
    if from == s.len() {
        return true;
    }
    proof {
        assert(s@.skip(from as int)[0] == s@[from as int]);
        assert(s@.skip(from as int).drop_first() =~= s@.skip(from as int + 1));
    }
    let hd = check_sub_wf(&s[from]);
    if !hd {
        return false;
    }
    check_subs_wf(s, from + 1)
}

/// Decides `sub_wf`.
pub fn check_sub_wf(v: &SubExpr) -> (r: bool)
    ensures
        r == sub_wf(*v),
    decreases sub_size(*v),
{
    match v {
        SubExpr::Lit(l) => match l {
            Literal::Float { .. } => false,
            _ => true,
        },
        SubExpr::Path(p) => p.len() == 1,
        SubExpr::Tuple(es) => {
            if es.len() != 1 {
                return false;
            }
            proof {
                assert(es@.skip(0) =~= es@);
                assert(es@.skip(0).drop_first() =~= es@.skip(1));
            }
            let hd = check_full_wf(&es[0]);
            hd
        },
    }
}

} // verus!
