use solar_core::ast::{
    Expression, FullExpression, FunctionCall, FunctionDecl, IntWidth, Item, LetExpr, Literal,
    Span, SubExpr,
};
use solar_core::compile::{CompilationError, CompilerContext, UnsupportedKind};
use solar_core::ids::SymbolId;
use solar_core::instr::{BuiltinOp, Instruction, StaticExpression};
use solar_core::modules::{FileInfo, FindError, ImportTable, Module, ModuleRegistry};
use solar_core::types::{ty_name_str, Ty};

const FUEL: u64 = 100;

fn s(x: &str) -> String {
    String::from(x)
}

fn path(xs: &[&str]) -> Vec<String> {
    xs.iter().map(|x| s(x)).collect()
}

fn lit_str(text: &str) -> SubExpr {
    SubExpr::Lit(Literal::Str(s(text)))
}

fn lit_bool(b: bool) -> SubExpr {
    SubExpr::Lit(Literal::Bool(b))
}

fn lit_int(digits: &str, width: Option<IntWidth>) -> SubExpr {
    SubExpr::Lit(Literal::Int { digits: s(digits), width, span: Span { start: 0, end: 0 } })
}

fn ident(name: &str) -> SubExpr {
    SubExpr::Path(vec![s(name)])
}

fn call(name: &[&str], args: Vec<SubExpr>) -> FullExpression {
    FullExpression::Simple(Expression::Call(FunctionCall { name: path(name), args }))
}

fn val(v: SubExpr) -> FullExpression {
    FullExpression::Simple(Expression::Val(v))
}

fn func(name: &str, params: &[&str], ret: Ty, body: FullExpression) -> Item {
    Item::Function(FunctionDecl { name: s(name), params: path(params), ret, body })
}

/// One module under the path `root`, holding the given declarations.
fn context(items: Vec<Item>) -> CompilerContext {
    let mut m = Module::new(0);
    m.add_file(FileInfo { filename: s("main.sol"), imports: ImportTable::new(), items });
    let mut reg = ModuleRegistry::new();
    reg.add_module(path(&["root"]), m);
    CompilerContext::new(reg)
}

fn item_sid(item: usize) -> SymbolId {
    SymbolId { module: path(&["root"]), file: 0, item }
}

#[test]
fn compile_string_literal_main() {
    let mut cc = context(vec![func("main", &[], Ty::Str, val(lit_str("hi")))]);
    let (idx, ty) = cc.compile_symbol(&item_sid(0), &Vec::new(), FUEL).unwrap();
    assert_eq!(idx, 0);
    assert_eq!(ty, Ty::Str);
    let body = cc.store.body_at(0).unwrap();
    assert_eq!(body.ty, Ty::Str);
    assert!(matches!(&body.instr, Instruction::Const(solar_core::value::Value::Str(t)) if t == "hi"));
}

#[test]
fn compile_int_literal_types() {
    let mut cc = context(vec![
        func("main", &[], Ty::I64, val(lit_int("41", None))),
        func("tiny", &[], Ty::U8, val(lit_int("7", Some(IntWidth::U8)))),
    ]);
    let (_, ty) = cc.compile_symbol(&item_sid(0), &Vec::new(), FUEL).unwrap();
    assert_eq!(ty, Ty::I64);
    let (_, ty2) = cc.compile_symbol(&item_sid(1), &Vec::new(), FUEL).unwrap();
    assert_eq!(ty2, Ty::U8);
}

#[test]
fn int_literal_out_of_range_reports_its_span() {
    let body = val(SubExpr::Lit(Literal::Int {
        digits: s("300"),
        width: Some(IntWidth::I8),
        span: Span { start: 12, end: 15 },
    }));
    let mut cc = context(vec![func("main", &[], Ty::I8, body)]);
    match cc.compile_symbol(&item_sid(0), &Vec::new(), FUEL) {
        Err(CompilationError::IntParse { span }) => {
            assert_eq!((span.start, span.end), (12, 15));
        },
        other => panic!("expected IntParse, got {:?}", other),
    }
}

#[test]
fn cache_idempotence_compiles_once() {
    let mut cc = context(vec![func("main", &[], Ty::Str, val(lit_str("x")))]);
    let (idx1, ty1) = cc.compile_symbol(&item_sid(0), &Vec::new(), FUEL).unwrap();
    let len_after_first = cc.store.len();
    let (idx2, ty2) = cc.compile_symbol(&item_sid(0), &Vec::new(), FUEL).unwrap();
    assert_eq!(idx1, idx2);
    assert_eq!(ty1, ty2);
    // The second run reuses the entry: nothing is lowered again.
    assert_eq!(cc.store.len(), len_after_first);
}

#[test]
fn distinct_argument_types_are_distinct_entries() {
    let mut cc = context(vec![func("id", &["x"], Ty::Void, val(ident("x")))]);
    let (i1, t1) = cc.compile_symbol(&item_sid(0), &vec![Ty::I32], FUEL).unwrap();
    let (i2, t2) = cc.compile_symbol(&item_sid(0), &vec![Ty::I64], FUEL).unwrap();
    assert_ne!(i1, i2);
    assert_eq!(t1, Ty::I32);
    assert_eq!(t2, Ty::I64);
    assert_eq!(cc.store.len(), 2);
}

#[test]
fn let_nesting_threads_earlier_bindings() {
    // let x = "a", y = buildin_str_concat(x, "b") in y
    let body = FullExpression::Let(LetExpr {
        defs: vec![
            (s("x"), val(lit_str("a"))),
            (s("y"), call(&["buildin_str_concat"], vec![ident("x"), lit_str("b")])),
        ],
        body: Box::new(val(ident("y"))),
    });
    let mut cc = context(vec![func("main", &[], Ty::Str, body)]);
    let (idx, ty) = cc.compile_symbol(&item_sid(0), &Vec::new(), FUEL).unwrap();
    assert_eq!(ty, Ty::Str);
    let tree = cc.store.body_at(idx).unwrap();
    // Outermost wrapper binds x at slot 0; its body is the wrapper for y,
    // not the raw body expression: the wrappers must thread.
    match &tree.instr {
        Instruction::NewLocalVar { slot: 0, value: vx, body: inner } => {
            assert!(matches!(&vx.instr, Instruction::Const(_)));
            match &inner.instr {
                Instruction::NewLocalVar { slot: 1, value: vy, body: innermost } => {
                    // y's value expression reads x's slot.
                    match &vy.instr {
                        Instruction::Custom { code: BuiltinOp::StrConcat, args } => {
                            assert!(matches!(&args[0].instr, Instruction::GetLocalVar(0)));
                        },
                        other => panic!("expected str_concat, got {:?}", other),
                    }
                    assert!(matches!(&innermost.instr, Instruction::GetLocalVar(1)));
                },
                other => panic!("expected nested wrapper for y, got {:?}", other),
            }
        },
        other => panic!("expected wrapper for x, got {:?}", other),
    }
}

#[test]
fn shadowing_resolves_to_inner_binding() {
    // f(x) = let x = "inner" in x   — the body's x is the let's slot 1.
    let body = FullExpression::Let(LetExpr {
        defs: vec![(s("x"), val(lit_str("inner")))],
        body: Box::new(val(ident("x"))),
    });
    let mut cc = context(vec![func("f", &["x"], Ty::Str, body)]);
    let (idx, _) = cc.compile_symbol(&item_sid(0), &vec![Ty::Str], FUEL).unwrap();
    let tree = cc.store.body_at(idx).unwrap();
    match &tree.instr {
        Instruction::NewLocalVar { slot: 1, body: inner, .. } => {
            assert!(matches!(&inner.instr, Instruction::GetLocalVar(1)));
        },
        other => panic!("expected wrapper at slot 1, got {:?}", other),
    }
}

#[test]
fn lexical_binding_wins_over_module_declaration() {
    // A declaration named x exists, but f's parameter x wins.
    let mut cc = context(vec![
        func("x", &[], Ty::Void, val(lit_bool(true))),
        func("f", &["x"], Ty::I64, val(ident("x"))),
    ]);
    let (idx, ty) = cc.compile_symbol(&item_sid(1), &vec![Ty::I64], FUEL).unwrap();
    assert_eq!(ty, Ty::I64);
    let tree = cc.store.body_at(idx).unwrap();
    assert!(matches!(&tree.instr, Instruction::GetLocalVar(0)));
    // The declaration was never compiled.
    assert_eq!(cc.store.len(), 1);
}

#[test]
fn buildin_precedence_over_same_named_function() {
    // A user function literally named buildin_print never captures the call.
    let mut cc = context(vec![
        func("buildin_print", &["x"], Ty::Void, val(ident("x"))),
        func("main", &[], Ty::Void, call(&["buildin_print"], vec![lit_str("x")])),
    ]);
    let (idx, ty) = cc.compile_symbol(&item_sid(1), &Vec::new(), FUEL).unwrap();
    assert_eq!(ty, Ty::Void);
    let tree = cc.store.body_at(idx).unwrap();
    assert!(matches!(&tree.instr, Instruction::Custom { code: BuiltinOp::Print, .. }));
    // No symbol resolution happened: the decoy was never compiled.
    assert_eq!(cc.store.len(), 1);
}

#[test]
fn str_concat_of_bool_is_a_type_error() {
    let mut cc = context(vec![func(
        "main",
        &[],
        Ty::Str,
        call(&["buildin_str_concat"], vec![lit_bool(true)]),
    )]);
    match cc.compile_symbol(&item_sid(0), &Vec::new(), FUEL) {
        Err(CompilationError::TypeError { got, wanted }) => {
            assert_eq!(ty_name_str(got), "Bool");
            assert_eq!(ty_name_str(wanted), "String");
        },
        other => panic!("expected TypeError, got {:?}", other),
    }
}

#[test]
fn readline_prompt_must_be_text() {
    let mut cc = context(vec![func(
        "main",
        &[],
        Ty::Str,
        call(&["buildin_readline"], vec![lit_int("3", None)]),
    )]);
    match cc.compile_symbol(&item_sid(0), &Vec::new(), FUEL) {
        Err(CompilationError::TypeError { got, wanted }) => {
            assert_eq!(got, Ty::I64);
            assert_eq!(wanted, Ty::Str);
        },
        other => panic!("expected TypeError, got {:?}", other),
    }
}

#[test]
fn identity_passes_its_operand_type_through() {
    let mut cc = context(vec![func(
        "main",
        &[],
        Ty::I64,
        call(&["buildin_identity"], vec![lit_int("5", None)]),
    )]);
    let (idx, ty) = cc.compile_symbol(&item_sid(0), &Vec::new(), FUEL).unwrap();
    assert_eq!(ty, Ty::I64);
    let tree = cc.store.body_at(idx).unwrap();
    assert!(matches!(&tree.instr, Instruction::Custom { code: BuiltinOp::Identity, .. }));
}

#[test]
fn unknown_buildin_name_is_reported() {
    let mut cc = context(vec![func("main", &[], Ty::Void, call(&["buildin_nope"], vec![]))]);
    match cc.compile_symbol(&item_sid(0), &Vec::new(), FUEL) {
        Err(CompilationError::WrongBuildin { found }) => assert_eq!(found, "buildin_nope"),
        other => panic!("expected WrongBuildin, got {:?}", other),
    }
}

#[test]
fn recursive_function_reaches_its_own_reservation() {
    // f(n) = f(n): the recursive call sees f's reserved entry and uses its
    // index as a forward reference, with no ambiguity and no recursion.
    let mut cc = context(vec![func(
        "f",
        &["n"],
        Ty::I64,
        call(&["f"], vec![ident("n")]),
    )]);
    let (idx, ty) = cc.compile_symbol(&item_sid(0), &vec![Ty::I64], FUEL).unwrap();
    assert_eq!(ty, Ty::I64);
    assert_eq!(cc.store.len(), 1);
    let tree = cc.store.body_at(idx).unwrap();
    match &tree.instr {
        Instruction::FunctionCall { func: callee, args } => {
            assert_eq!(*callee, idx);
            assert_eq!(args.len(), 1);
        },
        other => panic!("expected a self call, got {:?}", other),
    }
}

#[test]
fn mutually_recursive_functions_compile() {
    let mut cc = context(vec![
        func("even", &["n"], Ty::Bool, call(&["odd"], vec![ident("n")])),
        func("odd", &["n"], Ty::Bool, call(&["even"], vec![ident("n")])),
    ]);
    let (idx, ty) = cc.compile_symbol(&item_sid(0), &vec![Ty::I64], FUEL).unwrap();
    assert_eq!(ty, Ty::Bool);
    assert_eq!(cc.store.len(), 2);
    let even_body = cc.store.body_at(idx).unwrap();
    assert!(matches!(&even_body.instr, Instruction::FunctionCall { func: 1, .. }));
    let odd_body = cc.store.body_at(1).unwrap();
    assert!(matches!(&odd_body.instr, Instruction::FunctionCall { func: 0, .. }));
}

#[test]
fn unknown_symbol_is_not_found() {
    let mut cc = context(vec![func("main", &[], Ty::Void, call(&["nothere"], vec![]))]);
    match cc.compile_symbol(&item_sid(0), &Vec::new(), FUEL) {
        Err(CompilationError::SymbolNotFound { path: p }) => assert_eq!(p, path(&["nothere"])),
        other => panic!("expected SymbolNotFound, got {:?}", other),
    }
}

#[test]
fn two_candidates_are_ambiguous() {
    let mut cc = context(vec![
        func("h", &[], Ty::Void, val(lit_bool(true))),
        func("h", &[], Ty::Void, val(lit_bool(false))),
        func("main", &[], Ty::Void, call(&["h"], vec![])),
    ]);
    assert!(matches!(
        cc.compile_symbol(&item_sid(2), &Vec::new(), FUEL),
        Err(CompilationError::Ambiguous { .. })
    ));
}

#[test]
fn calling_a_variable_is_an_error() {
    let mut cc = context(vec![
        Item::GlobalVar { name: s("v") },
        func("main", &[], Ty::Void, call(&["v"], vec![lit_int("1", None)])),
    ]);
    match cc.compile_symbol(&item_sid(1), &Vec::new(), FUEL) {
        Err(CompilationError::CallingVariable { identifier }) => assert_eq!(identifier, "v"),
        other => panic!("expected CallingVariable, got {:?}", other),
    }
}

#[test]
fn argument_count_must_match_parameters() {
    let mut cc = context(vec![
        func("f", &["a", "b"], Ty::Void, val(ident("a"))),
        func("main", &[], Ty::Void, call(&["f"], vec![lit_bool(true)])),
    ]);
    match cc.compile_symbol(&item_sid(1), &Vec::new(), FUEL) {
        Err(CompilationError::ArityMismatch { expected, got }) => {
            assert_eq!((expected, got), (2, 1));
        },
        other => panic!("expected ArityMismatch, got {:?}", other),
    }
}

#[test]
fn calling_a_local_value_is_an_error() {
    let mut cc = context(vec![func(
        "f",
        &["x"],
        Ty::Void,
        call(&["x"], vec![lit_bool(true)]),
    )]);
    match cc.compile_symbol(&item_sid(0), &vec![Ty::I32], FUEL) {
        Err(CompilationError::ExpectedCallable { got }) => assert_eq!(got, Ty::I32),
        other => panic!("expected ExpectedCallable, got {:?}", other),
    }
}

#[test]
fn exhausted_fuel_is_a_depth_limit() {
    let mut cc = context(vec![
        func("g", &[], Ty::Void, val(lit_bool(true))),
        func("main", &[], Ty::Void, call(&["g"], vec![])),
    ]);
    assert!(matches!(
        cc.compile_symbol(&item_sid(1), &Vec::new(), 0),
        Err(CompilationError::DepthLimit)
    ));
}

#[test]
fn imported_symbol_resolves_through_the_table() {
    // Module `lib` declares `greet`; the root file imports it.
    let mut lib = Module::new(1);
    lib.add_file(FileInfo {
        filename: s("lib.sol"),
        imports: ImportTable::new(),
        items: vec![func("greet", &[], Ty::Str, val(lit_str("hello")))],
    });
    let mut table = ImportTable::new();
    table.add(s("greet"), path(&["lib"]));
    let mut root = Module::new(0);
    root.add_file(FileInfo {
        filename: s("main.sol"),
        imports: table,
        items: vec![func("main", &[], Ty::Str, call(&["greet"], vec![]))],
    });
    let mut reg = ModuleRegistry::new();
    reg.add_module(path(&["root"]), root);
    reg.add_module(path(&["lib"]), lib);
    let mut cc = CompilerContext::new(reg);
    let (idx, ty) = cc.compile_symbol(&item_sid(0), &Vec::new(), FUEL).unwrap();
    assert_eq!(ty, Ty::Str);
    assert_eq!(cc.store.len(), 2);
    let tree = cc.store.body_at(idx).unwrap();
    assert!(matches!(&tree.instr, Instruction::FunctionCall { func: 1, args } if args.is_empty()));
}

#[test]
fn find_target_main_wants_exactly_one() {
    let cc = context(vec![func("main", &[], Ty::Void, val(lit_bool(true)))]);
    let sid = cc.find_target_main(&path(&["root"])).unwrap();
    assert_eq!((sid.file, sid.item), (0, 0));
    assert_eq!(sid.module, path(&["root"]));

    let cc2 = context(vec![]);
    assert!(matches!(
        cc2.find_target_main(&path(&["root"])),
        Err(FindError::NotFound { .. })
    ));

    let cc3 = context(vec![
        func("main", &[], Ty::Void, val(lit_bool(true))),
        func("main", &[], Ty::Void, val(lit_bool(false))),
    ]);
    assert!(matches!(
        cc3.find_target_main(&path(&["root"])),
        Err(FindError::TooMany { .. })
    ));

    let cc4 = context(vec![]);
    assert!(matches!(
        cc4.find_target_main(&path(&["elsewhere"])),
        Err(FindError::ModuleNotFound { .. })
    ));
}

#[test]
fn get_symbol_reads_the_declaration() {
    let cc = context(vec![func("main", &[], Ty::Void, val(lit_bool(true)))]);
    let (m, fi, item) = cc.get_symbol(&item_sid(0)).unwrap();
    assert_eq!(m.project_id, 0);
    assert_eq!(fi.filename, "main.sol");
    assert!(matches!(item, Item::Function(f) if f.name == "main"));
    assert!(cc.get_symbol(&item_sid(7)).is_none());
}

#[test]
fn tuple_of_one_compiles_its_inner_expression() {
    let inner = FullExpression::Simple(Expression::Val(lit_str("t")));
    let mut cc = context(vec![func(
        "main",
        &[],
        Ty::Str,
        val(SubExpr::Tuple(vec![inner])),
    )]);
    let (_, ty) = cc.compile_symbol(&item_sid(0), &Vec::new(), FUEL).unwrap();
    assert_eq!(ty, Ty::Str);
}

#[test]
fn zero_argument_call_of_a_parameter_reads_its_slot() {
    // f(x) = x()   — a call of a lexical binding with no arguments reads it.
    let mut cc = context(vec![func("f", &["x"], Ty::Void, call(&["x"], vec![]))]);
    let (idx, ty) = cc.compile_symbol(&item_sid(0), &vec![Ty::Bool], FUEL).unwrap();
    assert_eq!(ty, Ty::Bool);
    let tree = cc.store.body_at(idx).unwrap();
    assert!(matches!(&tree.instr, Instruction::GetLocalVar(0)));
}

#[test]
fn capitalized_buildin_prefix_is_recognized() {
    let mut cc = context(vec![func(
        "main",
        &[],
        Ty::Void,
        call(&["Buildin_print"], vec![lit_str("x")]),
    )]);
    let (idx, _) = cc.compile_symbol(&item_sid(0), &Vec::new(), FUEL).unwrap();
    let tree = cc.store.body_at(idx).unwrap();
    assert!(matches!(&tree.instr, Instruction::Custom { code: BuiltinOp::Print, .. }));
}

#[test]
fn identity_with_two_arguments_is_an_arity_error() {
    let mut cc = context(vec![func(
        "main",
        &[],
        Ty::Void,
        call(&["buildin_identity"], vec![lit_bool(true), lit_bool(false)]),
    )]);
    match cc.compile_symbol(&item_sid(0), &Vec::new(), FUEL) {
        Err(CompilationError::BuildinArity { expected, got }) => {
            assert_eq!((expected, got), (1, 2));
        },
        other => panic!("expected BuildinArity, got {:?}", other),
    }
}

#[test]
fn unsupported_constructs_are_reported_as_such() {
    // Reading a global variable's value is unimplemented.
    let mut cc = context(vec![
        Item::GlobalVar { name: s("v") },
        func("main", &[], Ty::Void, call(&["v"], vec![])),
    ]);
    assert!(matches!(
        cc.compile_symbol(&item_sid(1), &Vec::new(), FUEL),
        Err(CompilationError::Unsupported { kind: UnsupportedKind::GlobalVarValue })
    ));

    // Multi-segment bare identifiers are field access, unsupported.
    let mut cc2 = context(vec![func(
        "main",
        &[],
        Ty::Void,
        val(SubExpr::Path(path(&["a", "b"]))),
    )]);
    assert!(matches!(
        cc2.compile_symbol(&item_sid(0), &Vec::new(), FUEL),
        Err(CompilationError::Unsupported { kind: UnsupportedKind::FieldAccess })
    ));

    // Tuples of more than one element are unsupported.
    let mut cc3 = context(vec![func(
        "main",
        &[],
        Ty::Void,
        val(SubExpr::Tuple(vec![val(lit_bool(true)), val(lit_bool(false))])),
    )]);
    assert!(matches!(
        cc3.compile_symbol(&item_sid(0), &Vec::new(), FUEL),
        Err(CompilationError::Unsupported { kind: UnsupportedKind::Tuple })
    ));

    // Float literals have no runtime value.
    let mut cc4 = context(vec![func(
        "main",
        &[],
        Ty::Void,
        val(SubExpr::Lit(Literal::Float { text: s("1.5"), span: Span { start: 0, end: 3 } })),
    )]);
    assert!(matches!(
        cc4.compile_symbol(&item_sid(0), &Vec::new(), FUEL),
        Err(CompilationError::Unsupported { kind: UnsupportedKind::FloatLiteral })
    ));
}

#[test]
fn static_expression_reexports_are_usable() {
    // The instruction tree is plain data a caller can build and inspect.
    let node = StaticExpression {
        ty: Ty::Bool,
        instr: Instruction::Const(solar_core::value::Value::Bool(true)),
    };
    assert!(matches!(node.instr, Instruction::Const(_)));
}
