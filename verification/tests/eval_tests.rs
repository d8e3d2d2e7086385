use solar_core::ast::{
    Expression, FullExpression, FunctionCall, Item, LetExpr, Literal, SubExpr,
};
use solar_core::compile::CompilerContext;
use solar_core::eval::{
    evaluate, string_concat, EvalError, EvaluationContext, InterpreterContext,
};
use solar_core::ids::SymbolId;
use solar_core::instr::{BuiltinOp, Instruction, StaticExpression};
use solar_core::modules::{FileInfo, ImportTable, Module, ModuleRegistry};
use solar_core::store::FunctionStore;
use solar_core::types::Ty;
use solar_core::value::{Int, Value};

const FUEL: u64 = 100;

fn s(x: &str) -> String {
    String::from(x)
}

fn io_with(input: &str) -> InterpreterContext {
    InterpreterContext { input: input.as_bytes().to_vec(), pos: 0, output: String::new() }
}

fn node(ty: Ty, instr: Instruction) -> StaticExpression {
    StaticExpression { ty, instr }
}

fn const_str(text: &str) -> StaticExpression {
    node(Ty::Str, Instruction::Const(Value::Str(s(text))))
}

fn const_int(v: i64) -> StaticExpression {
    node(Ty::I64, Instruction::Const(Value::Int(Int::Int64(v))))
}

fn run(e: &StaticExpression, io: &mut InterpreterContext) -> Result<Value, EvalError> {
    let store = FunctionStore::new();
    let mut env: Vec<Value> = Vec::new();
    evaluate(&store, e, &mut env, io, FUEL)
}

#[test]
fn readline_round_trip() {
    // Input bytes "abc\n": readline with no prompt returns "abc" and
    // consumes exactly through the newline.
    let e = node(Ty::Str, Instruction::Custom { code: BuiltinOp::Readline, args: vec![] });
    let mut io = io_with("abc\nrest");
    match run(&e, &mut io) {
        Ok(Value::Str(line)) => assert_eq!(line, "abc"),
        other => panic!("expected a line, got {:?}", other),
    }
    assert_eq!(io.pos, 4);
    assert_eq!(io.output, "");
}

#[test]
fn readline_writes_its_prompt_first() {
    let e = node(
        Ty::Str,
        Instruction::Custom { code: BuiltinOp::Readline, args: vec![const_str("? ")] },
    );
    let mut io = io_with("ok\n");
    match run(&e, &mut io) {
        Ok(Value::Str(line)) => assert_eq!(line, "ok"),
        other => panic!("expected a line, got {:?}", other),
    }
    assert_eq!(io.output, "? ");
    assert_eq!(io.pos, 3);
}

#[test]
fn readline_without_newline_exhausts_input() {
    let e = node(Ty::Str, Instruction::Custom { code: BuiltinOp::Readline, args: vec![] });
    let mut io = io_with("abc");
    assert!(matches!(run(&e, &mut io), Err(EvalError::InputExhausted)));
}

#[test]
fn print_writes_textual_forms_in_order() {
    let e = node(
        Ty::Void,
        Instruction::Custom {
            code: BuiltinOp::Print,
            args: vec![
                const_int(7),
                const_str("x"),
                node(Ty::Bool, Instruction::Const(Value::Bool(true))),
            ],
        },
    );
    let mut io = io_with("");
    assert!(matches!(run(&e, &mut io), Ok(Value::Void)));
    assert_eq!(io.output, "7xtrue");
}

#[test]
fn str_concat_concatenates_and_checks_types() {
    let ok = node(
        Ty::Str,
        Instruction::Custom {
            code: BuiltinOp::StrConcat,
            args: vec![const_str("a"), const_str("b"), const_str("c")],
        },
    );
    let mut io = io_with("");
    match run(&ok, &mut io) {
        Ok(Value::Str(t)) => assert_eq!(t, "abc"),
        other => panic!("expected text, got {:?}", other),
    }
    let bad = node(
        Ty::Str,
        Instruction::Custom { code: BuiltinOp::StrConcat, args: vec![const_int(1)] },
    );
    match run(&bad, &mut io) {
        Err(EvalError::TypeError { got, wanted }) => {
            assert_eq!(got, Ty::I64);
            assert_eq!(wanted, Ty::Str);
        },
        other => panic!("expected TypeError, got {:?}", other),
    }
}

#[test]
fn identity_returns_its_operand() {
    let e = node(
        Ty::I64,
        Instruction::Custom { code: BuiltinOp::Identity, args: vec![const_int(5)] },
    );
    let mut io = io_with("");
    assert!(matches!(run(&e, &mut io), Ok(Value::Int(Int::Int64(5)))));
}

#[test]
fn if_evaluates_exactly_one_branch() {
    // The untaken branch would print; its effect must not appear.
    let e = node(
        Ty::Str,
        Instruction::IfExpr {
            condition: Box::new(node(Ty::Bool, Instruction::Const(Value::Bool(true)))),
            case_true: Box::new(const_str("t")),
            case_false: Box::new(node(
                Ty::Void,
                Instruction::Custom { code: BuiltinOp::Print, args: vec![const_str("side")] },
            )),
        },
    );
    let mut io = io_with("");
    match run(&e, &mut io) {
        Ok(Value::Str(t)) => assert_eq!(t, "t"),
        other => panic!("expected text, got {:?}", other),
    }
    assert_eq!(io.output, "");
}

#[test]
fn if_condition_must_be_boolean() {
    let e = node(
        Ty::Str,
        Instruction::IfExpr {
            condition: Box::new(const_int(1)),
            case_true: Box::new(const_str("t")),
            case_false: Box::new(const_str("f")),
        },
    );
    let mut io = io_with("");
    match run(&e, &mut io) {
        Err(EvalError::TypeError { got, wanted }) => {
            assert_eq!(got, Ty::I64);
            assert_eq!(wanted, Ty::Bool);
        },
        other => panic!("expected TypeError, got {:?}", other),
    }
}

#[test]
fn local_binding_is_visible_inside_its_body_only() {
    let e = node(
        Ty::Str,
        Instruction::NewLocalVar {
            slot: 0,
            value: Box::new(const_str("bound")),
            body: Box::new(node(Ty::Str, Instruction::GetLocalVar(0))),
        },
    );
    let mut io = io_with("");
    match run(&e, &mut io) {
        Ok(Value::Str(t)) => assert_eq!(t, "bound"),
        other => panic!("expected text, got {:?}", other),
    }
    // Reading an unbound slot is an error.
    let unbound = node(Ty::Str, Instruction::GetLocalVar(5));
    assert!(matches!(run(&unbound, &mut io), Err(EvalError::UnboundVar { slot: 5 })));
}

#[test]
fn string_concat_joins_textual_forms() {
    let store = FunctionStore::new();
    let mut env: Vec<Value> = Vec::new();
    let mut io = io_with("");
    let args = vec![const_int(-5), const_str("!")];
    let joined = string_concat(&store, &args, &mut env, &mut io, FUEL).unwrap();
    assert_eq!(joined, "-5!");
}

#[test]
fn compiled_program_runs_end_to_end() {
    // main = let x = "a", y = buildin_str_concat(x, "b") in
    //            buildin_print(y)
    // Compiling and evaluating must write "ab": the nesting threads x's
    // slot into y's value expression.
    let let_body = FullExpression::Let(LetExpr {
        defs: vec![
            (
                s("x"),
                FullExpression::Simple(Expression::Val(SubExpr::Lit(Literal::Str(s("a"))))),
            ),
            (
                s("y"),
                FullExpression::Simple(Expression::Call(FunctionCall {
                    name: vec![s("buildin_str_concat")],
                    args: vec![SubExpr::Path(vec![s("x")]), SubExpr::Lit(Literal::Str(s("b")))],
                })),
            ),
        ],
        body: Box::new(FullExpression::Simple(Expression::Call(FunctionCall {
            name: vec![s("buildin_print")],
            args: vec![SubExpr::Path(vec![s("y")])],
        }))),
    });
    let mut m = Module::new(0);
    m.add_file(FileInfo {
        filename: s("main.sol"),
        imports: ImportTable::new(),
        items: vec![Item::Function(solar_core::ast::FunctionDecl {
            name: s("main"),
            params: vec![],
            ret: Ty::Void,
            body: let_body,
        })],
    });
    let mut reg = ModuleRegistry::new();
    reg.add_module(vec![s("root")], m);
    let mut cc = CompilerContext::new(reg);
    let sid = SymbolId { module: vec![s("root")], file: 0, item: 0 };
    let (idx, _) = cc.compile_symbol(&sid, &Vec::new(), FUEL).unwrap();

    let ec = EvaluationContext::from(cc);
    let body = ec.functions.body_at(idx).unwrap();
    let mut env: Vec<Value> = Vec::new();
    let mut io = io_with("");
    let out = ec.evaluate(body, &mut env, &mut io, FUEL).unwrap();
    assert!(matches!(out, Value::Void));
    assert_eq!(io.output, "ab");
}

#[test]
fn calling_a_reserved_entry_is_reported() {
    // A store with only a reservation cannot be called.
    let e = node(Ty::I64, Instruction::FunctionCall { func: 0, args: vec![] });
    let store = FunctionStore::new();
    let mut env: Vec<Value> = Vec::new();
    let mut io = io_with("");
    assert!(matches!(
        evaluate(&store, &e, &mut env, &mut io, FUEL),
        Err(EvalError::UnknownFunction { index: 0 })
    ));
}
