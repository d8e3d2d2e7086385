use solar_core::ast::{
    call_is_buildin, check_full_wf, check_sub_wf, str_buildin_shortname, str_eq,
    str_has_buildin_prefix, Expression, FullExpression, FunctionCall, Import, LetExpr, Literal,
    Selection, Span, SubExpr,
};
use solar_core::modules::{check_depmap_wf, check_imports_wf, DepMap};

fn s(x: &str) -> String {
    String::from(x)
}

fn val(v: SubExpr) -> FullExpression {
    FullExpression::Simple(Expression::Val(v))
}

#[test]
fn buildin_prefix_recognition() {
    assert!(str_has_buildin_prefix("buildin_print"));
    assert!(str_has_buildin_prefix("Buildin_print"));
    assert!(str_has_buildin_prefix("buildin_"));
    assert!(!str_has_buildin_prefix("buildin"));
    assert!(!str_has_buildin_prefix("BUILDIN_print"));
    assert!(!str_has_buildin_prefix("print"));
    assert!(!str_has_buildin_prefix(""));
    assert_eq!(str_buildin_shortname("buildin_str_concat"), "str_concat");
    assert_eq!(str_buildin_shortname("Buildin_readline"), "readline");
}

#[test]
fn call_names_must_be_single_segment_to_be_buildin() {
    assert!(call_is_buildin(&vec![s("buildin_print")]));
    assert!(!call_is_buildin(&vec![s("std"), s("buildin_print")]));
    assert!(!call_is_buildin(&vec![s("printbuildin_")]));
}

#[test]
fn text_equality_is_character_wise() {
    assert!(str_eq("", ""));
    assert!(str_eq("abc", "abc"));
    assert!(!str_eq("abc", "abd"));
    assert!(!str_eq("abc", "ab"));
}

#[test]
fn well_formedness_checks() {
    // A plain literal is fine.
    assert!(check_full_wf(&val(SubExpr::Lit(Literal::Bool(true)))));
    // Float literals cannot be compiled.
    assert!(!check_sub_wf(&SubExpr::Lit(Literal::Float {
        text: s("1.5"),
        span: Span { start: 0, end: 3 },
    })));
    // Bare identifiers are single-segment.
    assert!(check_sub_wf(&SubExpr::Path(vec![s("x")])));
    assert!(!check_sub_wf(&SubExpr::Path(vec![s("a"), s("b")])));
    // Only one-element tuples are supported.
    assert!(!check_sub_wf(&SubExpr::Tuple(vec![])));
    assert!(!check_sub_wf(&SubExpr::Tuple(vec![
        val(SubExpr::Lit(Literal::Bool(true))),
        val(SubExpr::Lit(Literal::Bool(false))),
    ])));
    // A let needs at least one binding.
    assert!(!check_full_wf(&FullExpression::Let(LetExpr {
        defs: vec![],
        body: Box::new(val(SubExpr::Lit(Literal::Bool(true)))),
    })));
    // identity takes exactly one argument; readline at most one.
    assert!(!check_full_wf(&FullExpression::Simple(Expression::Call(FunctionCall {
        name: vec![s("buildin_identity")],
        args: vec![],
    }))));
    assert!(!check_full_wf(&FullExpression::Simple(Expression::Call(FunctionCall {
        name: vec![s("buildin_readline")],
        args: vec![SubExpr::Lit(Literal::Str(s("a"))), SubExpr::Lit(Literal::Str(s("b")))],
    }))));
    assert!(check_full_wf(&FullExpression::Simple(Expression::Call(FunctionCall {
        name: vec![s("buildin_readline")],
        args: vec![SubExpr::Lit(Literal::Str(s("?")))],
    }))));
}

#[test]
fn import_well_formedness_checks() {
    let good = Import { is_lib: false, path: vec![s("models")], items: Selection::This };
    let all = Import { is_lib: false, path: vec![s("models")], items: Selection::All };
    let empty = Import { is_lib: true, path: vec![], items: Selection::This };
    assert!(check_imports_wf(&vec![]));
    assert!(check_imports_wf(&vec![good]));
    let with_all = vec![Import { is_lib: false, path: vec![s("m")], items: Selection::All }];
    assert!(!check_imports_wf(&with_all));
    drop(all);
    assert!(!check_imports_wf(&vec![empty]));

    let dm_ok: DepMap = vec![(s("std"), vec![s("std"), s("0.1.0")])];
    let dm_bad: DepMap = vec![(s("std"), vec![])];
    assert!(check_depmap_wf(&dm_ok));
    assert!(!check_depmap_wf(&dm_bad));
}
