use solar_core::ast::{
    Expression, FullExpression, FunctionCall, FunctionDecl, Import, Item, Literal, Selection,
    SubExpr,
};
use solar_core::compile::CompilerContext;
use solar_core::ids::SymbolId;
use solar_core::instr::Instruction;
use solar_core::modules::{
    resolve_imports, DepMap, FileInfo, ImportTable, Module, ModuleRegistry, ResolveError,
};
use solar_core::types::Ty;

fn s(x: &str) -> String {
    String::from(x)
}

fn path(xs: &[&str]) -> Vec<String> {
    xs.iter().map(|x| s(x)).collect()
}

fn str_body(text: &str) -> FullExpression {
    FullExpression::Simple(solar_core::ast::Expression::Val(SubExpr::Lit(Literal::Str(s(text)))))
}

fn func(name: &str) -> Item {
    Item::Function(FunctionDecl { name: s(name), params: Vec::new(), ret: Ty::Str, body: str_body("") })
}

#[test]
fn library_import_of_one_symbol() {
    let depmap: DepMap = vec![(s("std"), path(&["std", "0.1.0"]))];
    let imports = vec![Import {
        is_lib: true,
        path: path(&["std", "string", "length"]),
        items: Selection::This,
    }];
    let table = resolve_imports(&imports, &depmap, &path(&["proj"])).unwrap();
    let origins = table.get(&s("length")).unwrap();
    assert_eq!(origins.len(), 1);
    assert_eq!(origins[0], path(&["std", "0.1.0", "string"]));
    assert!(table.get(&s("string")).is_none());
}

#[test]
fn project_import_of_listed_symbols() {
    let depmap: DepMap = Vec::new();
    let imports = vec![Import {
        is_lib: false,
        path: path(&["models", "customer"]),
        items: Selection::Items(path(&["load", "save"])),
    }];
    let table = resolve_imports(&imports, &depmap, &path(&["proj"])).unwrap();
    let load = table.get(&s("load")).unwrap();
    assert_eq!(load.len(), 1);
    assert_eq!(load[0], path(&["proj", "models", "customer"]));
    let save = table.get(&s("save")).unwrap();
    assert_eq!(save[0], path(&["proj", "models", "customer"]));
}

#[test]
fn ambiguous_import_keeps_every_origin() {
    let depmap: DepMap = vec![(s("std"), path(&["std", "0.1.0"]))];
    let imports = vec![
        Import { is_lib: true, path: path(&["std", "string", "length"]), items: Selection::This },
        Import { is_lib: true, path: path(&["std", "array", "length"]), items: Selection::This },
    ];
    let table = resolve_imports(&imports, &depmap, &path(&["proj"])).unwrap();
    let origins = table.get(&s("length")).unwrap();
    assert_eq!(origins.len(), 2);
    assert_eq!(origins[0], path(&["std", "0.1.0", "string"]));
    assert_eq!(origins[1], path(&["std", "0.1.0", "array"]));
}

#[test]
fn unknown_library_is_reported() {
    let depmap: DepMap = Vec::new();
    let imports = vec![Import {
        is_lib: true,
        path: path(&["nosuch", "thing"]),
        items: Selection::This,
    }];
    match resolve_imports(&imports, &depmap, &path(&["proj"])) {
        Err(ResolveError::LibNotInDeps { libname }) => assert_eq!(libname, "nosuch"),
        other => panic!("expected LibNotInDeps, got {:?}", other),
    }
}

#[test]
fn module_find_matches_by_name_and_skips_tests() {
    let mut m = Module::new(0);
    m.add_file(FileInfo {
        filename: s("a.sol"),
        imports: ImportTable::new(),
        items: vec![func("f"), Item::Test { name: s("f") }, func("g")],
    });
    m.add_file(FileInfo {
        filename: s("b.sol"),
        imports: ImportTable::new(),
        items: vec![func("f")],
    });
    let mpath = path(&["proj"]);
    let found = m.find(&s("f"), &mpath);
    assert_eq!(found.len(), 2);
    assert_eq!((found[0].file, found[0].item), (0, 0));
    assert_eq!((found[1].file, found[1].item), (1, 0));
    assert_eq!(found[0].module, mpath);
    assert_eq!(m.find(&s("g"), &mpath).len(), 1);
    assert_eq!(m.find(&s("h"), &mpath).len(), 0);
}

#[test]
fn file_assembled_from_items_feeds_resolution() {
    // The target file imports `greet` from the library `lib`; the call in
    // its main resolves through that import table.
    let depmap: DepMap = vec![(s("lib"), path(&["lib"]))];
    let imports = vec![Import { is_lib: true, path: path(&["lib", "greet"]), items: Selection::This }];
    let main_item = Item::Function(FunctionDecl {
        name: s("main"),
        params: vec![],
        ret: Ty::Str,
        body: FullExpression::Simple(Expression::Call(FunctionCall {
            name: path(&["greet"]),
            args: vec![],
        })),
    });
    let fi = FileInfo::from_items(s("main.sol"), &depmap, &path(&["proj"]), &imports, vec![
        main_item,
    ])
        .unwrap();
    let mut root = Module::new(0);
    root.add_file(fi);

    let mut lib = Module::new(1);
    lib.add_file(FileInfo {
        filename: s("lib.sol"),
        imports: ImportTable::new(),
        items: vec![func("greet")],
    });

    let mut reg = ModuleRegistry::new();
    reg.add_module(path(&["proj"]), root);
    reg.add_module(path(&["lib"]), lib);
    let mut cc = CompilerContext::new(reg);
    let sid = SymbolId { module: path(&["proj"]), file: 0, item: 0 };
    let (idx, ty) = cc.compile_symbol(&sid, &Vec::new(), 100).unwrap();
    assert_eq!(ty, Ty::Str);
    let tree = cc.store.body_at(idx).unwrap();
    assert!(matches!(&tree.instr, Instruction::FunctionCall { func: 1, .. }));
}

#[test]
fn registry_lookup_by_path() {
    let mut reg = ModuleRegistry::new();
    reg.add_module(path(&["a"]), Module::new(0));
    reg.add_module(path(&["a", "b"]), Module::new(1));
    assert_eq!(reg.get(&path(&["a", "b"])).unwrap().project_id, 1);
    assert_eq!(reg.get(&path(&["a"])).unwrap().project_id, 0);
    assert!(reg.get(&path(&["b"])).is_none());
}
