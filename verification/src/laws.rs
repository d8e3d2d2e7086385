//! The laws the compiler obeys, stated over the compilation model and
//! proved. The shadowing laws of the lexical scope stand beside `Scope`
//! itself, in `scope`.

use crate::ast::{is_buildin_call, Expression, FunctionCall};
use crate::compile::{
    spec_cme, spec_compile, spec_compile_args, spec_compile_symbol, spec_dispatch,
    spec_resolve, CandModel, ErrModel, LkModel,
};
use crate::instr::SExprModel;
use crate::ids::{SsidModel, SymbolIdModel};
use crate::modules::{registry_module, Module, ModuleRegistry, TableModel};
use crate::scope::scope_get;
use crate::store::{store_find, InfoModel, StoreModel};
use crate::types::Ty;
use vstd::prelude::*;

verus! {

/// After a compilation succeeds, its cache key is findable at the returned
/// index, and that entry reports the returned type.
pub proof fn lemma_compile_symbol_caches(
    reg: ModuleRegistry,
    store: StoreModel,
    sidm: SymbolIdModel,
    args: Seq<Ty>,
    fuel: nat,
)
    requires
        spec_compile_symbol(reg, store, sidm, args, fuel).0 is Ok,
    ensures
        ({
            let (r, s1) = spec_compile_symbol(reg, store, sidm, args, fuel);
            let key = SsidModel { sym: sidm, args };
            let i = r->Ok_0.0;
            let t = r->Ok_0.1;
            &&& store_find(s1, key) == Some(i)
            &&& 0 <= i < s1.len()
            &&& match s1[i].1 {
                InfoModel::Complete { body, .. } => body.ty == t,
                InfoModel::Reserved { ret } => ret == t,
            }
        }),
{
    let key = SsidModel { sym: sidm, args };
    match crate::compile::site_item(reg, sidm) {
        Some(crate::ast::Item::Function(f)) => {
            let m = registry_module(reg, sidm.module)->0;
            let lk = LkModel {
                cur_mod: m,
                cur_path: sidm.module,
                imports: m.files@[sidm.file].imports.model(),
            };
            crate::store::lemma_store_find_props(store, key);
            match store_find(store, key) {
                Some(_) => {},
                None => {
                    let idx = store.len() as int;
                    let store1 = store.push((key, InfoModel::Reserved { ret: f.ret }));
                    let (bres, store2) = crate::compile::spec_cfe(
                        reg,
                        store1,
                        lk,
                        f.params.deep_view(),
                        args,
                        f.body,
                        fuel,
                    );
                    crate::compile::lemma_cfe_extends(
                        reg,
                        store1,
                        lk,
                        f.params.deep_view(),
                        args,
                        f.body,
                        fuel,
                    );
                    match bres {
                        Err(_) => {},
                        Ok(body) => {
                            let s1 = store2.update(idx, (key, InfoModel::Complete { args, body }));
                            assert forall|j: int| 0 <= j < idx implies s1[j].0 != key by {
                                assert(s1[j] == store[j]);
                            }
                            crate::store::lemma_store_find_at(s1, key, idx);
                        },
                    }
                },
            }
        },
        _ => {},
    }
}

/// Cache idempotence: once compiling a symbol for given argument types has
/// succeeded, compiling the same pair again returns the same function index
/// and the same type, and leaves the store untouched — the body is never
/// lowered a second time, whatever recursion bound the second call gets.
pub proof fn lemma_cache_idempotent(
    reg: ModuleRegistry,
    store: StoreModel,
    sidm: SymbolIdModel,
    args: Seq<Ty>,
    fuel1: nat,
    fuel2: nat,
)
    requires
        spec_compile_symbol(reg, store, sidm, args, fuel1).0 is Ok,
    ensures
        ({
            let (r1, s1) = spec_compile_symbol(reg, store, sidm, args, fuel1);
            spec_compile_symbol(reg, s1, sidm, args, fuel2) == (r1, s1)
        }),
{
    lemma_compile_symbol_caches(reg, store, sidm, args, fuel1);
}

/// Lexical precedence: a single-segment name that is bound in the lexical
/// scope resolves to that binding's slot as the sole candidate — local scope
/// always wins over module-level declarations and imports.
pub proof fn lemma_lexical_precedence(
    reg: ModuleRegistry,
    cur_mod: Module,
    cur_path: Seq<Seq<char>>,
    imports: TableModel,
    scope: Seq<Seq<char>>,
    path: Seq<Seq<char>>,
)
    requires
        path.len() == 1,
        scope_get(scope, path[0]) is Some,
    ensures
        spec_resolve(reg, cur_mod, cur_path, imports, scope, path) == seq![
            CandModel::Local(scope_get(scope, path[0])->0),
        ],
{
}

/// Shadowing, at resolution level: after a binding for `name` is pushed,
/// the reference `name` resolves to the new innermost slot, whatever outer
/// binding, module declaration or import carried that name before; and
/// popping the binding restores the resolution of every name.
pub proof fn lemma_shadowing_resolves(
    reg: ModuleRegistry,
    cur_mod: Module,
    cur_path: Seq<Seq<char>>,
    imports: TableModel,
    scope: Seq<Seq<char>>,
    name: Seq<char>,
)
    ensures
        spec_resolve(reg, cur_mod, cur_path, imports, scope.push(name), seq![name]) == seq![
            CandModel::Local(scope.len() as int),
        ],
        forall|other: Seq<char>|
            crate::scope::scope_get(scope.push(name).drop_last(), other) == crate::scope::scope_get(
                scope,
                other,
            ),
{
    crate::scope::lemma_shadowing(scope, name);
    assert forall|other: Seq<char>|
        crate::scope::scope_get(scope.push(name).drop_last(), other) == crate::scope::scope_get(
            scope,
            other,
        ) by {
        crate::scope::lemma_pop_restores(scope, name, other);
    }
}

/// Built-in precedence: lowering a call whose name carries the built-in
/// prefix never performs symbol resolution. After the arguments are
/// compiled, the outcome is the dispatcher's alone, and the store does not
/// change further — whatever declarations of the same name exist.
pub proof fn lemma_buildin_precedence(
    reg: ModuleRegistry,
    store: StoreModel,
    lk: LkModel,
    scope: Seq<Seq<char>>,
    tys: Seq<Ty>,
    fc: FunctionCall,
    fuel: nat,
)
    requires
        is_buildin_call(fc.name.deep_view()),
    ensures
        ({
            let (ares, store1) = spec_compile_args(reg, store, lk, scope, tys, fc.args@, fuel);
            spec_cme(reg, store, lk, scope, tys, Expression::Call(fc), fuel) == match ares {
                Err(er) => (Err::<SExprModel, ErrModel>(er), store1),
                Ok(arges) => (spec_dispatch(fc.name.deep_view()[0], arges), store1),
            }
        }),
{
    assert(fc.name@.len() == 1);
}

/// What the dispatcher returns is always a primitive instruction, never a
/// call of a resolved symbol: a user function that happens to bear a
/// built-in name can never capture a prefixed call.
pub proof fn lemma_dispatch_is_primitive(fname: Seq<char>, args: Seq<SExprModel>)
    ensures
        spec_dispatch(fname, args) matches Ok(se) ==> se.instr is Custom,
{
}

/// Recursion through the reservation: lowering a function whose cache key is
/// already reserved — the function currently being compiled, reached again
/// by its own recursive call — hands back the reserved index and the
/// declared return type at once, with no recompilation, no store growth, and
/// no error.
pub proof fn lemma_reserved_short_circuit(
    reg: ModuleRegistry,
    store: StoreModel,
    f: crate::ast::FunctionDecl,
    lk: LkModel,
    sidm: SymbolIdModel,
    args: Seq<Ty>,
    fuel: nat,
    i: int,
)
    requires
        store_find(store, SsidModel { sym: sidm, args }) == Some(i),
        0 <= i < store.len(),
        store[i].1 is Reserved,
    ensures
        spec_compile(reg, store, f, lk, sidm, args, fuel) == (
            Ok::<(int, Ty), ErrModel>((i, store[i].1->Reserved_ret)),
            store,
        ),
{
}

/// The `readline` round trip: with no prompt, on input whose next newline
/// sits at `nl` and whose line bytes are well-formed text, the built-in
/// returns exactly the decoded bytes before the newline, consumes exactly
/// through the newline, and touches nothing else.
pub proof fn lemma_readline_round_trip(io: crate::eval::IoModel, nl: int)
    requires
        crate::eval::find_newline(io.input, io.pos) == Some(nl),
        vstd::utf8::valid_utf8(io.input.subrange(io.pos, nl)),
    ensures
        crate::eval::spec_apply_op(crate::instr::BuiltinOp::Readline, Seq::empty(), io) == (
            Ok::<crate::value::ValueModel, crate::eval::EvalError>(
                crate::value::ValueModel::Str(
                    vstd::utf8::decode_utf8(io.input.subrange(io.pos, nl)),
                ),
            ),
            crate::eval::IoModel { pos: nl + 1, ..io },
        ),
{
}

/// Let-lowering threads: with at least one binding, the lowered tree is the
/// first binding's wrapper enclosing the tree built from the remaining
/// bindings — never the raw body expression — and the whole tree's type is
/// the body's.
pub proof fn lemma_let_nesting_threads(lets: Seq<(int, SExprModel)>, body: SExprModel)
    requires
        lets.len() >= 1,
    ensures
        crate::compile::nest_lets(lets, body) == (SExprModel {
            ty: crate::compile::nest_lets(lets.drop_first(), body).ty,
            instr: crate::instr::InstrModel::NewLocal {
                slot: lets[0].0,
                value: Box::new(lets[0].1),
                body: Box::new(crate::compile::nest_lets(lets.drop_first(), body)),
            },
        }),
        crate::compile::nest_lets(lets, body).ty == body.ty,
    decreases lets.len(),
{
    if lets.len() > 1 {
        lemma_let_nesting_threads(lets.drop_first(), body);
    }
}

} // verus!
