//! The instruction evaluator: walks a compiled instruction tree against an
//! indexed slot environment and produces a runtime value.
//!
//! The console is modelled as plain data: bytes still unread and the text
//! written so far. `print` appends the textual form of every argument, in
//! order, with no separators; `readline` writes its optional prompt, then
//! consumes bytes up to and including one newline and returns the decoded
//! line without it.
//!
//! The evaluator is total: every failure — a type mismatch at a built-in, a
//! read of an unbound slot, a call of an unfinished function, exhausted
//! input, malformed text — is a distinct error value. Failures that can only
//! arise from a malformed instruction tree indicate a caller bug; a driver
//! treats them as fatal.

use crate::instr::{sexpr_model, sexprs_model, BuiltinOp, InstrModel, Instruction, SExprModel,
    StaticExpression};
use crate::store::{FunctionStore, InfoModel, StoreModel};
use crate::types::Ty;
use crate::value::{value_model, value_text, value_ty, Value, ValueModel};
use vstd::prelude::*;

verus! {

/// Runtime console capabilities as plain data: `input[pos..]` is what
/// remains to be read; `output` is everything written.
#[derive(Debug)]
pub struct InterpreterContext {
    pub input: Vec<u8>,
    pub pos: usize,
    pub output: String,
}

/// Mathematical mirror of `InterpreterContext`.
#[verifier::ext_equal]
pub struct IoModel {
    pub input: Seq<u8>,
    pub pos: int,
    pub output: Seq<char>,
}

pub open spec fn io_model(io: InterpreterContext) -> IoModel {
    IoModel { input: io.input@, pos: io.pos as int, output: io.output@ }
}

/// A runtime failure. The starred kinds can only come from a malformed
/// instruction tree or store, never from trees this crate compiles.
#[derive(Clone, Copy, Debug, PartialEq, Eq, Structural)]
pub enum EvalError {
    /// A built-in met a value of the wrong type.
    TypeError { got: Ty, wanted: Ty },
    /// A read of a slot that holds nothing (*).
    UnboundVar { slot: usize },
    /// A binding whose slot is not the next free one (*).
    SlotMismatch { slot: usize },
    /// A call of an index the store does not hold (*).
    UnknownFunction { index: usize },
    /// A call of a function that is still only reserved (*).
    FunctionIncomplete { index: usize },
    /// A built-in applied to the wrong number of arguments (*).
    BuildinArity { expected: usize, got: usize },
    /// `readline` found no newline in the remaining input.
    InputExhausted,
    /// `readline` read bytes that are not well-formed text.
    InvalidUtf8,
    /// The recursion bound on nested calls was exhausted.
    DepthLimit,
}

/// The function entries of a store, by index.
pub open spec fn store_infos(m: StoreModel) -> Seq<InfoModel> {
    Seq::new(m.len(), |i: int| m[i].1)
}

/// Mirror of a runtime environment.
pub open spec fn env_model(v: Seq<Value>) -> Seq<ValueModel> {
    Seq::new(v.len(), |i: int| value_model(v[i]))
}

/// The type of the first value that is not text, if any.
pub open spec fn first_non_str(vals: Seq<ValueModel>) -> Option<Ty>
    decreases vals.len(),
{
    if vals.len() == 0 {
        None
    } else if !(vals[0] is Str) {
        Some(value_ty(vals[0]))
    } else {
        first_non_str(vals.drop_first())
    }
}

/// Concatenation of text values.
pub open spec fn concat_strs(vals: Seq<ValueModel>) -> Seq<char>
    decreases vals.len(),
{
    if vals.len() == 0 {
        Seq::empty()
    } else {
        vals[0]->Str_0 + concat_strs(vals.drop_first())
    }
}

/// Concatenation of the textual forms of values, as `print` writes them.
pub open spec fn concat_texts(vals: Seq<ValueModel>) -> Seq<char>
    decreases vals.len(),
{
    if vals.len() == 0 {
        Seq::empty()
    } else {
        value_text(vals[0]) + concat_texts(vals.drop_first())
    }
}

/// The position of the first newline byte at or after `pos`.
pub open spec fn find_newline(input: Seq<u8>, pos: int) -> Option<int>
    decreases input.len() - pos,
{
    if pos < 0 || pos >= input.len() {
        None
    } else if input[pos] == 10u8 {
        Some(pos)
    } else {
        find_newline(input, pos + 1)
    }
}

/// The runtime half of the built-in contract, on values:
/// - `str_concat` demands text values and concatenates them;
/// - `identity` returns its one operand unchanged;
/// - `print` writes the textual form of every operand, in order;
/// - `readline` writes its optional text prompt, then consumes input through
///   the first newline and returns the decoded line without it. Input
///   without a newline, and bytes that are not valid text, are errors; a
///   decoding failure consumes nothing.
pub open spec fn spec_apply_op(code: BuiltinOp, vals: Seq<ValueModel>, io: IoModel) -> (Result<
    ValueModel,
    EvalError,
>, IoModel) {
    match code {
        BuiltinOp::StrConcat => match first_non_str(vals) {
            Some(t) => (Err(EvalError::TypeError { got: t, wanted: Ty::Str }), io),
            None => (Ok(ValueModel::Str(concat_strs(vals))), io),
        },
        BuiltinOp::Identity => if vals.len() == 1 {
            (Ok(vals[0]), io)
        } else {
            (Err(EvalError::BuildinArity { expected: 1, got: vals.len() as usize }), io)
        },
        BuiltinOp::Print => (
            Ok(ValueModel::Void),
            IoModel { output: io.output + concat_texts(vals), ..io },
        ),
        BuiltinOp::Readline => {
            if vals.len() > 1 {
                (Err(EvalError::BuildinArity { expected: 1, got: vals.len() as usize }), io)
            } else if vals.len() == 1 && !(vals[0] is Str) {
                (Err(EvalError::TypeError { got: value_ty(vals[0]), wanted: Ty::Str }), io)
            } else {
                let io1 = if vals.len() == 1 {
                    IoModel { output: io.output + vals[0]->Str_0, ..io }
                } else {
                    io
                };
                match find_newline(io1.input, io1.pos) {
                    None => (Err(EvalError::InputExhausted), io1),
                    Some(nl) => {
                        let bytes = io1.input.subrange(io1.pos, nl);
                        if vstd::utf8::valid_utf8(bytes) {
                            (
                                Ok(ValueModel::Str(vstd::utf8::decode_utf8(bytes))),
                                IoModel { pos: nl + 1, ..io1 },
                            )
                        } else {
                            (Err(EvalError::InvalidUtf8), io1)
                        }
                    },
                }
            }
        },
    }
}

/// Evaluation of one instruction tree: the state machine of the compiled
/// form. `Const` yields its value; `GetLocalVar` reads a bound slot;
/// `NewLocalVar` binds the next free slot for exactly its body; `IfExpr`
/// demands a boolean and evaluates exactly one branch; `FunctionCall`
/// evaluates the arguments left to right, then the callee's body in a fresh
/// environment; `Custom` evaluates the arguments and applies the built-in.
pub open spec fn spec_eval(
    funcs: Seq<InfoModel>,
    e: SExprModel,
    env: Seq<ValueModel>,
    io: IoModel,
    fuel: nat,
) -> (Result<ValueModel, EvalError>, IoModel)
    decreases fuel, e, 0nat,
{
    match e.instr {
        InstrModel::Const(v) => (Ok(v), io),
        InstrModel::GetLocal(slot) => if 0 <= slot < env.len() {
            (Ok(env[slot]), io)
        } else {
            (Err(EvalError::UnboundVar { slot: slot as usize }), io)
        },
        InstrModel::NewLocal { slot, value, body } => {
            let (vres, io1) = spec_eval(funcs, *value, env, io, fuel);
            match vres {
                Err(er) => (Err(er), io1),
                Ok(v) => if slot == env.len() {
                    spec_eval(funcs, *body, env.push(v), io1, fuel)
                } else {
                    (Err(EvalError::SlotMismatch { slot: slot as usize }), io1)
                },
            }
        },
        InstrModel::If { cond, then, els } => {
            let (cres, io1) = spec_eval(funcs, *cond, env, io, fuel);
            match cres {
                Err(er) => (Err(er), io1),
                Ok(c) => match c {
                    ValueModel::Bool(b) => if b {
                        spec_eval(funcs, *then, env, io1, fuel)
                    } else {
                        spec_eval(funcs, *els, env, io1, fuel)
                    },
                    other => (
                        Err(EvalError::TypeError { got: value_ty(other), wanted: Ty::Bool }),
                        io1,
                    ),
                },
            }
        },
        InstrModel::Call { func, args } => {
            let (ares, io1) = spec_eval_args(funcs, args, env, io, fuel);
            match ares {
                Err(er) => (Err(er), io1),
                Ok(vals) => if !(0 <= func < funcs.len()) {
                    (Err(EvalError::UnknownFunction { index: func as usize }), io1)
                } else {
                    match funcs[func] {
                        InfoModel::Reserved { .. } => (
                            Err(EvalError::FunctionIncomplete { index: func as usize }),
                            io1,
                        ),
                        InfoModel::Complete { body, .. } => if fuel == 0 {
                            (Err(EvalError::DepthLimit), io1)
                        } else {
                            // Arguments bind positionally in a fresh frame.
                            spec_eval(funcs, body, vals, io1, (fuel - 1) as nat)
                        },
                    }
                },
            }
        },
        InstrModel::Custom { code, args } => {
            let (ares, io1) = spec_eval_args(funcs, args, env, io, fuel);
            match ares {
                Err(er) => (Err(er), io1),
                Ok(vals) => spec_apply_op(code, vals, io1),
            }
        },
    }
}

/// Evaluating the argument list then joining the textual forms of the
/// values, with no separators: what `print` writes.
pub open spec fn spec_string_concat(
    funcs: Seq<InfoModel>,
    args: Seq<SExprModel>,
    env: Seq<ValueModel>,
    io: IoModel,
    fuel: nat,
) -> (Result<Seq<char>, EvalError>, IoModel) {
    let (ares, io1) = spec_eval_args(funcs, args, env, io, fuel);
    match ares {
        Err(er) => (Err(er), io1),
        Ok(vals) => (Ok(concat_texts(vals)), io1),
    }
}

/// Evaluation of argument expressions, left to right, eagerly.
pub open spec fn spec_eval_args(
    funcs: Seq<InfoModel>,
    args: Seq<SExprModel>,
    env: Seq<ValueModel>,
    io: IoModel,
    fuel: nat,
) -> (Result<Seq<ValueModel>, EvalError>, IoModel)
    decreases fuel, args, 1nat,
{
    if args.len() == 0 {
        (Ok(Seq::empty()), io)
    } else {
        let (hres, io1) = spec_eval(funcs, args[0], env, io, fuel);
        match hres {
            Err(er) => (Err(er), io1),
            Ok(h) => {
                let (rres, io2) = spec_eval_args(funcs, args.drop_first(), env, io1, fuel);
                match rres {
                    Err(er) => (Err(er), io2),
                    Ok(rest) => (Ok(seq![h] + rest), io2),
                }
            },
        }
    }
}

// ---------------------------------------------------------------------------
// The executable evaluator
// ---------------------------------------------------------------------------

/// Relies on `String::from_utf8`: succeeds exactly on well-formed UTF-8 and
/// returns the text those bytes encode.
#[verifier::external_body]
fn decode_utf8_bytes(bytes: Vec<u8>) -> (r: Option<String>)
    ensures
        match r {
            Some(s) => vstd::utf8::valid_utf8(bytes@) && s@ == vstd::utf8::decode_utf8(bytes@),
            None => !vstd::utf8::valid_utf8(bytes@),
        },
{
    match String::from_utf8(bytes) {
        Ok(s) => Some(s),
        Err(_) => None,
    }
}

/// Applies a built-in at the value level, after its arguments have been
/// evaluated.
#[verifier::loop_isolation(false)]
fn apply_op(code: BuiltinOp, vals: Vec<Value>, io: &mut InterpreterContext) -> (r: Result<
    Value,
    EvalError,
>)
    ensures
        ({
            let (sr, sio) = spec_apply_op(code, env_model(vals@), io_model(*old(io)));
            io_model(*final(io)) == sio && match r {
                Ok(v) => sr == Ok::<ValueModel, EvalError>(value_model(v)),
                Err(er) => sr == Err::<ValueModel, EvalError>(er),
            }
        }),
{
    let ghost vm = env_model(vals@);
    match code {
        BuiltinOp::StrConcat => {
            let mut out = String::new();
            let mut i: usize = 0;
            proof {
                assert(vm.skip(0) =~= vm);
            }
            while i < vals.len()
                invariant
                    i <= vals@.len(),
                    first_non_str(vm) == first_non_str(vm.skip(i as int)),
                    first_non_str(vm) is None ==> concat_strs(vm) =~= out@ + concat_strs(
                        vm.skip(i as int),
                    ),
                decreases vals@.len() - i,
            {
                proof {
                    assert(vm.skip(i as int)[0] == vm[i as int]);
                    assert(vm.skip(i as int).drop_first() =~= vm.skip(i as int + 1));
                }
                match &vals[i] {
                    Value::Str(s) => {
                        out.append(s.as_str());
                    },
                    other => {
                        let t = other.ty_of();
                        return Err(EvalError::TypeError { got: t, wanted: Ty::Str });
                    },
                }
                i = i + 1;
            }
            proof {
                assert(vm.skip(vals@.len() as int) =~= Seq::<ValueModel>::empty());
                assert(concat_strs(vm) =~= out@);
            }
            Ok(Value::Str(out))
        },
        BuiltinOp::Identity => {
            if vals.len() != 1 {
                return Err(EvalError::BuildinArity { expected: 1, got: vals.len() });
            }
            let mut vals = vals;
            match vals.pop() {
                Some(v) => Ok(v),
                None => vstd::pervasive::unreached(),
            }
        },
        BuiltinOp::Print => {
            let mut i: usize = 0;
            proof {
                assert(vm.skip(0) =~= vm);
            }
            while i < vals.len()
                invariant
                    i <= vals@.len(),
                    io.input@ == old(io).input@,
                    io.pos == old(io).pos,
                    old(io).output@ + concat_texts(vm) =~= io.output@ + concat_texts(
                        vm.skip(i as int),
                    ),
                decreases vals@.len() - i,
            {
                proof {
                    assert(vm.skip(i as int)[0] == vm[i as int]);
                    assert(vm.skip(i as int).drop_first() =~= vm.skip(i as int + 1));
                }
                let text = vals[i].to_text();
                io.output.append(text.as_str());
                i = i + 1;
            }
            proof {
                assert(vm.skip(vals@.len() as int) =~= Seq::<ValueModel>::empty());
                assert(io.output@ =~= old(io).output@ + concat_texts(vm));
                assert(io_model(*io) =~= IoModel {
                    output: io_model(*old(io)).output + concat_texts(vm),
                    ..io_model(*old(io))
                });
            }
            Ok(Value::Void)
        },
        BuiltinOp::Readline => {
            if vals.len() > 1 {
                return Err(EvalError::BuildinArity { expected: 1, got: vals.len() });
            }
            if vals.len() == 1 {
                match &vals[0] {
                    Value::Str(s) => {
                        io.output.append(s.as_str());
                    },
                    other => {
                        let t = other.ty_of();
                        return Err(EvalError::TypeError { got: t, wanted: Ty::Str });
                    },
                }
            }
            let ghost io1 = io_model(*io);
            proof {
                if vals@.len() == 1 {
                    assert(io1 =~= IoModel {
                        output: io_model(*old(io)).output + vm[0]->Str_0,
                        ..io_model(*old(io))
                    });
                } else {
                    assert(io1 =~= io_model(*old(io)));
                }
            }

            // Scan for the newline that ends the line.
            let mut j: usize = io.pos;
            if j > io.input.len() {
                // Nothing left to read.
                proof {
                    assert(find_newline(io1.input, io1.pos) is None);
                }
                return Err(EvalError::InputExhausted);
            }
            while j < io.input.len() && io.input[j] != 10u8
                invariant
                    io.pos <= j <= io.input@.len(),
                    io_model(*io) == io1,
                    find_newline(io1.input, io1.pos) == find_newline(io1.input, j as int),
                decreases io.input@.len() - j,
            {
                j = j + 1;
            }
            if j == io.input.len() {
                proof {
                    assert(find_newline(io1.input, j as int) is None);
                }
                return Err(EvalError::InputExhausted);
            }
            let ghost nl = j as int;
            proof {
                assert(find_newline(io1.input, io1.pos) == Some(nl));
            }

            // The line's bytes, decoded as text.
            let mut bytes: Vec<u8> = Vec::new();
            let mut k: usize = io.pos;
            while k < j
                invariant
                    io.pos <= k <= j,
                    j < io.input@.len(),
                    io_model(*io) == io1,
                    bytes@ =~= io1.input.subrange(io1.pos, k as int),
                decreases j - k,
            {
                bytes.push(io.input[k]);
                proof {
                    assert(bytes@ =~= io1.input.subrange(io1.pos, k as int + 1));
                }
                k = k + 1;
            }
            match decode_utf8_bytes(bytes) {
                Some(s) => {
                    io.pos = j + 1;
                    proof {
                        assert(io_model(*io) =~= IoModel { pos: nl + 1, ..io1 });
                    }
                    Ok(Value::Str(s))
                },
                None => Err(EvalError::InvalidUtf8),
            }
        },
    }
}

/// Walks a compiled instruction tree against the completed functions of
/// `store`, the slot environment `env`, and the console state `io`, with at
/// most `fuel` nested function calls. The environment comes back exactly as
/// it went in.
#[verifier::loop_isolation(false)]
pub fn evaluate(
    store: &FunctionStore,
    e: &StaticExpression,
    env: &mut Vec<Value>,
    io: &mut InterpreterContext,
    fuel: u64,
) -> (r: Result<Value, EvalError>)
    ensures
        final(env)@ == old(env)@,
        ({
            let (sr, sio) = spec_eval(
                store_infos(store.model()),
                sexpr_model(*e),
                env_model(old(env)@),
                io_model(*old(io)),
                fuel as nat,
            );
            io_model(*final(io)) == sio && match r {
                Ok(v) => sr == Ok::<ValueModel, EvalError>(value_model(v)),
                Err(er) => sr == Err::<ValueModel, EvalError>(er),
            }
        }),
    decreases fuel, *e, 1nat,
{
    let ghost funcs = store_infos(store.model());
    let ghost em = sexpr_model(*e);
    match &e.instr {
        Instruction::Const(v) => Ok(v.clone()),
        Instruction::GetLocalVar(slot) => {
            if *slot < env.len() {
                proof {
                    assert(env_model(env@)[*slot as int] == value_model(env@[*slot as int]));
                }
                Ok(env[*slot].clone())
            } else {
                Err(EvalError::UnboundVar { slot: *slot })
            }
        },
        Instruction::NewLocalVar { slot, value, body } => {
            proof {
                assert(decreases_to!(*e => *e.instr->NewLocalVar_value));
            }
            let v = match evaluate(store, value, env, io, fuel) {
                Ok(v) => v,
                Err(er) => {
                    return Err(er);
                },
            };
            if *slot != env.len() {
                return Err(EvalError::SlotMismatch { slot: *slot });
            }
            let ghost env_pre = env@;
            env.push(v);
            proof {
                assert(env_model(env@) =~= env_model(env_pre).push(value_model(env@.last())));
            }
            let b = evaluate(store, body, env, io, fuel);
            let _popped = env.pop();
            proof {
                assert(env@ =~= env_pre);
            }
            b
        },
        Instruction::IfExpr { condition, case_true, case_false } => {
            let c = match evaluate(store, condition, env, io, fuel) {
                Ok(c) => c,
                Err(er) => {
                    return Err(er);
                },
            };
            match c {
                Value::Bool(b) => {
                    if b {
                        evaluate(store, case_true, env, io, fuel)
                    } else {
                        evaluate(store, case_false, env, io, fuel)
                    }
                },
                other => {
                    let t = other.ty_of();
                    Err(EvalError::TypeError { got: t, wanted: Ty::Bool })
                },
            }
        },
        Instruction::FunctionCall { func, args } => {
            proof {
                assert(decreases_to!(*e => e.instr));
                assert(decreases_to!(e.instr => *args));
            }
            let vals = match evaluate_args(store, args, env, io, fuel) {
                Ok(vals) => vals,
                Err(er) => {
                    return Err(er);
                },
            };
            if *func >= store.len() {
                return Err(EvalError::UnknownFunction { index: *func });
            }
            match store.body_at(*func) {
                None => Err(EvalError::FunctionIncomplete { index: *func }),
                Some(body) => {
                    if fuel == 0 {
                        return Err(EvalError::DepthLimit);
                    }
                    // A fresh frame: the arguments, positionally.
                    let mut fresh = vals;
                    evaluate(store, body, &mut fresh, io, fuel - 1)
                },
            }
        },
        Instruction::Custom { code, args } => {
            proof {
                assert(decreases_to!(*e => e.instr));
                assert(decreases_to!(e.instr => *args));
            }
            let vals = match evaluate_args(store, args, env, io, fuel) {
                Ok(vals) => vals,
                Err(er) => {
                    return Err(er);
                },
            };
            apply_op(*code, vals, io)
        },
    }
}

/// Evaluates a node's argument expressions, left to right.
#[verifier::loop_isolation(false)]
fn evaluate_args(
    store: &FunctionStore,
    args: &Vec<StaticExpression>,
    env: &mut Vec<Value>,
    io: &mut InterpreterContext,
    fuel: u64,
) -> (r: Result<Vec<Value>, EvalError>)
    ensures
        final(env)@ == old(env)@,
        ({
            let (sr, sio) = spec_eval_args(
                store_infos(store.model()),
                sexprs_model(args@),
                env_model(old(env)@),
                io_model(*old(io)),
                fuel as nat,
            );
            io_model(*final(io)) == sio && match r {
                Ok(vals) => sr == Ok::<Seq<ValueModel>, EvalError>(env_model(vals@)),
                Err(er) => sr == Err::<Seq<ValueModel>, EvalError>(er),
            }
        }),
    decreases fuel, *args, 0nat,
{
    let ghost funcs = store_infos(store.model());
    let ghost am = sexprs_model(args@);
    let ghost env0 = env_model(env@);
    let ghost io0 = io_model(*io);
    let ghost full = spec_eval_args(funcs, am, env0, io0, fuel as nat);
    proof {
        crate::instr::lemma_sexprs_model_index(args@);
    }
    let mut vals: Vec<Value> = Vec::new();
    let mut i: usize = 0;
    proof {
        assert(am.skip(0) =~= am);
        assert(env_model(vals@) =~= Seq::<ValueModel>::empty());
    }
    while i < args.len()
        invariant
            i <= args@.len(),
            env@ == old(env)@,
            env_model(env@) == env0,
            am == sexprs_model(args@),
            am.len() == args@.len(),
            forall|j: int| 0 <= j < args@.len() ==> am[j] == sexpr_model(args@[j]),
            ({
                let (rres, rio) = spec_eval_args(
                    funcs,
                    am.skip(i as int),
                    env0,
                    io_model(*io),
                    fuel as nat,
                );
                match rres {
                    Ok(rest) => full == (
                        Ok::<Seq<ValueModel>, EvalError>(env_model(vals@) + rest),
                        rio,
                    ),
                    Err(er) => full == (Err::<Seq<ValueModel>, EvalError>(er), rio),
                }
            }),
        decreases args@.len() - i,
    {
        proof {
            assert(am.skip(i as int)[0] == am[i as int]);
            assert(am.skip(i as int).drop_first() =~= am.skip(i as int + 1));
            assert(decreases_to!(*args => args@));
            assert(decreases_to!(args@ => args@[i as int]));
        }
        let v = match evaluate(store, &args[i], env, io, fuel) {
            Ok(v) => v,
            Err(er) => {
                return Err(er);
            },
        };
        let ghost vpre = vals@;
        let ghost vmv = value_model(v);
        vals.push(v);
        proof {
            assert(env_model(vals@) =~= env_model(vpre).push(vmv));
            assert forall|rl: Seq<ValueModel>|
                true implies #[trigger] (env_model(vpre) + (seq![vmv] + rl)) =~= env_model(vals@)
                + rl by {
                assert(env_model(vpre) + (seq![vmv] + rl) =~= env_model(vpre).push(vmv) + rl);
            }
        }
        i = i + 1;
    }
    proof {
        assert(am.skip(args@.len() as int) =~= Seq::<SExprModel>::empty());
        assert(env_model(vals@) + Seq::<ValueModel>::empty() =~= env_model(vals@));
    }
    Ok(vals)
}

/// Evaluates each argument expression and concatenates the textual forms of
/// the values, as `print` writes them.
#[verifier::loop_isolation(false)]
pub fn string_concat(
    store: &FunctionStore,
    args: &Vec<StaticExpression>,
    env: &mut Vec<Value>,
    io: &mut InterpreterContext,
    fuel: u64,
) -> (r: Result<String, EvalError>)
    ensures
        final(env)@ == old(env)@,
        ({
            let (sr, sio) = spec_string_concat(
                store_infos(store.model()),
                sexprs_model(args@),
                env_model(old(env)@),
                io_model(*old(io)),
                fuel as nat,
            );
            io_model(*final(io)) == sio && match r {
                Ok(s) => sr == Ok::<Seq<char>, EvalError>(s@),
                Err(er) => sr == Err::<Seq<char>, EvalError>(er),
            }
        }),
{
    let vals = match evaluate_args(store, args, env, io, fuel) {
        Ok(vals) => vals,
        Err(er) => {
            return Err(er);
        },
    };
    let ghost vm = env_model(vals@);
    let mut out = String::new();
    let mut i: usize = 0;
    proof {
        assert(vm.skip(0) =~= vm);
    }
    while i < vals.len()
        invariant
            i <= vals@.len(),
            vm == env_model(vals@),
            concat_texts(vm) =~= out@ + concat_texts(vm.skip(i as int)),
        decreases vals@.len() - i,
    {
        proof {
            assert(vm.skip(i as int)[0] == vm[i as int]);
            assert(vm.skip(i as int).drop_first() =~= vm.skip(i as int + 1));
        }
        let text = vals[i].to_text();
        out.append(text.as_str());
        i = i + 1;
    }
    proof {
        assert(vm.skip(vals@.len() as int) =~= Seq::<ValueModel>::empty());
        assert(out@ =~= concat_texts(vm));
    }
    Ok(out)
}

/// The evaluation phase's state: the finished function store.
#[derive(Debug)]
pub struct EvaluationContext {
    pub functions: FunctionStore,
}

impl EvaluationContext {
    /// Walks a compiled instruction tree; see `evaluate`.
    pub fn evaluate(
        &self,
        e: &StaticExpression,
        env: &mut Vec<Value>,
        io: &mut InterpreterContext,
        fuel: u64,
    ) -> (r: Result<Value, EvalError>)
        ensures
            final(env)@ == old(env)@,
            ({
                let (sr, sio) = spec_eval(
                    store_infos(self.functions.model()),
                    sexpr_model(*e),
                    env_model(old(env)@),
                    io_model(*old(io)),
                    fuel as nat,
                );
                io_model(*final(io)) == sio && match r {
                    Ok(v) => sr == Ok::<ValueModel, EvalError>(value_model(v)),
                    Err(er) => sr == Err::<ValueModel, EvalError>(er),
                }
            }),
    {
        evaluate(&self.functions, e, env, io, fuel)
    }
}

impl From<crate::compile::CompilerContext> for EvaluationContext {
    /// Compilation is over: only the compiled functions carry over to
    /// evaluation.
    fn from(cc: crate::compile::CompilerContext) -> (r: EvaluationContext)
        ensures
            r == (EvaluationContext { functions: cc.store }),
    {
        EvaluationContext { functions: cc.store }
    }
}

impl vstd::std_specs::convert::FromSpecImpl<crate::compile::CompilerContext> for EvaluationContext {
    open spec fn obeys_from_spec() -> bool {
        true
    }

    open spec fn from_spec(cc: crate::compile::CompilerContext) -> EvaluationContext {
        EvaluationContext { functions: cc.store }
    }
}

} // verus!
