//! The typed instruction tree produced by compilation.
//!
//! Every node carries its statically determined result type. A tree is owned
//! by its function-store entry; children are owned by their parent node.

use crate::types::Ty;
use crate::value::{value_model, Value, ValueModel};
use vstd::prelude::*;

verus! {

/// The code of a primitive operation recognized by naming convention.
#[derive(Clone, Copy, Debug, PartialEq, Eq, Structural)]
pub enum BuiltinOp {
    StrConcat,
    Identity,
    Print,
    Readline,
}

/// A typed instruction-tree node.
#[derive(Debug)]
pub struct StaticExpression {
    pub instr: Instruction,
    pub ty: Ty,
}

/// One instruction of the compiled intermediate form.
#[derive(Debug)]
pub enum Instruction {
    /// A literal value.
    Const(Value),
    /// Read of the local slot.
    GetLocalVar(usize),
    /// A `let` binding: evaluate `value`, bind it at `slot`, evaluate `body`.
    NewLocalVar { slot: usize, value: Box<StaticExpression>, body: Box<StaticExpression> },
    /// A conditional; exactly one branch is evaluated.
    IfExpr {
        condition: Box<StaticExpression>,
        case_true: Box<StaticExpression>,
        case_false: Box<StaticExpression>,
    },
    /// A call of the compiled function with the given store index.
    FunctionCall { func: usize, args: Vec<StaticExpression> },
    /// A primitive operation applied to argument expressions.
    Custom { code: BuiltinOp, args: Vec<StaticExpression> },
}

/// Mathematical mirror of `StaticExpression`.
#[verifier::ext_equal]
pub struct SExprModel {
    pub instr: InstrModel,
    pub ty: Ty,
}

/// Mathematical mirror of `Instruction`.
#[verifier::ext_equal]
pub enum InstrModel {
    Const(ValueModel),
    GetLocal(int),
    NewLocal { slot: int, value: Box<SExprModel>, body: Box<SExprModel> },
    If { cond: Box<SExprModel>, then: Box<SExprModel>, els: Box<SExprModel> },
    Call { func: int, args: Seq<SExprModel> },
    Custom { code: BuiltinOp, args: Seq<SExprModel> },
}

pub open spec fn sexpr_model(e: StaticExpression) -> SExprModel
    decreases e,
{
    SExprModel { instr: instr_model(e.instr), ty: e.ty }
}

pub open spec fn instr_model(i: Instruction) -> InstrModel
    decreases i,
{
    match i {
        Instruction::Const(v) => InstrModel::Const(value_model(v)),
        Instruction::GetLocalVar(s) => InstrModel::GetLocal(s as int),
        Instruction::NewLocalVar { slot, value, body } => InstrModel::NewLocal {
            slot: slot as int,
            value: Box::new(sexpr_model(*value)),
            body: Box::new(sexpr_model(*body)),
        },
        Instruction::IfExpr { condition, case_true, case_false } => InstrModel::If {
            cond: Box::new(sexpr_model(*condition)),
            then: Box::new(sexpr_model(*case_true)),
            els: Box::new(sexpr_model(*case_false)),
        },
        Instruction::FunctionCall { func, args } => InstrModel::Call {
            func: func as int,
            args: sexprs_model(args@),
        },
        Instruction::Custom { code, args } => InstrModel::Custom {
            code,
            args: sexprs_model(args@),
        },
    }
}

pub open spec fn sexprs_model(s: Seq<StaticExpression>) -> Seq<SExprModel>
    decreases s,
{
    if s.len() == 0 {
        Seq::empty()
    } else {
        seq![sexpr_model(s[0])] + sexprs_model(s.drop_first())
    }
}

/// The mirror of a list of nodes is the list of their mirrors, in order.
pub proof fn lemma_sexprs_model_index(s: Seq<StaticExpression>)
    ensures
        sexprs_model(s).len() == s.len(),
        forall|i: int| 0 <= i < s.len() ==> sexprs_model(s)[i] == sexpr_model(s[i]),
    decreases s,
{
    if s.len() > 0 {
        lemma_sexprs_model_index(s.drop_first());
        assert forall|i: int| 0 <= i < s.len() implies sexprs_model(s)[i] == sexpr_model(s[i]) by {
            if i > 0 {
                assert(s.drop_first()[i - 1] == s[i]);
            }
        }
    }
}

} // verus!
