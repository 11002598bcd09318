//! The tree-walking evaluator: reduces an expression tree directly to a
//! value, without compiling. An interface peer of the virtual machine;
//! the two are proved to agree.
use vstd::prelude::*;

use crate::ast::{Node, Operator};
use crate::errors::{EvalError, RuntimeError};
use crate::parser::spec_parse;
use crate::primitive::{spec_binop, spec_neg, PrimitiveType};
use vstd::string::StringSliceAdditionalSpecFns;

verus! {

/// The value of one tree: literals are their values, a unary node
/// passes its child through (`Plus`) or negates it (`Minus`), a binary
/// node evaluates its left operand, then its right one, then applies
/// the arithmetic table. The only failure is integer division by zero,
/// and the leftmost failure wins.
pub open spec fn spec_eval_node(n: Node) -> Result<PrimitiveType, RuntimeError>
    decreases n,
{
    match n {
        Node::Int(v) => Ok(PrimitiveType::Int(v)),
        Node::Float(b) => Ok(PrimitiveType::Float(b)),
        Node::UnaryExpr { op, child } => match spec_eval_node(*child) {
            Ok(v) => Ok(
                if op == Operator::Minus {
                    spec_neg(v)
                } else {
                    v
                },
            ),
            Err(e) => Err(e),
        },
        Node::BinaryExpr { op, lhs, rhs } => match spec_eval_node(*lhs) {
            Ok(a) => match spec_eval_node(*rhs) {
                Ok(b) => spec_binop(op, a, b),
                Err(e) => Err(e),
            },
            Err(e) => Err(e),
        },
    }
}

/// The value of the statements of `ns` from index `i` on, where `acc`
/// is the value of the statements already evaluated: each statement's
/// value shadows the previous one, so the last statement's value is the
/// program's; an error aborts the run.
pub open spec fn spec_eval_stmts(ns: Seq<Node>, i: int, acc: PrimitiveType) -> Result<
    PrimitiveType,
    RuntimeError,
>
    decreases ns.len() - i,
{
    if i < 0 || i >= ns.len() {
        Ok(acc)
    } else {
        match spec_eval_node(ns[i]) {
            Ok(v) => spec_eval_stmts(ns, i + 1, v),
            Err(e) => Err(e),
        }
    }
}

/// The value of a whole program; an empty program is `Int(0)`.
pub open spec fn spec_eval_program(ns: Seq<Node>) -> Result<PrimitiveType, RuntimeError> {
    spec_eval_stmts(ns, 0, PrimitiveType::Int(0))
}

/// The tree-walking engine over source text: parse, then evaluate.
pub open spec fn spec_interpret_source(bytes: Seq<u8>) -> Result<PrimitiveType, EvalError> {
    match spec_parse(bytes) {
        Ok(ast) => match spec_eval_program(ast) {
            Ok(v) => Ok(v),
            Err(e) => Err(EvalError::Runtime(e)),
        },
        Err(e) => Err(EvalError::Parse(e)),
    }
}

/// The evaluator itself; it carries no state.
pub struct Eval;

impl Eval {
    /// A fresh evaluator.
    pub fn new() -> (r: Self)
        ensures
            true,
    {
        Self
    }

    /// Reduces one tree to its value, exactly as `spec_eval_node` says.
    pub fn eval(&self, expr: &Node) -> (r: Result<PrimitiveType, RuntimeError>)
        requires
            expr.wf(),
        ensures
            r == spec_eval_node(*expr),
        decreases *expr,
    {
        match expr {
            Node::Int(v) => Ok(PrimitiveType::Int(*v)),
            Node::Float(b) => Ok(PrimitiveType::Float(*b)),
            Node::UnaryExpr { op, child } => {
                let value = self.eval(child)?;
                if *op == Operator::Minus {
                    Ok(value.neg())
                } else {
                    Ok(value)
                }
            },
            Node::BinaryExpr { op, lhs, rhs } => {
                let left = self.eval(lhs)?;
                let right = self.eval(rhs)?;
                left.apply_binary(*op, right)
            },
        }
    }
}

/// The tree-walking execution engine.
pub struct Interpreter;

impl Interpreter {
    /// Evaluates a program statement by statement; the last statement's
    /// value is the result, `Int(0)` for an empty program, exactly as
    /// `spec_eval_program` says.
    pub fn from_ast(ast: Vec<Node>) -> (r: Result<PrimitiveType, RuntimeError>)
        requires
            forall|i: int| 0 <= i < ast@.len() ==> (#[trigger] ast@[i]).wf(),
        ensures
            r == spec_eval_program(ast@),
    {
        let eval = Eval::new();
        let mut out = PrimitiveType::Int(0);
        let mut i: usize = 0;
        while i < ast.len()
            invariant
                i <= ast@.len(),
                forall|k: int| 0 <= k < ast@.len() ==> (#[trigger] ast@[k]).wf(),
                spec_eval_program(ast@) == spec_eval_stmts(ast@, i as int, out),
            decreases ast@.len() - i,
        {
            match eval.eval(&ast[i]) {
                Ok(v) => out = v,
                Err(e) => return Err(e),
            }
            i = i + 1;
        }
        Ok(out)
    }

    /// The whole engine on source text, as `spec_interpret_source` says
    /// over the text's UTF-8 bytes.
    pub fn from_source(source: &str) -> (r: Result<PrimitiveType, EvalError>)
        ensures
            r == spec_interpret_source(source.spec_bytes()),
    {
        let ast = match crate::parser::parse(source) {
            Ok(ast) => ast,
            Err(e) => return Err(EvalError::Parse(e)),
        };
        match Self::from_ast(ast) {
            Ok(v) => Ok(v),
            Err(e) => Err(EvalError::Runtime(e)),
        }
    }
}

} // verus!
