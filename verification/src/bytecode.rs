//! Lowering expression trees to bytecode.
//!
//! Each tree is emitted post-order: operand code first, then the
//! operator's opcode; each literal is appended to the constant pool (no
//! deduplication) and referenced by an `OpConstant` with its index.
//! After every top-level statement an `OpPop` is emitted, so a program's
//! stack effect is zero and the machine's "last popped" slot ends up
//! holding the final statement's value.
use vstd::prelude::*;

use crate::ast::{Node, Operator};
use crate::errors::CompileError;
use crate::opcode::{spec_make_op, OpCode};
use crate::primitive::PrimitiveType;

verus! {

/// The capacity of a two-byte constant-pool index: a program may hold
/// at most this many literals.
pub const MAX_CONSTANTS: usize = 65536;

/// A compiled program: a flat instruction byte stream and the ordered
/// constant pool its `OpConstant` instructions index into.
#[derive(Debug, PartialEq)]
pub struct Bytecode {
    pub instructions: Vec<u8>,
    pub constants: Vec<PrimitiveType>,
}

impl Bytecode {
    /// An empty program.
    pub fn new() -> (r: Bytecode)
        ensures
            r.instructions@ == Seq::<u8>::empty(),
            r.constants@ == Seq::<PrimitiveType>::empty(),
    {
        Self { instructions: Vec::new(), constants: Vec::new() }
    }
}

/// The three bytes of an `OpConstant` instruction for pool index `idx`,
/// written so that it is total for every index; the two operand bytes
/// are the big-endian index as long as `idx` fits in sixteen bits.
pub open spec fn spec_const_instr(idx: int) -> Seq<u8> {
    seq![0x01u8, (((idx / 256) % 256) as u8), ((idx % 256) as u8)]
}

/// How many literal leaves a tree holds; each costs one constant-pool
/// entry when compiled.
pub open spec fn spec_count_literals(n: Node) -> int
    decreases n,
{
    match n {
        Node::Int(_) => 1,
        Node::Float(_) => 1,
        Node::UnaryExpr { op, child } => spec_count_literals(*child),
        Node::BinaryExpr { op, lhs, rhs } => spec_count_literals(*lhs) + spec_count_literals(*rhs),
    }
}

/// The literal count of the statements of `ns` from index `i` on.
pub open spec fn spec_count_from(ns: Seq<Node>, i: int) -> int
    decreases ns.len() - i,
{
    if i < 0 || i >= ns.len() {
        0
    } else {
        spec_count_literals(ns[i]) + spec_count_from(ns, i + 1)
    }
}

/// The code emitted for one tree given the constant pool built so far,
/// and the pool after it: post-order operands, then the operator byte;
/// a literal emits an `OpConstant` of the next free pool index and
/// extends the pool.
pub open spec fn spec_compile_node(n: Node, pool: Seq<PrimitiveType>) -> (Seq<u8>, Seq<
    PrimitiveType,
>)
    decreases n,
{
    match n {
        Node::Int(v) => (spec_const_instr(pool.len() as int), pool.push(PrimitiveType::Int(v))),
        Node::Float(b) => (spec_const_instr(pool.len() as int), pool.push(PrimitiveType::Float(b))),
        Node::UnaryExpr { op, child } => {
            let (code, pool1) = spec_compile_node(*child, pool);
            let tail = if op == Operator::Minus {
                spec_make_op(OpCode::OpMinus)
            } else {
                spec_make_op(OpCode::OpPlus)
            };
            (code + tail, pool1)
        },
        Node::BinaryExpr { op, lhs, rhs } => {
            let (left_code, pool1) = spec_compile_node(*lhs, pool);
            let (right_code, pool2) = spec_compile_node(*rhs, pool1);
            let tail = match op {
                Operator::Plus => spec_make_op(OpCode::OpAdd),
                Operator::Minus => spec_make_op(OpCode::OpSub),
                Operator::Multiply => spec_make_op(OpCode::OpMul),
                Operator::Divide => spec_make_op(OpCode::OpDiv),
            };
            (left_code + right_code + tail, pool2)
        },
    }
}

/// The code and pool for the statements of `ns` from index `i` on,
/// starting from the pool built so far: each statement's code followed
/// by an `OpPop`.
pub open spec fn spec_compile_stmts(ns: Seq<Node>, i: int, pool: Seq<PrimitiveType>) -> (Seq<u8>,
    Seq<PrimitiveType>)
    decreases ns.len() - i,
{
    if i < 0 || i >= ns.len() {
        (Seq::<u8>::empty(), pool)
    } else {
        let (code, pool1) = spec_compile_node(ns[i], pool);
        let (rest, pool2) = spec_compile_stmts(ns, i + 1, pool1);
        (code + spec_make_op(OpCode::OpPop) + rest, pool2)
    }
}

/// The whole program's code and pool, from an empty pool.
pub open spec fn spec_compile_program(ns: Seq<Node>) -> (Seq<u8>, Seq<PrimitiveType>) {
    spec_compile_stmts(ns, 0, Seq::<PrimitiveType>::empty())
}

/// Every tree holds at least one literal.
pub proof fn lemma_count_literals_pos(n: Node)
    ensures
        spec_count_literals(n) >= 1,
    decreases n,
{
    match n {
        Node::Int(_) => {},
        Node::Float(_) => {},
        Node::UnaryExpr { op, child } => lemma_count_literals_pos(*child),
        Node::BinaryExpr { op, lhs, rhs } => {
            lemma_count_literals_pos(*lhs);
            lemma_count_literals_pos(*rhs);
        },
    }
}

/// A statement suffix holds a nonnegative literal count.
pub proof fn lemma_count_from_nonneg(ns: Seq<Node>, i: int)
    ensures
        spec_count_from(ns, i) >= 0,
    decreases ns.len() - i,
{
    if 0 <= i < ns.len() {
        lemma_count_literals_pos(ns[i]);
        lemma_count_from_nonneg(ns, i + 1);
    }
}

/// Compiling a tree appends to the pool: the new pool keeps the old one
/// as a prefix and grows by exactly the tree's literal count.
pub proof fn lemma_compile_node_pool(n: Node, pool: Seq<PrimitiveType>)
    ensures
        spec_compile_node(n, pool).1.len() == pool.len() + spec_count_literals(n),
        spec_compile_node(n, pool).1.take(pool.len() as int) == pool,
    decreases n,
{
    match n {
        Node::Int(v) => {
            assert(pool.push(PrimitiveType::Int(v)).take(pool.len() as int) =~= pool);
        },
        Node::Float(b) => {
            assert(pool.push(PrimitiveType::Float(b)).take(pool.len() as int) =~= pool);
        },
        Node::UnaryExpr { op, child } => lemma_compile_node_pool(*child, pool),
        Node::BinaryExpr { op, lhs, rhs } => {
            lemma_compile_node_pool(*lhs, pool);
            let pool1 = spec_compile_node(*lhs, pool).1;
            lemma_compile_node_pool(*rhs, pool1);
            let pool2 = spec_compile_node(*rhs, pool1).1;
            lemma_count_literals_pos(*lhs);
            lemma_count_literals_pos(*rhs);
            let n0 = pool.len() as int;
            let n1 = pool1.len() as int;
            assert forall|j: int| 0 <= j < n0 implies pool2.take(n0)[j] == pool[j] by {
                assert(pool2.take(n1)[j] == pool1[j]);
                assert(pool1.take(n0)[j] == pool[j]);
            }
            assert(pool2.take(n0) =~= pool);
        },
    }
}

/// The incremental compiler: it owns the bytecode being built and walks
/// one tree at a time, appending instructions and constants.
pub struct Interpreter {
    pub bytecode: Bytecode,
}

impl Interpreter {
    /// A compiler over an empty program.
    pub fn new() -> (r: Self)
        ensures
            r.bytecode.instructions@ == Seq::<u8>::empty(),
            r.bytecode.constants@ == Seq::<PrimitiveType>::empty(),
    {
        Self { bytecode: Bytecode::new() }
    }

    /// Appends one instruction's encoding to the stream.
    pub fn add_instruction(&mut self, opcode: OpCode)
        ensures
            final(self).bytecode.instructions@ == old(self).bytecode.instructions@ + spec_make_op(
                opcode,
            ),
            final(self).bytecode.constants@ == old(self).bytecode.constants@,
    {
        let mut code = crate::opcode::make_op(opcode);
        self.bytecode.instructions.append(&mut code);
    }

    /// Appends one value to the constant pool and returns its index.
    /// The pool may not already be full: an index must fit in two bytes.
    pub fn add_constant(&mut self, value: PrimitiveType) -> (idx: u16)
        requires
            old(self).bytecode.constants@.len() < MAX_CONSTANTS,
        ensures
            final(self).bytecode.constants@ == old(self).bytecode.constants@.push(value),
            final(self).bytecode.instructions@ == old(self).bytecode.instructions@,
            idx == old(self).bytecode.constants@.len(),
    {
        self.bytecode.constants.push(value);
        (self.bytecode.constants.len() - 1) as u16
    }

    /// Emits the code of one tree, post-order, as `spec_compile_node`
    /// says. Fails exactly when the tree's literals would overflow the
    /// two-byte constant-pool index space; the half-built state is then
    /// discarded by the caller.
    pub fn interpret_node(&mut self, expr: &Node) -> (r: Result<(), CompileError>)
        requires
            expr.wf(),
        ensures
            r is Ok <==> old(self).bytecode.constants@.len() + spec_count_literals(*expr)
                <= MAX_CONSTANTS,
            r is Ok ==> final(self).bytecode.instructions@ == old(self).bytecode.instructions@
                + spec_compile_node(*expr, old(self).bytecode.constants@).0,
            r is Ok ==> final(self).bytecode.constants@ == spec_compile_node(
                *expr,
                old(self).bytecode.constants@,
            ).1,
            r is Err ==> r == Err::<(), CompileError>(CompileError::TooManyConstants),
        decreases *expr,
    {
        match expr {
            Node::Int(v) => {
                if self.bytecode.constants.len() >= MAX_CONSTANTS {
                    return Err(CompileError::TooManyConstants);
                }
                let idx = self.add_constant(PrimitiveType::Int(*v));
                self.add_instruction(OpCode::OpConstant(idx));
                proof {
                    assert(spec_make_op(OpCode::OpConstant(idx)) =~= spec_const_instr(
                        old(self).bytecode.constants@.len() as int,
                    ));
                }
                Ok(())
            },
            Node::Float(b) => {
                if self.bytecode.constants.len() >= MAX_CONSTANTS {
                    return Err(CompileError::TooManyConstants);
                }
                let idx = self.add_constant(PrimitiveType::Float(*b));
                self.add_instruction(OpCode::OpConstant(idx));
                proof {
                    assert(spec_make_op(OpCode::OpConstant(idx)) =~= spec_const_instr(
                        old(self).bytecode.constants@.len() as int,
                    ));
                }
                Ok(())
            },
            Node::UnaryExpr { op, child } => {
                self.interpret_node(child)?;
                let tail_op = if *op == Operator::Minus {
                    OpCode::OpMinus
                } else {
                    OpCode::OpPlus
                };
                self.add_instruction(tail_op);
                proof {
                    let (code, pool1) = spec_compile_node(**child, old(self).bytecode.constants@);
                    assert(old(self).bytecode.instructions@ + (code + spec_make_op(tail_op))
                        =~= old(self).bytecode.instructions@ + code + spec_make_op(tail_op));
                }
                Ok(())
            },
            Node::BinaryExpr { op, lhs, rhs } => {
                proof {
                    lemma_count_literals_pos(**lhs);
                    lemma_count_literals_pos(**rhs);
                    lemma_compile_node_pool(**lhs, old(self).bytecode.constants@);
                }
                self.interpret_node(lhs)?;
                self.interpret_node(rhs)?;
                let opcode = match *op {
                    Operator::Plus => OpCode::OpAdd,
                    Operator::Minus => OpCode::OpSub,
                    Operator::Multiply => OpCode::OpMul,
                    Operator::Divide => OpCode::OpDiv,
                };
                self.add_instruction(opcode);
                proof {
                    let pool0 = old(self).bytecode.constants@;
                    let (left_code, pool1) = spec_compile_node(**lhs, pool0);
                    let (right_code, pool2) = spec_compile_node(**rhs, pool1);
                    let tail = spec_make_op(opcode);
                    assert(old(self).bytecode.instructions@ + (left_code + right_code + tail)
                        =~= old(self).bytecode.instructions@ + left_code + right_code + tail);
                }
                Ok(())
            },
        }
    }

    /// Compiles a whole program: each statement's code followed by an
    /// `OpPop`, as `spec_compile_program` says. Fails exactly when the
    /// program holds more literals than the pool can index.
    pub fn from_ast(ast: Vec<Node>) -> (r: Result<Bytecode, CompileError>)
        requires
            forall|i: int| 0 <= i < ast@.len() ==> (#[trigger] ast@[i]).wf(),
        ensures
            r is Ok <==> spec_count_from(ast@, 0) <= MAX_CONSTANTS,
            r matches Ok(bc) ==> bc.instructions@ == spec_compile_program(ast@).0
                && bc.constants@ == spec_compile_program(ast@).1,
            r is Err ==> r == Err::<Bytecode, CompileError>(CompileError::TooManyConstants),
    {
        let mut interpreter = Interpreter::new();
        let ghost full = spec_compile_program(ast@);
        proof {
            assert(Seq::<u8>::empty() + full.0 =~= full.0);
        }
        let mut i: usize = 0;
        while i < ast.len()
            invariant
                i <= ast@.len(),
                forall|k: int| 0 <= k < ast@.len() ==> (#[trigger] ast@[k]).wf(),
                full == spec_compile_program(ast@),
                spec_count_from(ast@, 0) == interpreter.bytecode.constants@.len()
                    + spec_count_from(ast@, i as int),
                interpreter.bytecode.constants@.len() <= MAX_CONSTANTS,
                ({
                    let (rest_code, rest_pool) = spec_compile_stmts(
                        ast@,
                        i as int,
                        interpreter.bytecode.constants@,
                    );
                    full.0 == interpreter.bytecode.instructions@ + rest_code && full.1 == rest_pool
                }),
            decreases ast@.len() - i,
        {
            let ghost pool0 = interpreter.bytecode.constants@;
            let ghost built0 = interpreter.bytecode.instructions@;
            match interpreter.interpret_node(&ast[i]) {
                Ok(()) => {},
                Err(e) => {
                    proof {
                        lemma_count_from_nonneg(ast@, i as int + 1);
                    }
                    return Err(e);
                },
            }
            interpreter.add_instruction(OpCode::OpPop);
            proof {
                lemma_compile_node_pool(ast@[i as int], pool0);
                let (node_code, pool1) = spec_compile_node(ast@[i as int], pool0);
                let (rest_code, rest_pool) = spec_compile_stmts(ast@, i as int + 1, pool1);
                assert(built0 + (node_code + spec_make_op(OpCode::OpPop) + rest_code) =~= (built0
                    + node_code + spec_make_op(OpCode::OpPop)) + rest_code);
            }
            i = i + 1;
        }
        proof {
            lemma_count_from_nonneg(ast@, ast@.len() as int);
            assert(interpreter.bytecode.instructions@ + Seq::<u8>::empty()
                =~= interpreter.bytecode.instructions@);
        }
        Ok(interpreter.bytecode)
    }
}

} // verus!
