//! Cross-engine equivalence: executing a tree's compiled bytecode on
//! the virtual machine yields exactly what the tree-walking evaluator
//! yields. The proof walks the compiler's post-order emission: the code
//! of every subtree, run from any machine state with room for it,
//! pushes precisely the subtree's value (or stops with precisely the
//! evaluator's error), and each statement's trailing `OpPop` moves that
//! value into the machine's observable slot.
use vstd::prelude::*;

use crate::ast::{Node, Operator};
use crate::bytecode::{
    lemma_compile_node_pool, lemma_count_from_nonneg, lemma_count_literals_pos, spec_compile_node,
    spec_compile_program, spec_compile_stmts, spec_count_from, spec_count_literals, MAX_CONSTANTS,
};
use crate::errors::{EvalError, RuntimeError};
use crate::interpreter::{spec_eval_node, spec_eval_program, spec_eval_stmts};
use crate::primitive::PrimitiveType;
use crate::vm::{spec_execute, spec_run, spec_vm_program, STACK_SIZE};
use vstd::arithmetic::div_mod::{lemma_fundamental_div_mod, lemma_div_is_ordered};

verus! {

/// How many operand-stack slots evaluating a tree's code needs beyond
/// the stack it starts from: a literal pushes one; a unary node needs
/// what its child needs; a binary node needs what its left operand
/// needs, and one more slot than its right operand needs while the left
/// value waits below.
pub open spec fn spec_stack_need(n: Node) -> int
    decreases n,
{
    match n {
        Node::Int(_) => 1,
        Node::Float(_) => 1,
        Node::UnaryExpr { op, child } => spec_stack_need(*child),
        Node::BinaryExpr { op, lhs, rhs } => {
            let l = spec_stack_need(*lhs);
            let r = 1 + spec_stack_need(*rhs);
            if l >= r {
                l
            } else {
                r
            }
        },
    }
}

/// Every tree needs at least one stack slot.
pub proof fn lemma_stack_need_pos(n: Node)
    ensures
        spec_stack_need(n) >= 1,
    decreases n,
{
    match n {
        Node::Int(_) => {},
        Node::Float(_) => {},
        Node::UnaryExpr { op, child } => lemma_stack_need_pos(*child),
        Node::BinaryExpr { op, lhs, rhs } => {
            lemma_stack_need_pos(*lhs);
            lemma_stack_need_pos(*rhs);
        },
    }
}

/// The machine's "most recently popped" slot after a tree's code ran to
/// completion: a literal pops nothing, a unary node last popped its
/// child's value, a binary node last popped its left operand's value.
pub open spec fn spec_last_after(n: Node, prev: PrimitiveType) -> PrimitiveType {
    match n {
        Node::Int(_) => prev,
        Node::Float(_) => prev,
        Node::UnaryExpr { op, child } => match spec_eval_node(*child) {
            Ok(v) => v,
            Err(_) => prev,
        },
        Node::BinaryExpr { op, lhs, rhs } => match spec_eval_node(*lhs) {
            Ok(v) => v,
            Err(_) => prev,
        },
    }
}

/// Splits a subrange equality over a concatenation into the equalities
/// of its two parts.
proof fn lemma_concat_parts(code: Seq<u8>, ip: int, c1: Seq<u8>, c2: Seq<u8>)
    requires
        0 <= ip,
        ip + c1.len() + c2.len() <= code.len(),
        code.subrange(ip, ip + c1.len() + c2.len()) == c1 + c2,
    ensures
        code.subrange(ip, ip + c1.len() as int) == c1,
        code.subrange(ip + c1.len() as int, ip + c1.len() + c2.len()) == c2,
{
    let whole = code.subrange(ip, ip + c1.len() + c2.len());
    assert forall|m: int| 0 <= m < c1.len() implies code.subrange(ip, ip + c1.len() as int)[m]
        == c1[m] by {
        assert(whole[m] == (c1 + c2)[m]);
    }
    assert(code.subrange(ip, ip + c1.len() as int) =~= c1);
    assert forall|m: int| 0 <= m < c2.len() implies code.subrange(
        ip + c1.len() as int,
        ip + c1.len() + c2.len(),
    )[m] == c2[m] by {
        assert(whole[c1.len() + m] == (c1 + c2)[c1.len() + m]);
    }
    assert(code.subrange(ip + c1.len() as int, ip + c1.len() + c2.len()) =~= c2);
}

/// Taking a shorter prefix of a longer prefix is taking it directly.
proof fn lemma_take_take(s: Seq<PrimitiveType>, a: int, b: int)
    requires
        0 <= a <= b <= s.len(),
    ensures
        s.take(b).take(a) == s.take(a),
{
    assert(s.take(b).take(a) =~= s.take(a));
}

/// The two operand bytes of an `OpConstant` decode back to the index
/// they were built from, for any index a two-byte pool can hold.
proof fn lemma_const_index_roundtrip(idx: int)
    requires
        0 <= idx < MAX_CONSTANTS,
    ensures
        ((idx / 256) % 256) * 256 + (idx % 256) == idx,
        0 <= (idx / 256) % 256 <= 255,
        0 <= idx % 256 <= 255,
{
    lemma_fundamental_div_mod(idx, 256);
    lemma_div_is_ordered(idx, 65535, 256);
    assert(0 <= idx / 256 <= 255);
    assert((idx / 256) % 256 == idx / 256);
}

/// Running the code that a tree compiles to, embedded in `code` at
/// `ip`, from any stack with room for the tree's need, is the same as
/// arriving past that code with the tree's value pushed — or stops with
/// exactly the evaluator's error.
proof fn lemma_compiled_node_runs(
    code: Seq<u8>,
    consts: Seq<PrimitiveType>,
    ip: int,
    stack: Seq<PrimitiveType>,
    popped: PrimitiveType,
    n: Node,
    pool: Seq<PrimitiveType>,
)
    requires
        n.wf(),
        0 <= ip,
        ip + spec_compile_node(n, pool).0.len() <= code.len(),
        code.subrange(ip, ip + spec_compile_node(n, pool).0.len() as int) == spec_compile_node(
            n,
            pool,
        ).0,
        pool.len() + spec_count_literals(n) <= MAX_CONSTANTS,
        spec_compile_node(n, pool).1.len() <= consts.len(),
        spec_compile_node(n, pool).1 == consts.take(spec_compile_node(n, pool).1.len() as int),
        stack.len() + spec_stack_need(n) <= STACK_SIZE,
    ensures
        match spec_eval_node(n) {
            Ok(v) => spec_run(code, consts, ip, stack, popped) == spec_run(
                code,
                consts,
                ip + spec_compile_node(n, pool).0.len(),
                stack.push(v),
                spec_last_after(n, popped),
            ),
            Err(e) => spec_run(code, consts, ip, stack, popped) == Err::<
                (Seq<PrimitiveType>, PrimitiveType),
                RuntimeError,
            >(e),
        },
    decreases n,
{
    let c = spec_compile_node(n, pool).0;
    let pool_after = spec_compile_node(n, pool).1;
    match n {
        Node::Int(v) => {
            lemma_const_index_roundtrip(pool.len() as int);
            assert(code[ip] == c[0]) by {
                assert(code.subrange(ip, ip + c.len() as int)[0] == code[ip]);
            }
            assert(code[ip + 1] == c[1]) by {
                assert(code.subrange(ip, ip + c.len() as int)[1] == code[ip + 1]);
            }
            assert(code[ip + 2] == c[2]) by {
                assert(code.subrange(ip, ip + c.len() as int)[2] == code[ip + 2]);
            }
            assert(code[ip + 1] * 256 + code[ip + 2] == pool.len());
            assert(consts[pool.len() as int] == PrimitiveType::Int(v)) by {
                assert(consts.take(pool_after.len() as int)[pool.len() as int] == consts[pool.len()
                    as int]);
            }
        },
        Node::Float(bits) => {
            lemma_const_index_roundtrip(pool.len() as int);
            assert(code[ip] == c[0]) by {
                assert(code.subrange(ip, ip + c.len() as int)[0] == code[ip]);
            }
            assert(code[ip + 1] == c[1]) by {
                assert(code.subrange(ip, ip + c.len() as int)[1] == code[ip + 1]);
            }
            assert(code[ip + 2] == c[2]) by {
                assert(code.subrange(ip, ip + c.len() as int)[2] == code[ip + 2]);
            }
            assert(code[ip + 1] * 256 + code[ip + 2] == pool.len());
            assert(consts[pool.len() as int] == PrimitiveType::Float(bits)) by {
                assert(consts.take(pool_after.len() as int)[pool.len() as int] == consts[pool.len()
                    as int]);
            }
        },
        Node::UnaryExpr { op, child } => {
            let cc = spec_compile_node(*child, pool).0;
            let tail = if op == Operator::Minus {
                crate::opcode::spec_make_op(crate::opcode::OpCode::OpMinus)
            } else {
                crate::opcode::spec_make_op(crate::opcode::OpCode::OpPlus)
            };
            assert(c == cc + tail);
            lemma_concat_parts(code, ip, cc, tail);
            let ip2 = ip + cc.len() as int;
            assert(code[ip2] == tail[0]) by {
                assert(code.subrange(ip2, ip2 + 1)[0] == code[ip2]);
            }
            lemma_compiled_node_runs(code, consts, ip, stack, popped, *child, pool);
            match spec_eval_node(*child) {
                Ok(v) => {
                    lemma_stack_need_pos(*child);
                    if op == Operator::Minus {
                        assert(stack.push(v).drop_last().push(crate::primitive::spec_neg(v))
                            =~= stack.push(crate::primitive::spec_neg(v)));
                    }
                },
                Err(_) => {},
            }
        },
        Node::BinaryExpr { op, lhs, rhs } => {
            let cl = spec_compile_node(*lhs, pool).0;
            let pool1 = spec_compile_node(*lhs, pool).1;
            let cr = spec_compile_node(*rhs, pool1).0;
            let pool2 = spec_compile_node(*rhs, pool1).1;
            let tail = match op {
                Operator::Plus => crate::opcode::spec_make_op(crate::opcode::OpCode::OpAdd),
                Operator::Minus => crate::opcode::spec_make_op(crate::opcode::OpCode::OpSub),
                Operator::Multiply => crate::opcode::spec_make_op(crate::opcode::OpCode::OpMul),
                Operator::Divide => crate::opcode::spec_make_op(crate::opcode::OpCode::OpDiv),
            };
            assert(c == (cl + cr) + tail);
            assert(c =~= cl + (cr + tail));
            lemma_concat_parts(code, ip, cl, cr + tail);
            lemma_concat_parts(code, ip + cl.len() as int, cr, tail);
            let ip2 = ip + cl.len() as int;
            let ip3 = ip2 + cr.len() as int;
            assert(code[ip3] == tail[0]) by {
                assert(code.subrange(ip3, ip3 + 1)[0] == code[ip3]);
            }
            lemma_compile_node_pool(*lhs, pool);
            lemma_compile_node_pool(*rhs, pool1);
            lemma_count_literals_pos(*lhs);
            lemma_count_literals_pos(*rhs);
            lemma_stack_need_pos(*lhs);
            lemma_stack_need_pos(*rhs);
            // pool1 is a prefix of consts because pool2 is.
            assert(pool1 == consts.take(pool1.len() as int)) by {
                lemma_take_take(consts, pool1.len() as int, pool2.len() as int);
                assert(pool2.take(pool1.len() as int) == pool1);
            }
            lemma_compiled_node_runs(code, consts, ip, stack, popped, *lhs, pool);
            match spec_eval_node(*lhs) {
                Ok(a) => {
                    lemma_compiled_node_runs(
                        code,
                        consts,
                        ip2,
                        stack.push(a),
                        spec_last_after(*lhs, popped),
                        *rhs,
                        pool1,
                    );
                    match spec_eval_node(*rhs) {
                        Ok(b) => {
                            let two = stack.push(a).push(b);
                            assert(two.len() >= 2);
                            assert(two.last() == b);
                            assert(two[two.len() - 2] == a);
                            assert(crate::vm::spec_binary_op_of_byte(tail[0]) == op);
                            match crate::primitive::spec_binop(op, a, b) {
                                Ok(v) => {
                                    assert(two.drop_last().drop_last().push(v) =~= stack.push(v));
                                },
                                Err(_) => {},
                            }
                        },
                        Err(_) => {},
                    }
                },
                Err(_) => {},
            }
        },
    }
}

/// Appending statements keeps the pool a prefix and grows it by their
/// literal count.
proof fn lemma_compile_stmts_pool(ns: Seq<Node>, i: int, pool: Seq<PrimitiveType>)
    ensures
        spec_compile_stmts(ns, i, pool).1.len() == pool.len() + spec_count_from(ns, i),
        spec_compile_stmts(ns, i, pool).1.take(pool.len() as int) == pool,
    decreases ns.len() - i,
{
    if 0 <= i < ns.len() {
        lemma_compile_node_pool(ns[i], pool);
        let pool1 = spec_compile_node(ns[i], pool).1;
        lemma_compile_stmts_pool(ns, i + 1, pool1);
        let pool2 = spec_compile_stmts(ns, i + 1, pool1).1;
        lemma_count_literals_pos(ns[i]);
        lemma_count_from_nonneg(ns, i + 1);
        assert(pool2.take(pool.len() as int) == pool) by {
            lemma_take_take(pool2, pool.len() as int, pool1.len() as int);
            assert(pool2.take(pool1.len() as int) == pool1);
            assert(pool1.take(pool.len() as int) == pool);
        }
    } else {
        assert(spec_compile_stmts(ns, i, pool).1.take(pool.len() as int) =~= pool);
    }
}

/// Running the code of the statements from `i` on, from an empty
/// stack, ends past that code with the empty stack and the last
/// statement's value in the observable slot — or stops with exactly the
/// evaluator's error.
proof fn lemma_compiled_stmts_run(
    code: Seq<u8>,
    consts: Seq<PrimitiveType>,
    ip: int,
    ns: Seq<Node>,
    i: int,
    pool: Seq<PrimitiveType>,
    acc: PrimitiveType,
)
    requires
        0 <= i <= ns.len(),
        forall|k: int| i <= k < ns.len() ==> (#[trigger] ns[k]).wf(),
        forall|k: int| i <= k < ns.len() ==> spec_stack_need(#[trigger] ns[k]) <= STACK_SIZE,
        0 <= ip,
        ip + spec_compile_stmts(ns, i, pool).0.len() <= code.len(),
        code.subrange(ip, ip + spec_compile_stmts(ns, i, pool).0.len() as int)
            == spec_compile_stmts(ns, i, pool).0,
        pool.len() + spec_count_from(ns, i) <= MAX_CONSTANTS,
        spec_compile_stmts(ns, i, pool).1.len() <= consts.len(),
        spec_compile_stmts(ns, i, pool).1 == consts.take(
            spec_compile_stmts(ns, i, pool).1.len() as int,
        ),
    ensures
        match spec_eval_stmts(ns, i, acc) {
            Ok(v) => spec_run(code, consts, ip, Seq::<PrimitiveType>::empty(), acc) == spec_run(
                code,
                consts,
                ip + spec_compile_stmts(ns, i, pool).0.len(),
                Seq::<PrimitiveType>::empty(),
                v,
            ),
            Err(e) => spec_run(code, consts, ip, Seq::<PrimitiveType>::empty(), acc) == Err::<
                (Seq<PrimitiveType>, PrimitiveType),
                RuntimeError,
            >(e),
        },
    decreases ns.len() - i,
{
    if 0 <= i < ns.len() {
        let cn = spec_compile_node(ns[i], pool).0;
        let pool1 = spec_compile_node(ns[i], pool).1;
        let pop = crate::opcode::spec_make_op(crate::opcode::OpCode::OpPop);
        let rest = spec_compile_stmts(ns, i + 1, pool1).0;
        let pool2 = spec_compile_stmts(ns, i + 1, pool1).1;
        let c = spec_compile_stmts(ns, i, pool).0;
        assert(c == (cn + pop) + rest);
        assert(c =~= cn + (pop + rest));
        lemma_concat_parts(code, ip, cn, pop + rest);
        lemma_concat_parts(code, ip + cn.len() as int, pop, rest);
        let ip2 = ip + cn.len() as int;
        let ip3 = ip2 + 1;
        assert(code[ip2] == 0x02u8) by {
            assert(code.subrange(ip2, ip2 + 1)[0] == code[ip2]);
        }
        lemma_compile_node_pool(ns[i], pool);
        lemma_compile_stmts_pool(ns, i + 1, pool1);
        lemma_count_literals_pos(ns[i]);
        lemma_count_from_nonneg(ns, i + 1);
        assert(pool1 == consts.take(pool1.len() as int)) by {
            lemma_take_take(consts, pool1.len() as int, pool2.len() as int);
            assert(pool2.take(pool1.len() as int) == pool1);
        }
        let empty = Seq::<PrimitiveType>::empty();
        lemma_compiled_node_runs(code, consts, ip, empty, acc, ns[i], pool);
        match spec_eval_node(ns[i]) {
            Ok(v) => {
                // The statement's value sits alone on the stack; the
                // trailing OpPop moves it to the observable slot.
                assert(empty.push(v).drop_last() =~= empty);
                lemma_compiled_stmts_run(code, consts, ip3, ns, i + 1, pool1, v);
            },
            Err(_) => {},
        }
    }
}

/// Cross-engine equivalence: for every well-formed program whose
/// statements each fit the operand stack and whose literals fit the
/// constant pool, executing the compiled bytecode yields exactly what
/// the tree-walking evaluator yields — the same value, or the same
/// error.
pub proof fn lemma_engines_agree(ns: Seq<Node>)
    requires
        forall|k: int| 0 <= k < ns.len() ==> (#[trigger] ns[k]).wf(),
        forall|k: int| 0 <= k < ns.len() ==> spec_stack_need(#[trigger] ns[k]) <= STACK_SIZE,
        spec_count_from(ns, 0) <= MAX_CONSTANTS,
    ensures
        ({
            let (code, consts) = spec_compile_program(ns);
            spec_execute(code, consts) == spec_eval_program(ns)
        }),
{
    let empty_pool = Seq::<PrimitiveType>::empty();
    let code = spec_compile_program(ns).0;
    let consts = spec_compile_program(ns).1;
    lemma_compile_stmts_pool(ns, 0, empty_pool);
    lemma_count_from_nonneg(ns, 0);
    assert(consts.take(consts.len() as int) =~= consts);
    assert(code.subrange(0, code.len() as int) =~= code);
    lemma_compiled_stmts_run(
        code,
        consts,
        0,
        ns,
        0,
        empty_pool,
        PrimitiveType::Int(0),
    );
}

/// The same statement, phrased at the engines' own interfaces: the
/// bytecode engine's result over a program, with its runtime errors
/// wrapped, equals the tree-walking evaluator's.
pub proof fn lemma_engine_results_agree(ns: Seq<Node>)
    requires
        forall|k: int| 0 <= k < ns.len() ==> (#[trigger] ns[k]).wf(),
        forall|k: int| 0 <= k < ns.len() ==> spec_stack_need(#[trigger] ns[k]) <= STACK_SIZE,
        spec_count_from(ns, 0) <= MAX_CONSTANTS,
    ensures
        spec_vm_program(ns) == (match spec_eval_program(ns) {
            Ok(v) => Ok::<PrimitiveType, EvalError>(v),
            Err(e) => Err::<PrimitiveType, EvalError>(EvalError::Runtime(e)),
        }),
{
    lemma_engines_agree(ns);
}

/// Source-level cross-engine equivalence: on any source text whose
/// parsed program fits the machine's limits (its literals fit the
/// constant pool and each statement fits the operand stack), the
/// bytecode engine and the tree-walking engine return identical
/// results — the same value or the same error, parse errors included.
pub proof fn lemma_source_engines_agree(bytes: Seq<u8>)
    requires
        crate::parser::spec_parse(bytes) matches Ok(ast) ==> spec_count_from(ast, 0)
            <= MAX_CONSTANTS && (forall|k: int|
            0 <= k < ast.len() ==> spec_stack_need(#[trigger] ast[k]) <= STACK_SIZE),
    ensures
        crate::vm::spec_vm_source(bytes) == crate::interpreter::spec_interpret_source(bytes),
{
    crate::parser::lemma_parse_wf(bytes);
    match crate::parser::spec_parse(bytes) {
        Ok(ast) => lemma_engine_results_agree(ast),
        Err(_) => {},
    }
}

/// Determinism of the tree-walking engine: its result is a function of
/// the source text's bytes alone, so two runs over the same text yield
/// the same value. `Interpreter::from_source` ensures its result equals
/// `spec_interpret_source` of the text, so any two of its results
/// satisfy these premises.
pub proof fn lemma_interpreter_deterministic(
    bytes: Seq<u8>,
    r1: Result<PrimitiveType, EvalError>,
    r2: Result<PrimitiveType, EvalError>,
)
    requires
        r1 == crate::interpreter::spec_interpret_source(bytes),
        r2 == crate::interpreter::spec_interpret_source(bytes),
    ensures
        r1 == r2,
{
}

/// Determinism of the bytecode engine, in the same sense:
/// `VM::from_source` ensures its result equals `spec_vm_source` of the
/// text's bytes.
pub proof fn lemma_vm_deterministic(
    bytes: Seq<u8>,
    r1: Result<PrimitiveType, EvalError>,
    r2: Result<PrimitiveType, EvalError>,
)
    requires
        r1 == crate::vm::spec_vm_source(bytes),
        r2 == crate::vm::spec_vm_source(bytes),
    ensures
        r1 == r2,
{
}

} // verus!
