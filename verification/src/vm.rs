//! The stack-based virtual machine.
//!
//! The machine walks the instruction byte stream once, front to back;
//! there is no jump opcode, so execution always terminates. The operand
//! stack is a bounds-checked container of fixed capacity: a push onto a
//! full stack and a pop from an empty one are typed errors, never memory
//! corruption. The machine also remembers the most recently popped
//! value; since every statement's code ends with an `OpPop`, that slot
//! holds the final statement's value when the loop ends, which is the
//! program's observable result.
use vstd::prelude::*;

use crate::ast::{Node, Operator};
use crate::bytecode::{
    spec_compile_program, spec_count_from, Bytecode, Interpreter, MAX_CONSTANTS,
};
use crate::errors::{EvalError, RuntimeError};
use crate::parser::spec_parse;
use crate::primitive::{spec_binop, spec_neg, PrimitiveType};
use vstd::string::StringSliceAdditionalSpecFns;

verus! {

/// The operand stack's capacity, fixed at construction.
pub const STACK_SIZE: usize = 512;

/// The big-endian index held by an `OpConstant`'s two operand bytes.
pub fn usize_from_two_u8s(p1: u8, p2: u8) -> (r: usize)
    ensures
        r == p1 * 256 + p2,
{
    (p1 as usize) * 256 + (p2 as usize)
}

/// The binary operator dispatched for an opcode byte in `0x03..=0x06`.
pub open spec fn spec_binary_op_of_byte(b: u8) -> Operator {
    if b == 0x03 {
        Operator::Plus
    } else if b == 0x04 {
        Operator::Minus
    } else if b == 0x05 {
        Operator::Multiply
    } else {
        Operator::Divide
    }
}

/// One pass of the machine over `code` from instruction pointer `ip`,
/// with the given operand stack and most recently popped value. Total
/// over arbitrary byte streams: an unknown opcode byte, a truncated
/// `OpConstant` operand and a pool index past the end of `consts` are
/// `InvalidOpcode`; a push past capacity is `StackOverflow`; a pop from
/// an empty stack is `StackUnderflow`; integer division by zero is
/// `DivisionByZero`. On success it yields the final stack and the most
/// recently popped value.
pub open spec fn spec_run(
    code: Seq<u8>,
    consts: Seq<PrimitiveType>,
    ip: int,
    stack: Seq<PrimitiveType>,
    popped: PrimitiveType,
) -> Result<(Seq<PrimitiveType>, PrimitiveType), RuntimeError>
    decreases code.len() - ip,
{
    if ip < 0 || ip >= code.len() {
        Ok((stack, popped))
    } else {
        let b = code[ip];
        if b == 0x01 {
            if ip + 3 > code.len() {
                Err(RuntimeError::InvalidOpcode)
            } else {
                let idx = code[ip + 1] * 256 + code[ip + 2];
                if idx >= consts.len() {
                    Err(RuntimeError::InvalidOpcode)
                } else if stack.len() >= STACK_SIZE {
                    Err(RuntimeError::StackOverflow)
                } else {
                    spec_run(code, consts, ip + 3, stack.push(consts[idx]), popped)
                }
            }
        } else if b == 0x02 {
            if stack.len() == 0 {
                Err(RuntimeError::StackUnderflow)
            } else {
                spec_run(code, consts, ip + 1, stack.drop_last(), stack.last())
            }
        } else if 0x03 <= b <= 0x06 {
            if stack.len() < 2 {
                Err(RuntimeError::StackUnderflow)
            } else {
                let rhs = stack.last();
                let lhs = stack[stack.len() - 2];
                match spec_binop(spec_binary_op_of_byte(b), lhs, rhs) {
                    Ok(v) => if stack.len() - 2 >= STACK_SIZE {
                        Err(RuntimeError::StackOverflow)
                    } else {
                        spec_run(code, consts, ip + 1, stack.drop_last().drop_last().push(v), lhs)
                    },
                    Err(e) => Err(e),
                }
            }
        } else if b == 0x0A {
            if stack.len() == 0 {
                Err(RuntimeError::StackUnderflow)
            } else if stack.len() - 1 >= STACK_SIZE {
                Err(RuntimeError::StackOverflow)
            } else {
                spec_run(code, consts, ip + 1, stack, stack.last())
            }
        } else if b == 0x0B {
            if stack.len() == 0 {
                Err(RuntimeError::StackUnderflow)
            } else if stack.len() - 1 >= STACK_SIZE {
                Err(RuntimeError::StackOverflow)
            } else {
                spec_run(
                    code,
                    consts,
                    ip + 1,
                    stack.drop_last().push(spec_neg(stack.last())),
                    stack.last(),
                )
            }
        } else {
            Err(RuntimeError::InvalidOpcode)
        }
    }
}

/// The observable result of executing a whole program on a fresh
/// machine: the most recently popped value when the loop ends, `Int(0)`
/// for an empty instruction stream.
pub open spec fn spec_execute(code: Seq<u8>, consts: Seq<PrimitiveType>) -> Result<
    PrimitiveType,
    RuntimeError,
> {
    match spec_run(code, consts, 0, Seq::<PrimitiveType>::empty(), PrimitiveType::Int(0)) {
        Ok(end) => Ok(end.1),
        Err(e) => Err(e),
    }
}

/// The whole bytecode engine over a parsed program: compile, then
/// execute on a fresh machine.
pub open spec fn spec_vm_program(ns: Seq<Node>) -> Result<PrimitiveType, EvalError> {
    if spec_count_from(ns, 0) > MAX_CONSTANTS {
        Err(EvalError::Compile(crate::errors::CompileError::TooManyConstants))
    } else {
        let (code, consts) = spec_compile_program(ns);
        match spec_execute(code, consts) {
            Ok(v) => Ok(v),
            Err(e) => Err(EvalError::Runtime(e)),
        }
    }
}

/// The bytecode engine over source text: parse, compile, execute.
pub open spec fn spec_vm_source(bytes: Seq<u8>) -> Result<PrimitiveType, EvalError> {
    match spec_parse(bytes) {
        Ok(ast) => spec_vm_program(ast),
        Err(e) => Err(EvalError::Parse(e)),
    }
}

/// A virtual machine instance: the program it owns, its operand stack,
/// and the most recently popped value.
pub struct VM {
    pub bytecode: Bytecode,
    pub stack: Vec<PrimitiveType>,
    pub popped: PrimitiveType,
}

impl VM {
    /// A fresh machine owning `bytecode`, with an empty stack; before
    /// anything is popped the observable slot reads `Int(0)`.
    pub fn new(bytecode: Bytecode) -> (vm: VM)
        ensures
            vm.bytecode == bytecode,
            vm.stack@ == Seq::<PrimitiveType>::empty(),
            vm.popped == PrimitiveType::Int(0),
    {
        VM { bytecode, stack: Vec::new(), popped: PrimitiveType::Int(0) }
    }

    /// Pushes a value, or reports `StackOverflow` on a full stack and
    /// leaves the machine unchanged.
    pub fn push(&mut self, value: PrimitiveType) -> (r: Result<(), RuntimeError>)
        ensures
            old(self).stack@.len() < STACK_SIZE ==> r is Ok && final(self).stack@ == old(
                self,
            ).stack@.push(value),
            old(self).stack@.len() >= STACK_SIZE ==> r == Err::<(), RuntimeError>(
                RuntimeError::StackOverflow,
            ) && final(self).stack@ == old(self).stack@,
            final(self).bytecode == old(self).bytecode,
            final(self).popped == old(self).popped,
    {
        if self.stack.len() >= STACK_SIZE {
            Err(RuntimeError::StackOverflow)
        } else {
            self.stack.push(value);
            Ok(())
        }
    }

    /// Pops the top value and records it as the most recently popped,
    /// or reports `StackUnderflow` on an empty stack and leaves the
    /// machine unchanged.
    pub fn pop(&mut self) -> (r: Result<PrimitiveType, RuntimeError>)
        ensures
            old(self).stack@.len() > 0 ==> r == Ok::<PrimitiveType, RuntimeError>(
                old(self).stack@.last(),
            ) && final(self).stack@ == old(self).stack@.drop_last() && final(self).popped == old(
                self,
            ).stack@.last(),
            old(self).stack@.len() == 0 ==> r == Err::<PrimitiveType, RuntimeError>(
                RuntimeError::StackUnderflow,
            ) && final(self).stack@ == old(self).stack@ && final(self).popped == old(self).popped,
            final(self).bytecode == old(self).bytecode,
    {
        match self.stack.pop() {
            Some(value) => {
                self.popped = value;
                Ok(value)
            },
            None => Err(RuntimeError::StackUnderflow),
        }
    }

    /// The most recently popped value; `Int(0)` before any pop.
    pub fn last_popped(&self) -> (r: PrimitiveType)
        ensures
            r == self.popped,
    {
        self.popped
    }

    /// Executes the owned program from the machine's current state, as
    /// `spec_run` says: on success the stack and the popped slot are the
    /// run's final ones; on failure exactly the error `spec_run` gives
    /// is returned.
    pub fn run(&mut self) -> (r: Result<(), RuntimeError>)
        ensures
            final(self).bytecode == old(self).bytecode,
            match spec_run(
                old(self).bytecode.instructions@,
                old(self).bytecode.constants@,
                0,
                old(self).stack@,
                old(self).popped,
            ) {
                Ok(end) => r is Ok && final(self).stack@ == end.0 && final(self).popped == end.1,
                Err(e) => r == Err::<(), RuntimeError>(e),
            },
    {
        let ghost code = self.bytecode.instructions@;
        let ghost consts = self.bytecode.constants@;
        let ghost target = spec_run(code, consts, 0, self.stack@, self.popped);
        let mut ip: usize = 0;
        while ip < self.bytecode.instructions.len()
            invariant
                self.bytecode == old(self).bytecode,
                code == self.bytecode.instructions@,
                consts == self.bytecode.constants@,
                ip <= code.len(),
                target == spec_run(code, consts, 0, old(self).stack@, old(self).popped),
                target == spec_run(code, consts, ip as int, self.stack@, self.popped),
            decreases code.len() - ip,
        {
            let b = self.bytecode.instructions[ip];
            if b == 0x01 {
                if self.bytecode.instructions.len() - ip < 3 {
                    return Err(RuntimeError::InvalidOpcode);
                }
                let idx = usize_from_two_u8s(
                    self.bytecode.instructions[ip + 1],
                    self.bytecode.instructions[ip + 2],
                );
                if idx >= self.bytecode.constants.len() {
                    return Err(RuntimeError::InvalidOpcode);
                }
                let value = self.bytecode.constants[idx];
                match self.push(value) {
                    Ok(()) => ip = ip + 3,
                    Err(e) => return Err(e),
                }
            } else if b == 0x02 {
                match self.pop() {
                    Ok(_) => ip = ip + 1,
                    Err(e) => return Err(e),
                }
            } else if 0x03 <= b && b <= 0x06 {
                let ghost stack0 = self.stack@;
                let rhs = match self.pop() {
                    Ok(v) => v,
                    Err(e) => return Err(e),
                };
                let lhs = match self.pop() {
                    Ok(v) => v,
                    Err(e) => return Err(e),
                };
                let op = if b == 0x03 {
                    Operator::Plus
                } else if b == 0x04 {
                    Operator::Minus
                } else if b == 0x05 {
                    Operator::Multiply
                } else {
                    Operator::Divide
                };
                let value = match lhs.apply_binary(op, rhs) {
                    Ok(v) => v,
                    Err(e) => return Err(e),
                };
                match self.push(value) {
                    Ok(()) => ip = ip + 1,
                    Err(e) => return Err(e),
                }
            } else if b == 0x0A {
                let ghost stack0 = self.stack@;
                let value = match self.pop() {
                    Ok(v) => v,
                    Err(e) => return Err(e),
                };
                match self.push(value) {
                    Ok(()) => {
                        proof {
                            assert(stack0.drop_last().push(stack0.last()) =~= stack0);
                        }
                        ip = ip + 1;
                    },
                    Err(e) => return Err(e),
                }
            } else if b == 0x0B {
                let value = match self.pop() {
                    Ok(v) => v,
                    Err(e) => return Err(e),
                };
                match self.push(value.neg()) {
                    Ok(()) => ip = ip + 1,
                    Err(e) => return Err(e),
                }
            } else {
                return Err(RuntimeError::InvalidOpcode);
            }
        }
        Ok(())
    }

    /// The bytecode engine over a parsed program: lower it, run it on a
    /// fresh machine, and read the last popped value, as
    /// `spec_vm_program` says.
    pub fn from_ast(ast: Vec<Node>) -> (r: Result<PrimitiveType, EvalError>)
        requires
            forall|i: int| 0 <= i < ast@.len() ==> (#[trigger] ast@[i]).wf(),
        ensures
            r == spec_vm_program(ast@),
    {
        proof {
            crate::bytecode::lemma_count_from_nonneg(ast@, 0);
        }
        match Interpreter::from_ast(ast) {
            Err(e) => Err(EvalError::Compile(e)),
            Ok(bytecode) => {
                let mut vm = VM::new(bytecode);
                match vm.run() {
                    Err(e) => Err(EvalError::Runtime(e)),
                    Ok(()) => Ok(vm.last_popped()),
                }
            },
        }
    }

    /// The whole engine on source text, as `spec_vm_source` says over
    /// the text's UTF-8 bytes.
    pub fn from_source(source: &str) -> (r: Result<PrimitiveType, EvalError>)
        ensures
            r == spec_vm_source(source.spec_bytes()),
    {
        let ast = match crate::parser::parse(source) {
            Ok(ast) => ast,
            Err(e) => return Err(EvalError::Parse(e)),
        };
        Self::from_ast(ast)
    }
}

} // verus!
