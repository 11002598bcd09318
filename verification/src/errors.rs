//! Error types for the three pipeline stages: parsing, compiling to
//! bytecode, and executing bytecode. Each stage aborts on its own error
//! class and hands the caller a typed value; nothing in the library panics.
use vstd::prelude::*;

verus! {

/// Why a source text was rejected. Positions are byte offsets into the
/// source, counted from zero.
#[derive(Debug, Clone, Copy, PartialEq, Eq, Structural)]
pub enum ParseError {
    /// A byte that can start no token (this includes every non-ASCII byte).
    InvalidCharacter { pos: usize },
    /// A `.` after an integer part with no digit following it.
    MalformedNumber { pos: usize },
    /// An integer literal that does not fit in 32 signed bits.
    IntOutOfRange { pos: usize },
    /// A token that cannot begin a term stands where a term is required.
    ExpectedTerm { pos: usize },
    /// A parenthesized group is closed by something other than `)`.
    ExpectedClosingParen { pos: usize },
    /// The input ends where a term or a closing `)` is required.
    UnexpectedEnd,
}

/// Why an expression tree could not be lowered to bytecode. A constant
/// pool index is encoded in two bytes, so a program may hold at most
/// 65536 literals; nothing else can fail.
#[derive(Debug, Clone, Copy, PartialEq, Eq, Structural)]
pub enum CompileError {
    /// The program holds more literals than a two-byte pool index spans.
    TooManyConstants,
}

/// Why the virtual machine abandoned an execution.
#[derive(Debug, Clone, Copy, PartialEq, Eq, Structural)]
pub enum RuntimeError {
    /// An unknown opcode byte, a truncated operand, or a constant-pool
    /// index past the end of the pool.
    InvalidOpcode,
    /// A push onto a full operand stack.
    StackOverflow,
    /// A pop from an empty operand stack.
    StackUnderflow,
    /// An integer division with divisor zero.
    DivisionByZero,
}

/// Any failure of the whole text-to-value pipeline.
#[derive(Debug, Clone, Copy, PartialEq, Eq, Structural)]
pub enum EvalError {
    Parse(ParseError),
    Compile(CompileError),
    Runtime(RuntimeError),
}

} // verus!
