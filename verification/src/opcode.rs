//! The instruction set and its byte encoding.
//!
//! Every instruction is one tag byte; `OpConstant` alone carries an
//! operand, a two-byte big-endian constant-pool index. There is no jump
//! or branch opcode, so an instruction stream always terminates after
//! one bounded linear scan.
use vstd::prelude::*;

verus! {

/// A virtual-machine instruction.
#[derive(Debug, Clone, Copy, PartialEq, Eq, Structural)]
pub enum OpCode {
    /// Push the constant-pool entry at the given index.
    OpConstant(u16),
    /// Pop and discard the top of the stack.
    OpPop,
    OpAdd,
    OpSub,
    OpMul,
    OpDiv,
    /// Unary plus: pop and push back unchanged.
    OpPlus,
    /// Unary minus: pop and push the negated value.
    OpMinus,
}

/// The byte encoding of one instruction, per the fixed opcode table:
/// `OpConstant` is `0x01` followed by the index's high and low bytes,
/// `OpPop` is `0x02`, the four binary operators are `0x03` to `0x06`,
/// and the unary operators are `0x0A` and `0x0B`.
pub open spec fn spec_make_op(op: OpCode) -> Seq<u8> {
    match op {
        OpCode::OpConstant(idx) => seq![0x01u8, (idx / 256) as u8, (idx % 256) as u8],
        OpCode::OpPop => seq![0x02u8],
        OpCode::OpAdd => seq![0x03u8],
        OpCode::OpSub => seq![0x04u8],
        OpCode::OpMul => seq![0x05u8],
        OpCode::OpDiv => seq![0x06u8],
        OpCode::OpPlus => seq![0x0Au8],
        OpCode::OpMinus => seq![0x0Bu8],
    }
}

/// Encodes one instruction into bytes, exactly as `spec_make_op` says.
pub fn make_op(op: OpCode) -> (code: Vec<u8>)
    ensures
        code@ == spec_make_op(op),
{
    let mut code: Vec<u8> = Vec::new();
    match op {
        OpCode::OpConstant(idx) => {
            code.push(0x01u8);
            code.push((idx / 256) as u8);
            code.push((idx % 256) as u8);
        },
        OpCode::OpPop => code.push(0x02u8),
        OpCode::OpAdd => code.push(0x03u8),
        OpCode::OpSub => code.push(0x04u8),
        OpCode::OpMul => code.push(0x05u8),
        OpCode::OpDiv => code.push(0x06u8),
        OpCode::OpPlus => code.push(0x0Au8),
        OpCode::OpMinus => code.push(0x0Bu8),
    }
    proof {
        assert(code@ =~= spec_make_op(op));
    }
    code
}

} // verus!
