use calculator::opcode::{make_op, OpCode};
use calculator::vm::usize_from_two_u8s;

#[test]
fn test_make_op() {
    assert_eq!(make_op(OpCode::OpConstant(1)), vec![0x01, 0, 1]);
    assert_eq!(make_op(OpCode::OpConstant(257)), vec![0x01, 1, 1]);
    assert_eq!(make_op(OpCode::OpPop), vec![0x02]);
    assert_eq!(make_op(OpCode::OpMinus), vec![0x0B]);
}

#[test]
fn test_make_op_all_tags() {
    assert_eq!(make_op(OpCode::OpAdd), vec![0x03]);
    assert_eq!(make_op(OpCode::OpSub), vec![0x04]);
    assert_eq!(make_op(OpCode::OpMul), vec![0x05]);
    assert_eq!(make_op(OpCode::OpDiv), vec![0x06]);
    assert_eq!(make_op(OpCode::OpPlus), vec![0x0A]);
    assert_eq!(make_op(OpCode::OpConstant(0xFFFF)), vec![0x01, 0xFF, 0xFF]);
}

#[test]
fn test_operand_bytes_roundtrip() {
    assert_eq!(usize_from_two_u8s(1, 1), 257);
    assert_eq!(usize_from_two_u8s(0, 0), 0);
    assert_eq!(usize_from_two_u8s(0xFF, 0xFF), 65535);
}
