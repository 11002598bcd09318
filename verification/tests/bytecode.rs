use calculator::bytecode::{Bytecode, Interpreter};
use calculator::errors::CompileError;
use calculator::opcode::{make_op, OpCode};
use calculator::parser::parse;
use calculator::primitive::PrimitiveType;

#[test]
fn bytecode_test_interpreter() {
    for sign in ["+", "-"] {
        let input = format!("1 {} 2", sign);
        let ast = parse(&input).unwrap();
        let bytecode = Interpreter::from_ast(ast).unwrap();
        let op_code = match sign {
            "+" => OpCode::OpAdd,
            "-" => OpCode::OpSub,
            _ => unreachable!(),
        };
        let expected_instructions = vec![
            OpCode::OpConstant(0),
            OpCode::OpConstant(1),
            op_code,
            OpCode::OpPop,
        ]
        .into_iter()
        .flat_map(|op_code| make_op(op_code))
        .collect();
        assert_eq!(
            Bytecode {
                instructions: expected_instructions,
                constants: vec![PrimitiveType::Int(1), PrimitiveType::Int(2)]
            },
            bytecode
        );
    }
}

#[test]
fn test_compile_exact_bytes() {
    let ast = parse("1 + 2").unwrap();
    let bytecode = Interpreter::from_ast(ast).unwrap();
    assert_eq!(
        bytecode.instructions,
        vec![0x01, 0x00, 0x00, 0x01, 0x00, 0x01, 0x03, 0x02]
    );
    assert_eq!(
        bytecode.constants,
        vec![PrimitiveType::Int(1), PrimitiveType::Int(2)]
    );
}

#[test]
fn test_compile_unary_opcodes() {
    let ast = parse("-3").unwrap();
    let bytecode = Interpreter::from_ast(ast).unwrap();
    assert_eq!(bytecode.instructions, vec![0x01, 0x00, 0x00, 0x0B, 0x02]);
    assert_eq!(bytecode.constants, vec![PrimitiveType::Int(3)]);
}

#[test]
fn test_compile_duplicate_literals_not_deduplicated() {
    let ast = parse("2 + 2").unwrap();
    let bytecode = Interpreter::from_ast(ast).unwrap();
    assert_eq!(
        bytecode.constants,
        vec![PrimitiveType::Int(2), PrimitiveType::Int(2)]
    );
}

#[test]
fn test_compile_too_many_constants() {
    let source = "1 ".repeat(65537);
    let ast = parse(&source).unwrap();
    assert_eq!(
        Interpreter::from_ast(ast),
        Err(CompileError::TooManyConstants)
    );
}
