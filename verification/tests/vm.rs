use calculator::bytecode::{Bytecode, Interpreter};
use calculator::errors::{EvalError, RuntimeError};
use calculator::parser::parse;
use calculator::primitive::PrimitiveType;
use calculator::vm::VM;

fn compile(source: &str) -> Bytecode {
    Interpreter::from_ast(parse(source).unwrap()).unwrap()
}

#[test]
fn test_vm() {
    let source = "1 + ((2 + 3) - (2 + 3))";
    let byte_code = compile(source);
    println!("{:?}", byte_code);
    let mut vm = VM::new(byte_code);
    vm.run().unwrap();
    assert_eq!(vm.last_popped(), PrimitiveType::Int(1));
}

#[test]
fn test_multiply() {
    let source = "1 + ((2 * 3) - (6 / 3))";
    let byte_code = compile(source);
    println!("{:?}", byte_code);
    let mut vm = VM::new(byte_code);
    vm.run().unwrap();
    assert_eq!(vm.last_popped(), PrimitiveType::Int(5));
}

#[test]
fn test_from_source_entry_point() {
    assert_eq!(VM::from_source("21 + 6").unwrap(), PrimitiveType::Int(27));
    assert_eq!(VM::from_source("2 + 2 * 3").unwrap(), PrimitiveType::Int(12));
    assert_eq!(VM::from_source("").unwrap(), PrimitiveType::Int(0));
}

#[test]
fn test_invalid_opcode_is_typed_error() {
    let bytecode = Bytecode {
        instructions: vec![0xFF],
        constants: vec![],
    };
    let mut vm = VM::new(bytecode);
    assert_eq!(vm.run(), Err(RuntimeError::InvalidOpcode));
}

#[test]
fn test_truncated_operand_is_typed_error() {
    let bytecode = Bytecode {
        instructions: vec![0x01, 0x00],
        constants: vec![PrimitiveType::Int(1)],
    };
    let mut vm = VM::new(bytecode);
    assert_eq!(vm.run(), Err(RuntimeError::InvalidOpcode));
}

#[test]
fn test_bad_constant_index_is_typed_error() {
    let bytecode = Bytecode {
        instructions: vec![0x01, 0x00, 0x05],
        constants: vec![PrimitiveType::Int(1)],
    };
    let mut vm = VM::new(bytecode);
    assert_eq!(vm.run(), Err(RuntimeError::InvalidOpcode));
}

#[test]
fn test_stack_underflow_is_typed_error() {
    let bytecode = Bytecode {
        instructions: vec![0x03],
        constants: vec![],
    };
    let mut vm = VM::new(bytecode);
    assert_eq!(vm.run(), Err(RuntimeError::StackUnderflow));

    let bytecode = Bytecode {
        instructions: vec![0x02],
        constants: vec![],
    };
    let mut vm = VM::new(bytecode);
    assert_eq!(vm.run(), Err(RuntimeError::StackUnderflow));
}

#[test]
fn test_stack_overflow_is_typed_error() {
    // 513 pushes with no pop: one more than the operand stack holds
    let mut instructions = Vec::new();
    for _ in 0..513 {
        instructions.extend_from_slice(&[0x01, 0x00, 0x00]);
    }
    let bytecode = Bytecode {
        instructions,
        constants: vec![PrimitiveType::Int(1)],
    };
    let mut vm = VM::new(bytecode);
    assert_eq!(vm.run(), Err(RuntimeError::StackOverflow));
}

#[test]
fn test_division_by_zero_is_typed_error() {
    assert_eq!(
        VM::from_source("1 / 0"),
        Err(EvalError::Runtime(RuntimeError::DivisionByZero))
    );
}

#[test]
fn test_float_division_by_zero_follows_ieee() {
    match VM::from_source("1.0 / 0.0").unwrap() {
        PrimitiveType::Float(bits) => assert!(f64::from_bits(bits).is_infinite()),
        other => panic!("expected a float, got {:?}", other),
    }
}

#[test]
fn test_push_pop_discipline() {
    let mut vm = VM::new(Bytecode {
        instructions: vec![],
        constants: vec![],
    });
    assert_eq!(vm.pop(), Err(RuntimeError::StackUnderflow));
    vm.push(PrimitiveType::Int(7)).unwrap();
    assert_eq!(vm.pop(), Ok(PrimitiveType::Int(7)));
    assert_eq!(vm.last_popped(), PrimitiveType::Int(7));
}
