use calculator::ast::Node;
use calculator::interpreter::{Eval, Interpreter};
use calculator::primitive::PrimitiveType;

#[test]
fn interpreter_test_interpreter() {
    assert_eq!(Interpreter::from_source("21 + 6").unwrap(), 27.into());
    assert_eq!(Interpreter::from_source("1 + 2 -3").unwrap(), 0.into());
}

#[test]
fn test_multiply_and_divide() {
    assert_eq!(Interpreter::from_source("2 * 3").unwrap(), 6.into());
    assert_eq!(Interpreter::from_source("8 / 2").unwrap(), 4.into());
}

#[test]
fn test_operator_precedence() {
    // the flat left-to-right fold makes this 12, not 8; that behaviour
    // is documented and asserted as it is
    assert_eq!(Interpreter::from_source("2 + 2 * 3").unwrap(), 12.into());
}

#[test]
fn test_float_support() {
    match Interpreter::from_source("2.5 + 2.5 + 1.5 + 2").unwrap() {
        PrimitiveType::Float(bits) => {
            assert!((f64::from_bits(bits) - 8.5).abs() < 1e-9);
        }
        other => panic!("expected a float, got {:?}", other),
    }
    match Interpreter::from_source("1.2 * 2").unwrap() {
        PrimitiveType::Float(bits) => {
            assert!((f64::from_bits(bits) - 2.4).abs() < 1e-9);
        }
        other => panic!("expected a float, got {:?}", other),
    }
}

#[test]
fn test_eval_single_nodes() {
    let eval = Eval::new();
    assert_eq!(eval.eval(&Node::Int(5)).unwrap(), PrimitiveType::Int(5));
    assert_eq!(
        eval.eval(&Node::Float((1.5f64).to_bits())).unwrap(),
        PrimitiveType::Float((1.5f64).to_bits())
    );
}

#[test]
fn test_last_statement_wins() {
    assert_eq!(Interpreter::from_source("1 + 2 3 * 4").unwrap(), 12.into());
    assert_eq!(Interpreter::from_source("").unwrap(), 0.into());
}

#[test]
fn test_unary_operators() {
    assert_eq!(Interpreter::from_source("-11 + 2").unwrap(), (-9).into());
    assert_eq!(Interpreter::from_source("+7").unwrap(), 7.into());
    match Interpreter::from_source("-2.5").unwrap() {
        PrimitiveType::Float(bits) => assert_eq!(f64::from_bits(bits), -2.5),
        other => panic!("expected a float, got {:?}", other),
    }
}
