//! Cross-engine and whole-pipeline behaviour: the two engines agree,
//! evaluation is deterministic, and mixed-kind arithmetic promotes as
//! the arithmetic table says.
use calculator::interpreter::Interpreter;
use calculator::primitive::PrimitiveType;
use calculator::vm::VM;

#[test]
fn test_engines_agree() {
    let sources = [
        "21 + 6",
        "1 + 2 -3",
        "2 * 3",
        "8 / 2",
        "2 + 2 * 3",
        "-11 + 2",
        "1 + ((2 + 3) - (2 + 3))",
        "2.5 + 2.5 + 1.5 + 2",
        "1.2 * 2",
        "1 / 0",
        "1 2 3",
        "",
        "1 +",
        "7 / (3 - 3)",
    ];
    for source in sources {
        assert_eq!(
            Interpreter::from_source(source),
            VM::from_source(source),
            "engines disagree on {:?}",
            source
        );
    }
}

#[test]
fn test_evaluation_deterministic() {
    for source in ["2 + 2 * 3", "2.5 + 1.5", "1 / 0", "(("] {
        assert_eq!(Interpreter::from_source(source), Interpreter::from_source(source));
        assert_eq!(VM::from_source(source), VM::from_source(source));
    }
}

#[test]
fn test_numeric_promotion() {
    // Int with Int stays Int
    assert_eq!(VM::from_source("1 + 2").unwrap(), PrimitiveType::Int(3));
    // Int with Float becomes Float and equals the widened operation
    match VM::from_source("1 + 2.5").unwrap() {
        PrimitiveType::Float(bits) => assert_eq!(f64::from_bits(bits), 1f64 + 2.5),
        other => panic!("expected a float, got {:?}", other),
    }
    match VM::from_source("2.5 - 1").unwrap() {
        PrimitiveType::Float(bits) => assert_eq!(f64::from_bits(bits), 2.5 - 1f64),
        other => panic!("expected a float, got {:?}", other),
    }
    match VM::from_source("5.0 / 2.0").unwrap() {
        PrimitiveType::Float(bits) => assert_eq!(f64::from_bits(bits), 2.5),
        other => panic!("expected a float, got {:?}", other),
    }
    match VM::from_source("1.5 * 2").unwrap() {
        PrimitiveType::Float(bits) => assert_eq!(f64::from_bits(bits), 3.0),
        other => panic!("expected a float, got {:?}", other),
    }
}

#[test]
fn test_decimal_conversion_is_exact() {
    // the soft-float decimal conversion must agree bit for bit with the
    // platform's correctly rounded parse
    for (source, expected) in [("2.5", 2.5f64), ("1.2", 1.2f64), ("0.1", 0.1f64)] {
        match VM::from_source(source).unwrap() {
            PrimitiveType::Float(bits) => assert_eq!(bits, expected.to_bits()),
            other => panic!("expected a float, got {:?}", other),
        }
    }
}

#[test]
fn test_float_arithmetic_matches_hardware() {
    match VM::from_source("2.5 + 2.5 + 1.5 + 2").unwrap() {
        PrimitiveType::Float(bits) => assert_eq!(bits, (8.5f64).to_bits()),
        other => panic!("expected a float, got {:?}", other),
    }
    match VM::from_source("1.2 * 2").unwrap() {
        PrimitiveType::Float(bits) => assert_eq!(bits, (1.2f64 * 2.0).to_bits()),
        other => panic!("expected a float, got {:?}", other),
    }
}

#[test]
fn test_wrapping_integer_arithmetic() {
    assert_eq!(
        VM::from_source("2147483647 + 1").unwrap(),
        PrimitiveType::Int(i32::MIN)
    );
    assert_eq!(
        VM::from_source("0 - 2147483647 - 1 - 0").unwrap(),
        PrimitiveType::Int(i32::MIN)
    );
    assert_eq!(VM::from_source("7 / 2").unwrap(), PrimitiveType::Int(3));
    assert_eq!(
        VM::from_source("0 - 7 / 2").unwrap(),
        PrimitiveType::Int(-3),
        "truncating division rounds toward zero"
    );
}
