use calculator::ast::{Node, Operator};
use calculator::errors::ParseError;
use calculator::parser::{parse, CalcParser};

#[test]
fn test_parse() {
    let nodes = parse("-11 + 2").unwrap();
    assert_eq!(
        nodes,
        vec![Node::BinaryExpr {
            lhs: Box::new(Node::UnaryExpr {
                op: Operator::Minus,
                child: Box::new(Node::Int(11))
            }),
            op: Operator::Plus,
            rhs: Box::new(Node::Int(2))
        }]
    )
}

#[test]
fn test_calc_parser_front() {
    let nodes = CalcParser::parse("1 + 2").unwrap();
    assert_eq!(
        nodes,
        vec![Node::BinaryExpr {
            lhs: Box::new(Node::Int(1)),
            op: Operator::Plus,
            rhs: Box::new(Node::Int(2))
        }]
    );
}

#[test]
fn test_parse_float_literal() {
    let nodes = parse("2.5").unwrap();
    assert_eq!(nodes, vec![Node::Float((2.5f64).to_bits())]);
}

#[test]
fn test_parse_multiple_statements() {
    let nodes = parse("1 2").unwrap();
    assert_eq!(nodes, vec![Node::Int(1), Node::Int(2)]);
}

#[test]
fn test_parse_empty_source() {
    assert_eq!(parse("").unwrap(), vec![]);
    assert_eq!(parse("   \n\t ").unwrap(), vec![]);
}

#[test]
fn test_parse_nested_parens() {
    let nodes = parse("(((7)))").unwrap();
    assert_eq!(nodes, vec![Node::Int(7)]);
}

#[test]
fn test_parse_error_invalid_character() {
    assert_eq!(
        parse("1 + a"),
        Err(ParseError::InvalidCharacter { pos: 4 })
    );
    assert_eq!(parse("\u{e9}"), Err(ParseError::InvalidCharacter { pos: 0 }));
}

#[test]
fn test_parse_error_malformed_number() {
    assert_eq!(parse("1."), Err(ParseError::MalformedNumber { pos: 1 }));
    assert_eq!(parse("12.x"), Err(ParseError::MalformedNumber { pos: 2 }));
}

#[test]
fn test_parse_error_int_out_of_range() {
    assert_eq!(
        parse("2147483648"),
        Err(ParseError::IntOutOfRange { pos: 0 })
    );
    assert_eq!(parse("2147483647").unwrap(), vec![Node::Int(i32::MAX)]);
}

#[test]
fn test_parse_error_expected_term() {
    assert_eq!(parse(")"), Err(ParseError::ExpectedTerm { pos: 0 }));
    assert_eq!(parse("1 + )"), Err(ParseError::ExpectedTerm { pos: 4 }));
    assert_eq!(parse("1 + * 2"), Err(ParseError::ExpectedTerm { pos: 4 }));
}

#[test]
fn test_parse_error_expected_closing_paren() {
    assert_eq!(
        parse("(1 2"),
        Err(ParseError::ExpectedClosingParen { pos: 3 })
    );
}

#[test]
fn test_parse_error_unexpected_end() {
    assert_eq!(parse("1 +"), Err(ParseError::UnexpectedEnd));
    assert_eq!(parse("(1 + 2"), Err(ParseError::UnexpectedEnd));
}

#[test]
fn test_render_round_trip() {
    let nodes = parse("-11 + 2").unwrap();
    assert_eq!(nodes[0].to_text(), "-11 + 2");
    let nodes = parse("2 + 2 * 3").unwrap();
    assert_eq!(nodes[0].to_text(), "2 + 2 * 3");
}

#[test]
fn test_render_int_min() {
    assert_eq!(Node::Int(i32::MIN).to_text(), "-2147483648");
    assert_eq!(Node::Int(0).to_text(), "0");
}

#[test]
fn test_render_float() {
    let text = Node::Float((2.5f64).to_bits()).to_text();
    assert_eq!(text.parse::<f64>().unwrap(), 2.5);
}
