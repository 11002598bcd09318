//! Parsing source text into expression trees.
//!
//! The grammar, over ASCII text (any other byte is rejected):
//!
//! ```text
//! Program    := Expr*
//! Expr       := (UnaryExpr | Term) (Operator Term)*
//! UnaryExpr  := ('+' | '-') Term
//! Term       := IntLiteral | FloatLiteral | '(' Expr ')'
//! ```
//!
//! Binary chains fold strictly left to right regardless of operator:
//! each further `(op, term)` pair wraps the tree built so far as the new
//! left operand, so `2 + 2 * 3` parses as `(2 + 2) * 3`. This flat fold
//! is the language's documented behaviour and is kept as it is.
//!
//! The spec-level functions below are the grammar's definition; the
//! executable tokenizer and parser are proved to return exactly what
//! they say, including which `ParseError` comes on which input.
use vstd::prelude::*;

use crate::ast::{Node, Operator};
use crate::errors::ParseError;
use crate::float_bits::{
    all_digit_bytes, f64_from_decimal, is_decimal_literal, is_digit_byte, decimal_to_bits,
};
use vstd::string::StringSliceAdditionalSpecFns;

verus! {

/// What one token is.
#[derive(Debug, Clone, Copy, PartialEq, Eq, Structural)]
pub enum TokenKind {
    /// An arithmetic operator symbol.
    Op(Operator),
    LParen,
    RParen,
    /// An integer literal's value.
    IntLit(i32),
    /// A float literal's value, as IEEE-754 binary64 bits.
    FloatLit(u64),
}

/// One token and the byte offset where it starts.
#[derive(Debug, Clone, Copy, PartialEq, Eq, Structural)]
pub struct Token {
    pub kind: TokenKind,
    pub pos: usize,
}

/// An ASCII space, tab, carriage return or line feed.
pub open spec fn is_space_byte(b: u8) -> bool {
    b == 32 || b == 9 || b == 10 || b == 13
}

/// The single-byte token written by `b`, if any.
pub open spec fn spec_symbol_kind(b: u8) -> Option<TokenKind> {
    match Operator::spec_of_byte(b) {
        Some(op) => Some(TokenKind::Op(op)),
        None => if b == 40 {
            Some(TokenKind::LParen)
        } else if b == 41 {
            Some(TokenKind::RParen)
        } else {
            None
        },
    }
}

/// How many consecutive ASCII digits stand at position `i`.
pub open spec fn spec_digits_len(s: Seq<u8>, i: int) -> nat
    decreases s.len() - i,
{
    if 0 <= i < s.len() && is_digit_byte(s[i]) {
        1 + spec_digits_len(s, i + 1)
    } else {
        0
    }
}

/// The position just past the run of ASCII digits starting at `i`
/// (never past the end of `s`).
pub open spec fn spec_digits_end(s: Seq<u8>, i: int) -> int {
    let e = i + spec_digits_len(s, i);
    if e > s.len() {
        s.len() as int
    } else {
        e
    }
}

/// The value of the decimal digits of `s` in `[i, j)`.
pub open spec fn spec_digits_value(s: Seq<u8>, i: int, j: int) -> int
    decreases j - i,
{
    if i >= j {
        0
    } else {
        spec_digits_value(s, i, j - 1) * 10 + (s[j - 1] - 48)
    }
}

/// A digit run's value is nonnegative.
pub proof fn lemma_digits_value_nonneg(s: Seq<u8>, i: int, j: int)
    requires
        all_digit_bytes(s, i, j),
    ensures
        spec_digits_value(s, i, j) >= 0,
    decreases j - i,
{
    if i < j {
        lemma_digits_value_nonneg(s, i, j - 1);
    }
}

/// The token sequence of the bytes of `s` from position `i` on.
/// Whitespace separates tokens and is skipped; an operator symbol or a
/// parenthesis is one token; a digit starts a number, which is a float
/// literal exactly when the digit run is followed by a `.` and at least
/// one further digit; any other byte is an error. A number's digits are
/// consumed greedily, an integer literal must fit in `i32`, and a `.`
/// not followed by a digit is malformed.
pub open spec fn spec_tokenize_from(s: Seq<u8>, i: int) -> Result<Seq<Token>, ParseError>
    decreases s.len() - i,
{
    if i < 0 || i >= s.len() {
        Ok(Seq::<Token>::empty())
    } else {
        let b = s[i];
        if is_space_byte(b) {
            spec_tokenize_from(s, i + 1)
        } else {
            match spec_symbol_kind(b) {
                Some(kind) => match spec_tokenize_from(s, i + 1) {
                    Ok(rest) => Ok(seq![Token { kind, pos: i as usize }] + rest),
                    Err(e) => Err(e),
                },
                None => if is_digit_byte(b) {
                    let j = spec_digits_end(s, i);
                    if j < s.len() && s[j] == 46 {
                        if j + 1 < s.len() && is_digit_byte(s[j + 1]) {
                            let k = spec_digits_end(s, j + 1);
                            let bits = f64_from_decimal(s.subrange(i, k));
                            match spec_tokenize_from(s, k) {
                                Ok(rest) => Ok(
                                    seq![Token { kind: TokenKind::FloatLit(bits), pos: i as usize }]
                                        + rest,
                                ),
                                Err(e) => Err(e),
                            }
                        } else {
                            Err(ParseError::MalformedNumber { pos: j as usize })
                        }
                    } else {
                        let v = spec_digits_value(s, i, j);
                        if v > i32::MAX {
                            Err(ParseError::IntOutOfRange { pos: i as usize })
                        } else {
                            match spec_tokenize_from(s, j) {
                                Ok(rest) => Ok(
                                    seq![
                                        Token {
                                            kind: TokenKind::IntLit(v as i32),
                                            pos: i as usize,
                                        },
                                    ] + rest,
                                ),
                                Err(e) => Err(e),
                            }
                        }
                    }
                } else {
                    Err(ParseError::InvalidCharacter { pos: i as usize })
                },
            }
        }
    }
}

/// A position that has advanced past `i` but not past `n`: results of
/// the parsing functions always lie there, and routing them through
/// this clamp makes the mutual recursion's termination plain.
pub open spec fn spec_advance(j: int, i: int, n: int) -> int
    recommends
        i < n,
{
    if j < i + 1 {
        i + 1
    } else if j > n {
        n
    } else {
        j
    }
}

/// The operator a token stands for, if it is an operator token.
pub open spec fn spec_op_of_token(k: TokenKind) -> Option<Operator> {
    match k {
        TokenKind::Op(op) => Some(op),
        _ => None,
    }
}

/// A term: an integer literal, a float literal, or a parenthesized
/// expression. Yields the node and the position just past it.
pub open spec fn spec_parse_term(toks: Seq<Token>, i: int) -> Result<(Node, int), ParseError>
    decreases toks.len() - i, 1int,
{
    if i < 0 || i >= toks.len() {
        Err(ParseError::UnexpectedEnd)
    } else {
        match toks[i].kind {
            TokenKind::IntLit(v) => Ok((Node::Int(v), i + 1)),
            TokenKind::FloatLit(b) => Ok((Node::Float(b), i + 1)),
            TokenKind::LParen => match spec_parse_expr(toks, i + 1) {
                Ok(res) => {
                    let j = res.1;
                    if 0 <= j < toks.len() && toks[j].kind == TokenKind::RParen {
                        Ok((res.0, j + 1))
                    } else if 0 <= j < toks.len() {
                        Err(ParseError::ExpectedClosingParen { pos: toks[j].pos })
                    } else {
                        Err(ParseError::UnexpectedEnd)
                    }
                },
                Err(e) => Err(e),
            },
            _ => Err(ParseError::ExpectedTerm { pos: toks[i].pos }),
        }
    }
}

/// A term, possibly preceded by a unary `+` or `-`.
pub open spec fn spec_parse_unary_or_term(toks: Seq<Token>, i: int) -> Result<
    (Node, int),
    ParseError,
>
    decreases toks.len() - i, 2int,
{
    if 0 <= i < toks.len() && (toks[i].kind == TokenKind::Op(Operator::Plus) || toks[i].kind
        == TokenKind::Op(Operator::Minus)) {
        let op = if toks[i].kind == TokenKind::Op(Operator::Minus) {
            Operator::Minus
        } else {
            Operator::Plus
        };
        match spec_parse_term(toks, i + 1) {
            Ok(res) => Ok((Node::UnaryExpr { op, child: Box::new(res.0) }, res.1)),
            Err(e) => Err(e),
        }
    } else {
        spec_parse_term(toks, i)
    }
}

/// The left-to-right fold of `(operator, term)` pairs onto the tree
/// built so far: while an operator token follows, the tree becomes the
/// left operand of a new binary node whose right operand is the next
/// term. (The index passed onward is bumped if a result did not
/// advance, which proves termination; a term always advances, so the
/// bump never fires.)
pub open spec fn spec_parse_chain(toks: Seq<Token>, i: int, acc: Node) -> Result<
    (Node, int),
    ParseError,
>
    decreases toks.len() - i, 0int,
{
    if 0 <= i < toks.len() && spec_op_of_token(toks[i].kind) is Some {
        let op = match spec_op_of_token(toks[i].kind) {
            Some(op) => op,
            None => Operator::Plus,
        };
        match spec_parse_term(toks, i + 1) {
            Ok(res) => spec_parse_chain(
                toks,
                spec_advance(res.1, i, toks.len() as int),
                Node::BinaryExpr { op, lhs: Box::new(acc), rhs: Box::new(res.0) },
            ),
            Err(e) => Err(e),
        }
    } else {
        Ok((acc, i))
    }
}

/// One expression: a unary or plain term, then the left-to-right fold
/// of any following `(operator, term)` pairs.
pub open spec fn spec_parse_expr(toks: Seq<Token>, i: int) -> Result<(Node, int), ParseError>
    decreases toks.len() - i, 3int,
{
    if i < 0 || i >= toks.len() {
        Err(ParseError::UnexpectedEnd)
    } else {
        match spec_parse_unary_or_term(toks, i) {
            Ok(res) => spec_parse_chain(toks, spec_advance(res.1, i, toks.len() as int), res.0),
            Err(e) => Err(e),
        }
    }
}

/// A program: expressions until the tokens run out, in source order.
pub open spec fn spec_parse_program(toks: Seq<Token>, i: int) -> Result<Seq<Node>, ParseError>
    decreases toks.len() - i,
{
    if i < 0 || i >= toks.len() {
        Ok(Seq::<Node>::empty())
    } else {
        match spec_parse_expr(toks, i) {
            Ok(res) => match spec_parse_program(
                toks,
                spec_advance(res.1, i, toks.len() as int),
            ) {
                Ok(rest) => Ok(seq![res.0] + rest),
                Err(e) => Err(e),
            },
            Err(e) => Err(e),
        }
    }
}

/// What `parse` returns on a source text whose UTF-8 bytes are `s`:
/// tokenize, then parse the token sequence as a program.
pub open spec fn spec_parse(s: Seq<u8>) -> Result<Seq<Node>, ParseError> {
    match spec_tokenize_from(s, 0) {
        Ok(toks) => spec_parse_program(toks, 0),
        Err(e) => Err(e),
    }
}

/// A term's tree, when one parses, satisfies the data-model invariant.
proof fn lemma_parse_term_wf(toks: Seq<Token>, i: int)
    ensures
        spec_parse_term(toks, i) matches Ok(res) ==> res.0.wf(),
    decreases toks.len() - i, 1int,
{
    if 0 <= i < toks.len() {
        match toks[i].kind {
            TokenKind::LParen => lemma_parse_expr_wf(toks, i + 1),
            _ => {},
        }
    }
}

/// A unary-or-term tree, when one parses, satisfies the invariant: a
/// unary node is only ever built from `+` or `-`.
proof fn lemma_parse_unary_or_term_wf(toks: Seq<Token>, i: int)
    ensures
        spec_parse_unary_or_term(toks, i) matches Ok(res) ==> res.0.wf(),
    decreases toks.len() - i, 2int,
{
    if 0 <= i < toks.len() && (toks[i].kind == TokenKind::Op(Operator::Plus) || toks[i].kind
        == TokenKind::Op(Operator::Minus)) {
        lemma_parse_term_wf(toks, i + 1);
    } else {
        if i <= toks.len() {
            lemma_parse_term_wf(toks, i);
        }
    }
}

/// The fold keeps the invariant: a binary node of well-formed operands
/// is well-formed.
proof fn lemma_parse_chain_wf(toks: Seq<Token>, i: int, acc: Node)
    requires
        acc.wf(),
    ensures
        spec_parse_chain(toks, i, acc) matches Ok(res) ==> res.0.wf(),
    decreases toks.len() - i, 0int,
{
    if 0 <= i < toks.len() && spec_op_of_token(toks[i].kind) is Some {
        let op = match spec_op_of_token(toks[i].kind) {
            Some(op) => op,
            None => Operator::Plus,
        };
        lemma_parse_term_wf(toks, i + 1);
        match spec_parse_term(toks, i + 1) {
            Ok(res) => {
                lemma_parse_chain_wf(
                    toks,
                    spec_advance(res.1, i, toks.len() as int),
                    Node::BinaryExpr { op, lhs: Box::new(acc), rhs: Box::new(res.0) },
                );
            },
            Err(_) => {},
        }
    }
}

/// An expression's tree, when one parses, satisfies the invariant.
proof fn lemma_parse_expr_wf(toks: Seq<Token>, i: int)
    ensures
        spec_parse_expr(toks, i) matches Ok(res) ==> res.0.wf(),
    decreases toks.len() - i, 3int,
{
    if 0 <= i < toks.len() {
        lemma_parse_unary_or_term_wf(toks, i);
        match spec_parse_unary_or_term(toks, i) {
            Ok(res) => {
                lemma_parse_chain_wf(toks, spec_advance(res.1, i, toks.len() as int), res.0);
            },
            Err(_) => {},
        }
    }
}

/// Every tree of a parsed program satisfies the invariant.
proof fn lemma_parse_program_wf(toks: Seq<Token>, i: int)
    ensures
        spec_parse_program(toks, i) matches Ok(ns) ==> forall|k: int|
            0 <= k < ns.len() ==> (#[trigger] ns[k]).wf(),
    decreases toks.len() - i,
{
    if 0 <= i < toks.len() {
        lemma_parse_expr_wf(toks, i);
        match spec_parse_expr(toks, i) {
            Ok(res) => {
                let j = spec_advance(res.1, i, toks.len() as int);
                lemma_parse_program_wf(toks, j);
                match spec_parse_program(toks, j) {
                    Ok(rest) => {
                        assert forall|k: int| 0 <= k < (seq![res.0] + rest).len() implies (
                        #[trigger] (seq![res.0] + rest)[k]).wf() by {
                            if k > 0 {
                                assert((seq![res.0] + rest)[k] == rest[k - 1]);
                            }
                        }
                    },
                    Err(_) => {},
                }
            },
            Err(_) => {},
        }
    }
}

/// The parser only builds trees that satisfy the data-model invariant:
/// whatever text it accepts, every unary node of the result carries
/// `+` or `-`, recursively.
pub proof fn lemma_parse_wf(bytes: Seq<u8>)
    ensures
        spec_parse(bytes) matches Ok(ns) ==> forall|k: int|
            0 <= k < ns.len() ==> (#[trigger] ns[k]).wf(),
{
    match spec_tokenize_from(bytes, 0) {
        Ok(toks) => lemma_parse_program_wf(toks, 0),
        Err(_) => {},
    }
}

/// An ASCII digit test, as `is_digit_byte` says.
fn is_digit(b: u8) -> (r: bool)
    ensures
        r == is_digit_byte(b),
{
    b >= 48 && b <= 57
}

/// The single-byte token written by `b`, as `spec_symbol_kind` says.
fn symbol_kind(b: u8) -> (r: Option<TokenKind>)
    ensures
        r == spec_symbol_kind(b),
{
    match Operator::of_byte(b) {
        Some(op) => Some(TokenKind::Op(op)),
        None => {
            if b == 40 {
                Some(TokenKind::LParen)
            } else if b == 41 {
                Some(TokenKind::RParen)
            } else {
                None
            }
        },
    }
}

/// Scans the run of digits starting at `start`, returning the position
/// just past it, as `spec_digits_end` says.
fn scan_digits(s: &[u8], start: usize) -> (j: usize)
    requires
        start <= s@.len(),
    ensures
        j == spec_digits_end(s@, start as int),
        start <= j <= s@.len(),
        all_digit_bytes(s@, start as int, j as int),
        j < s@.len() ==> !is_digit_byte(s@[j as int]),
{
    let mut j = start;
    while j < s.len() && is_digit(s[j])
        invariant
            start <= j <= s@.len(),
            spec_digits_end(s@, start as int) == spec_digits_end(s@, j as int),
            all_digit_bytes(s@, start as int, j as int),
        decreases s@.len() - j,
    {
        j = j + 1;
    }
    j
}

/// The value of the digits of `s` in `[start, end)` as an `i32`, or
/// `None` when it exceeds `i32::MAX`.
fn digits_to_i32(s: &[u8], start: usize, end: usize) -> (r: Option<i32>)
    requires
        start <= end <= s@.len(),
        all_digit_bytes(s@, start as int, end as int),
    ensures
        match r {
            Some(v) => v == spec_digits_value(s@, start as int, end as int),
            None => spec_digits_value(s@, start as int, end as int) > i32::MAX,
        },
{
    let mut acc: u64 = 0;
    let mut m = start;
    while m < end
        invariant
            start <= m <= end <= s@.len(),
            all_digit_bytes(s@, start as int, end as int),
            acc <= 21474836479,
            acc <= i32::MAX ==> acc == spec_digits_value(s@, start as int, m as int),
            acc > i32::MAX ==> spec_digits_value(s@, start as int, m as int) > i32::MAX,
        decreases end - m,
    {
        proof {
            lemma_digits_value_nonneg(s@, start as int, m as int);
        }
        if acc <= 0x7FFF_FFFFu64 {
            acc = acc * 10 + (s[m] - 48) as u64;
        }
        m = m + 1;
    }
    if acc <= 0x7FFF_FFFFu64 {
        Some(acc as i32)
    } else {
        None
    }
}

/// Splits the bytes of `s` into tokens, exactly as `spec_tokenize_from`
/// from position 0 says.
fn tokenize(s: &[u8]) -> (r: Result<Vec<Token>, ParseError>)
    ensures
        match r {
            Ok(toks) => spec_tokenize_from(s@, 0) == Ok::<Seq<Token>, ParseError>(toks@),
            Err(e) => spec_tokenize_from(s@, 0) == Err::<Seq<Token>, ParseError>(e),
        },
{
    let mut toks: Vec<Token> = Vec::new();
    let mut i: usize = 0;
    while i < s.len()
        invariant
            i <= s@.len(),
            spec_tokenize_from(s@, 0) == (match spec_tokenize_from(s@, i as int) {
                Ok(rest) => Ok::<Seq<Token>, ParseError>(toks@ + rest),
                Err(e) => Err::<Seq<Token>, ParseError>(e),
            }),
        decreases s@.len() - i,
    {
        let b = s[i];
        if b == 32 || b == 9 || b == 10 || b == 13 {
            i = i + 1;
        } else {
            match symbol_kind(b) {
                Some(kind) => {
                    let tok = Token { kind, pos: i };
                    let ghost toks0 = toks@;
                    toks.push(tok);
                    proof {
                        match spec_tokenize_from(s@, i as int + 1) {
                            Ok(rest) => {
                                assert(toks0 + (seq![tok] + rest) =~= toks@ + rest);
                            },
                            Err(_) => {},
                        }
                    }
                    i = i + 1;
                },
                None => {
                    if is_digit(b) {
                        let j = scan_digits(s, i);
                        if j < s.len() && s[j] == 46 {
                            if j + 1 < s.len() && is_digit(s[j + 1]) {
                                let k = scan_digits(s, j + 1);
                                let text = vstd::slice::slice_subrange(s, i, k);
                                proof {
                                    let sub = s@.subrange(i as int, k as int);
                                    assert forall|m: int| 0 <= m < j - i implies is_digit_byte(
                                        #[trigger] sub[m],
                                    ) by {
                                        assert(sub[m] == s@[i + m]);
                                    }
                                    assert forall|m: int| j - i + 1 <= m < sub.len() implies
                                        is_digit_byte(#[trigger] sub[m]) by {
                                        assert(sub[m] == s@[i + m]);
                                    }
                                    assert(sub[j - i] == 46u8);
                                    assert(1 <= j - i <= sub.len() - 2 && sub[j - i] == 46u8
                                        && all_digit_bytes(sub, 0, j - i) && all_digit_bytes(
                                        sub,
                                        j - i + 1,
                                        sub.len() as int,
                                    ));
                                    assert(is_decimal_literal(sub));
                                }
                                let bits = decimal_to_bits(text);
                                let tok = Token { kind: TokenKind::FloatLit(bits), pos: i };
                                let ghost toks0 = toks@;
                                toks.push(tok);
                                proof {
                                    match spec_tokenize_from(s@, k as int) {
                                        Ok(rest) => {
                                            assert(toks0 + (seq![tok] + rest) =~= toks@ + rest);
                                        },
                                        Err(_) => {},
                                    }
                                }
                                i = k;
                            } else {
                                return Err(ParseError::MalformedNumber { pos: j });
                            }
                        } else {
                            match digits_to_i32(s, i, j) {
                                Some(v) => {
                                    let tok = Token { kind: TokenKind::IntLit(v), pos: i };
                                    let ghost toks0 = toks@;
                                    toks.push(tok);
                                    proof {
                                        lemma_digits_value_nonneg(s@, i as int, j as int);
                                        match spec_tokenize_from(s@, j as int) {
                                            Ok(rest) => {
                                                assert(toks0 + (seq![tok] + rest) =~= toks@ + rest);
                                            },
                                            Err(_) => {},
                                        }
                                    }
                                    i = j;
                                },
                                None => {
                                    return Err(ParseError::IntOutOfRange { pos: i });
                                },
                            }
                        }
                    } else {
                        return Err(ParseError::InvalidCharacter { pos: i });
                    }
                },
            }
        }
    }
    Ok(toks)
}

/// A term, as `spec_parse_term` says; on success the returned position
/// has advanced and the node satisfies the tree invariant.
fn parse_term_at(toks: &Vec<Token>, i: usize) -> (r: Result<(Node, usize), ParseError>)
    requires
        i <= toks@.len(),
    ensures
        match r {
            Ok(p) => spec_parse_term(toks@, i as int) == Ok::<(Node, int), ParseError>(
                (p.0, p.1 as int),
            ) && i < p.1 <= toks@.len() && p.0.wf(),
            Err(e) => spec_parse_term(toks@, i as int) == Err::<(Node, int), ParseError>(e),
        },
    decreases toks@.len() - i, 1int,
{
    if i >= toks.len() {
        return Err(ParseError::UnexpectedEnd);
    }
    let t = toks[i];
    match t.kind {
        TokenKind::IntLit(v) => Ok((Node::Int(v), i + 1)),
        TokenKind::FloatLit(b) => Ok((Node::Float(b), i + 1)),
        TokenKind::LParen => {
            let (n, j) = match parse_expr_at(toks, i + 1) {
                Ok(p) => p,
                Err(e) => return Err(e),
            };
            if j < toks.len() {
                if toks[j].kind == TokenKind::RParen {
                    Ok((n, j + 1))
                } else {
                    Err(ParseError::ExpectedClosingParen { pos: toks[j].pos })
                }
            } else {
                Err(ParseError::UnexpectedEnd)
            }
        },
        _ => Err(ParseError::ExpectedTerm { pos: t.pos }),
    }
}

/// A term with an optional leading unary `+` or `-`, as
/// `spec_parse_unary_or_term` says.
fn parse_unary_or_term_at(toks: &Vec<Token>, i: usize) -> (r: Result<(Node, usize), ParseError>)
    requires
        i <= toks@.len(),
    ensures
        match r {
            Ok(p) => spec_parse_unary_or_term(toks@, i as int) == Ok::<(Node, int), ParseError>(
                (p.0, p.1 as int),
            ) && i < p.1 <= toks@.len() && p.0.wf(),
            Err(e) => spec_parse_unary_or_term(toks@, i as int) == Err::<(Node, int), ParseError>(
                e,
            ),
        },
    decreases toks@.len() - i, 2int,
{
    if i < toks.len() && (toks[i].kind == TokenKind::Op(Operator::Plus) || toks[i].kind
        == TokenKind::Op(Operator::Minus)) {
        let op = if toks[i].kind == TokenKind::Op(Operator::Minus) {
            Operator::Minus
        } else {
            Operator::Plus
        };
        let (child, j) = match parse_term_at(toks, i + 1) {
            Ok(p) => p,
            Err(e) => return Err(e),
        };
        Ok((Node::UnaryExpr { op, child: Box::new(child) }, j))
    } else {
        parse_term_at(toks, i)
    }
}

/// The left-to-right operator fold, as `spec_parse_chain` says.
fn parse_chain_at(toks: &Vec<Token>, i: usize, acc: Node) -> (r: Result<
    (Node, usize),
    ParseError,
>)
    requires
        i <= toks@.len(),
        acc.wf(),
    ensures
        match r {
            Ok(p) => spec_parse_chain(toks@, i as int, acc) == Ok::<(Node, int), ParseError>(
                (p.0, p.1 as int),
            ) && i <= p.1 <= toks@.len() && p.0.wf(),
            Err(e) => spec_parse_chain(toks@, i as int, acc) == Err::<(Node, int), ParseError>(e),
        },
    decreases toks@.len() - i, 0int,
{
    if i >= toks.len() {
        return Ok((acc, i));
    }
    let op = match toks[i].kind {
        TokenKind::Op(op) => op,
        _ => {
            return Ok((acc, i));
        },
    };
    let (rhs, j) = match parse_term_at(toks, i + 1) {
        Ok(p) => p,
        Err(e) => return Err(e),
    };
    parse_chain_at(toks, j, Node::BinaryExpr { op, lhs: Box::new(acc), rhs: Box::new(rhs) })
}

/// One expression, as `spec_parse_expr` says.
fn parse_expr_at(toks: &Vec<Token>, i: usize) -> (r: Result<(Node, usize), ParseError>)
    requires
        i <= toks@.len(),
    ensures
        match r {
            Ok(p) => spec_parse_expr(toks@, i as int) == Ok::<(Node, int), ParseError>(
                (p.0, p.1 as int),
            ) && i < p.1 <= toks@.len() && p.0.wf(),
            Err(e) => spec_parse_expr(toks@, i as int) == Err::<(Node, int), ParseError>(e),
        },
    decreases toks@.len() - i, 3int,
{
    let (first, j) = match parse_unary_or_term_at(toks, i) {
        Ok(p) => p,
        Err(e) => return Err(e),
    };
    parse_chain_at(toks, j, first)
}

/// A whole program from tokens, as `spec_parse_program` says.
fn parse_program_tokens(toks: &Vec<Token>) -> (r: Result<Vec<Node>, ParseError>)
    ensures
        match r {
            Ok(nodes) => spec_parse_program(toks@, 0) == Ok::<Seq<Node>, ParseError>(nodes@)
                && (forall|k: int| 0 <= k < nodes@.len() ==> (#[trigger] nodes@[k]).wf()),
            Err(e) => spec_parse_program(toks@, 0) == Err::<Seq<Node>, ParseError>(e),
        },
{
    let mut nodes: Vec<Node> = Vec::new();
    let mut i: usize = 0;
    while i < toks.len()
        invariant
            i <= toks@.len(),
            forall|k: int| 0 <= k < nodes@.len() ==> (#[trigger] nodes@[k]).wf(),
            spec_parse_program(toks@, 0) == (match spec_parse_program(toks@, i as int) {
                Ok(rest) => Ok::<Seq<Node>, ParseError>(nodes@ + rest),
                Err(e) => Err::<Seq<Node>, ParseError>(e),
            }),
        decreases toks@.len() - i,
    {
        let ghost nodes0 = nodes@;
        let (n, j) = match parse_expr_at(toks, i) {
            Ok(p) => p,
            Err(e) => return Err(e),
        };
        let ghost gn = n;
        nodes.push(n);
        proof {
            match spec_parse_program(toks@, j as int) {
                Ok(rest) => {
                    assert(nodes0 + (seq![gn] + rest) =~= nodes@ + rest);
                },
                Err(_) => {},
            }
        }
        i = j;
    }
    proof {
        assert(nodes@ + Seq::<Node>::empty() =~= nodes@);
    }
    Ok(nodes)
}

/// Parses source text into its ordered sequence of top-level expression
/// trees, exactly as `spec_parse` says over the text's UTF-8 bytes; the
/// trees satisfy the data model's invariant. Fails with a `ParseError`
/// on any text the grammar does not generate, with no partial result.
pub fn parse(source: &str) -> (r: Result<Vec<Node>, ParseError>)
    ensures
        match r {
            Ok(nodes) => spec_parse(source.spec_bytes()) == Ok::<Seq<Node>, ParseError>(nodes@)
                && (forall|k: int| 0 <= k < nodes@.len() ==> (#[trigger] nodes@[k]).wf()),
            Err(e) => spec_parse(source.spec_bytes()) == Err::<Seq<Node>, ParseError>(e),
        },
{
    let bytes = source.as_bytes();
    let toks = match tokenize(bytes) {
        Ok(toks) => toks,
        Err(e) => return Err(e),
    };
    parse_program_tokens(&toks)
}

/// The parser's public face, under the name the front ends use.
pub struct CalcParser;

impl CalcParser {
    /// Parses source text, as the free function `parse` does.
    pub fn parse(source: &str) -> (r: Result<Vec<Node>, ParseError>)
        ensures
            match r {
                Ok(nodes) => spec_parse(source.spec_bytes()) == Ok::<Seq<Node>, ParseError>(nodes@)
                    && (forall|k: int| 0 <= k < nodes@.len() ==> (#[trigger] nodes@[k]).wf()),
                Err(e) => spec_parse(source.spec_bytes()) == Err::<Seq<Node>, ParseError>(e),
            },
    {
        crate::parser::parse(source)
    }
}

} // verus!
