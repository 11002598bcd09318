//! The expression-tree data model: operators and nodes, with the
//! canonical textual rendering used for debugging and round trips.
use vstd::prelude::*;

use crate::float_bits::{bits_to_decimal_string, f64_decimal_text};
use vstd::string::StringExecFns;

verus! {

/// An arithmetic operator. `Plus` and `Minus` serve both as unary and as
/// binary operators; `Multiply` and `Divide` are binary only.
#[derive(Debug, Clone, Copy, PartialEq, Eq, Structural)]
pub enum Operator {
    Plus,
    Minus,
    Multiply,
    Divide,
}

impl Operator {
    /// Whether the operator may stand in a unary position.
    pub open spec fn is_unary(self) -> bool {
        self == Operator::Plus || self == Operator::Minus
    }

    /// The operator written by the ASCII byte `b`, if any.
    pub open spec fn spec_of_byte(b: u8) -> Option<Operator> {
        if b == 43 {
            Some(Operator::Plus)
        } else if b == 45 {
            Some(Operator::Minus)
        } else if b == 42 {
            Some(Operator::Multiply)
        } else if b == 47 {
            Some(Operator::Divide)
        } else {
            None
        }
    }

    /// The character the operator is written as.
    pub open spec fn spec_symbol(self) -> char {
        match self {
            Operator::Plus => '+',
            Operator::Minus => '-',
            Operator::Multiply => '*',
            Operator::Divide => '/',
        }
    }

    /// The operator's symbol as text, one character long.
    pub fn symbol_str(self) -> (r: &'static str)
        ensures
            r@ =~= seq![self.spec_symbol()],
    {
        proof {
            reveal_strlit("+");
            reveal_strlit("-");
            reveal_strlit("*");
            reveal_strlit("/");
        }
        match self {
            Operator::Plus => "+",
            Operator::Minus => "-",
            Operator::Multiply => "*",
            Operator::Divide => "/",
        }
    }

    /// Reads an operator from its ASCII symbol. Unlike an operator table
    /// that assumes no other byte can reach it, this is total: any other
    /// byte yields `None`.
    pub fn of_byte(b: u8) -> (r: Option<Operator>)
        ensures
            r == Self::spec_of_byte(b),
    {
        if b == 43 {
            Some(Operator::Plus)
        } else if b == 45 {
            Some(Operator::Minus)
        } else if b == 42 {
            Some(Operator::Multiply)
        } else if b == 47 {
            Some(Operator::Divide)
        } else {
            None
        }
    }
}

/// One node of an expression tree. Trees own their children exclusively;
/// there is no sharing and no cycle, so structural recursion over a node
/// always terminates.
///
/// A floating-point literal is carried as the IEEE-754 binary64 bit
/// pattern of its value.
#[derive(Debug, PartialEq)]
pub enum Node {
    Int(i32),
    Float(u64),
    UnaryExpr { op: Operator, child: Box<Node> },
    BinaryExpr { op: Operator, lhs: Box<Node>, rhs: Box<Node> },
}

impl Node {
    /// The data model's invariant: a unary node carries `Plus` or
    /// `Minus`, never `Multiply` or `Divide`. The parser only builds
    /// such trees.
    pub open spec fn wf(self) -> bool
        decreases self,
    {
        match self {
            Node::Int(_) => true,
            Node::Float(_) => true,
            Node::UnaryExpr { op, child } => op.is_unary() && (*child).wf(),
            Node::BinaryExpr { op, lhs, rhs } => (*lhs).wf() && (*rhs).wf(),
        }
    }
}

/// The decimal digit characters, indexed by value.
pub open spec fn spec_digit_char(d: int) -> char {
    if d == 0 {
        '0'
    } else if d == 1 {
        '1'
    } else if d == 2 {
        '2'
    } else if d == 3 {
        '3'
    } else if d == 4 {
        '4'
    } else if d == 5 {
        '5'
    } else if d == 6 {
        '6'
    } else if d == 7 {
        '7'
    } else if d == 8 {
        '8'
    } else {
        '9'
    }
}

/// The decimal text of a nonnegative number.
pub open spec fn spec_nat_text(v: int) -> Seq<char>
    recommends
        v >= 0,
    decreases v,
{
    if v < 10 {
        seq![spec_digit_char(v)]
    } else {
        spec_nat_text(v / 10).push(spec_digit_char(v % 10))
    }
}

/// The decimal text of an integer, with a leading `-` when negative.
pub open spec fn spec_int_text(v: int) -> Seq<char> {
    if v < 0 {
        seq!['-'] + spec_nat_text(-v)
    } else {
        spec_nat_text(v)
    }
}

/// The canonical text of a tree: literals render as their decimal
/// text, a unary node as its operator directly followed by its child,
/// a binary node as its operands around its operator with single
/// spaces. No parentheses are reinserted: under the left-fold grammar
/// the flat operator/operand order already determines re-evaluation.
pub open spec fn spec_render(n: Node) -> Seq<char>
    decreases n,
{
    match n {
        Node::Int(v) => spec_int_text(v as int),
        Node::Float(bits) => f64_decimal_text(bits),
        Node::UnaryExpr { op, child } => seq![op.spec_symbol()] + spec_render(*child),
        Node::BinaryExpr { op, lhs, rhs } => spec_render(*lhs) + seq![' '] + seq![
            op.spec_symbol(),
        ] + seq![' '] + spec_render(*rhs),
    }
}

/// One digit's text.
fn digit_str(d: u32) -> (r: &'static str)
    requires
        d < 10,
    ensures
        r@ =~= seq![spec_digit_char(d as int)],
{
    proof {
        reveal_strlit("0");
        reveal_strlit("1");
        reveal_strlit("2");
        reveal_strlit("3");
        reveal_strlit("4");
        reveal_strlit("5");
        reveal_strlit("6");
        reveal_strlit("7");
        reveal_strlit("8");
        reveal_strlit("9");
    }
    if d == 0 {
        "0"
    } else if d == 1 {
        "1"
    } else if d == 2 {
        "2"
    } else if d == 3 {
        "3"
    } else if d == 4 {
        "4"
    } else if d == 5 {
        "5"
    } else if d == 6 {
        "6"
    } else if d == 7 {
        "7"
    } else if d == 8 {
        "8"
    } else {
        "9"
    }
}

/// The decimal text of `v`, as `spec_nat_text` says.
fn nat_text(v: u32) -> (r: String)
    ensures
        r@ == spec_nat_text(v as int),
    decreases v,
{
    if v < 10 {
        String::from_str(digit_str(v))
    } else {
        let mut s = nat_text(v / 10);
        s.append(digit_str(v % 10));
        proof {
            assert(spec_nat_text((v / 10) as int).push(spec_digit_char((v % 10) as int))
                =~= spec_nat_text((v / 10) as int) + seq![spec_digit_char((v % 10) as int)]);
        }
        s
    }
}

impl Node {
    /// The canonical text of this tree, as `spec_render` says.
    pub fn to_text(&self) -> (r: String)
        ensures
            r@ == spec_render(*self),
        decreases *self,
    {
        match self {
            Node::Int(v) => {
                let mag: u32 = if *v >= 0 {
                    *v as u32
                } else {
                    (-(*v as i64)) as u32
                };
                if *v < 0 {
                    proof {
                        reveal_strlit("-");
                    }
                    let mut s = String::from_str("-");
                    let tail = nat_text(mag);
                    s.append(tail.as_str());
                    proof {
                        assert(s@ =~= spec_int_text(*v as int));
                    }
                    s
                } else {
                    nat_text(mag)
                }
            },
            Node::Float(bits) => bits_to_decimal_string(*bits),
            Node::UnaryExpr { op, child } => {
                let mut s = String::from_str(op.symbol_str());
                let tail = child.to_text();
                s.append(tail.as_str());
                proof {
                    assert(s@ =~= spec_render(*self));
                }
                s
            },
            Node::BinaryExpr { op, lhs, rhs } => {
                proof {
                    reveal_strlit(" ");
                }
                let mut s = lhs.to_text();
                s.append(" ");
                s.append(op.symbol_str());
                s.append(" ");
                let tail = rhs.to_text();
                s.append(tail.as_str());
                proof {
                    assert(s@ =~= spec_render(*self));
                }
                s
            },
        }
    }
}

} // verus!
