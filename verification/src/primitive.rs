//! The runtime value type and its mixed-kind arithmetic table.
use vstd::prelude::*;

use crate::ast::Operator;
use crate::errors::RuntimeError;
use crate::float_bits::{
    f64_add, f64_sub, f64_mul, f64_div, f64_neg, f64_from_i32, add_bits, sub_bits, mul_bits,
    div_bits, i32_to_bits,
};
use vstd::arithmetic::div_mod::{lemma_div_basics, lemma_div_is_ordered, lemma_div_is_ordered_by_denominator, lemma_div_nonincreasing};
use vstd::wrapping::i32_specs;

verus! {

/// A runtime value: a 32-bit signed integer or an IEEE-754 binary64
/// double held as its bit pattern. Values are immutable; arithmetic
/// builds new values and never mutates an operand.
#[derive(Debug, Clone, Copy, PartialEq, Eq, Structural)]
pub enum PrimitiveType {
    Int(i32),
    Float(u64),
}

/// The double that a value is widened to when it meets a `Float`
/// operand: a `Float` keeps its bits, an `Int` is converted exactly.
pub open spec fn spec_widen_bits(v: PrimitiveType) -> u64 {
    match v {
        PrimitiveType::Int(x) => f64_from_i32(x),
        PrimitiveType::Float(b) => b,
    }
}

/// Truncating integer division (round toward zero), written over the
/// sign cases of the operands. Requires `d != 0`.
pub open spec fn spec_trunc_div(x: int, d: int) -> int
    recommends
        d != 0,
{
    if x == 0 {
        0
    } else if x > 0 && d > 0 {
        x / d
    } else if x < 0 && d < 0 {
        (x * -1) / (d * -1)
    } else if x < 0 {
        ((x * -1) / d) * -1
    } else {
        (x / (d * -1)) * -1
    }
}

/// 32-bit division with truncation toward zero and wrapping on the one
/// overflowing case, `i32::MIN / -1`, which yields `i32::MIN`.
pub open spec fn spec_wrap_div_i32(x: i32, d: i32) -> i32
    recommends
        d != 0,
{
    if x == i32::MIN && d == -1 {
        i32::MIN
    } else {
        spec_trunc_div(x as int, d as int) as i32
    }
}

/// The binary64 bit pattern produced by applying `op` to two doubles.
pub open spec fn spec_float_binop(op: Operator, a: u64, b: u64) -> u64 {
    match op {
        Operator::Plus => f64_add(a, b),
        Operator::Minus => f64_sub(a, b),
        Operator::Multiply => f64_mul(a, b),
        Operator::Divide => f64_div(a, b),
    }
}

/// The arithmetic table over `(kind, kind)` pairs. Two `Int`s stay
/// `Int`, with wrapping 32-bit semantics and truncating division; any
/// `Float` operand widens the other operand to binary64 and the result
/// is a `Float`. The only failure is integer division by zero; float
/// division by zero follows IEEE-754 and succeeds.
pub open spec fn spec_binop(op: Operator, a: PrimitiveType, b: PrimitiveType) -> Result<
    PrimitiveType,
    RuntimeError,
> {
    match (a, b) {
        (PrimitiveType::Int(x), PrimitiveType::Int(y)) => match op {
            Operator::Plus => Ok(PrimitiveType::Int(i32_specs::wrapping_add(x, y))),
            Operator::Minus => Ok(PrimitiveType::Int(i32_specs::wrapping_sub(x, y))),
            Operator::Multiply => Ok(PrimitiveType::Int(i32_specs::wrapping_mul(x, y))),
            Operator::Divide => if y == 0 {
                Err(RuntimeError::DivisionByZero)
            } else {
                Ok(PrimitiveType::Int(spec_wrap_div_i32(x, y)))
            },
        },
        _ => Ok(
            PrimitiveType::Float(spec_float_binop(op, spec_widen_bits(a), spec_widen_bits(b))),
        ),
    }
}

/// Negation preserves the operand's kind: an `Int` is negated with
/// wrapping 32-bit semantics, a `Float` has its sign bit flipped.
pub open spec fn spec_neg(v: PrimitiveType) -> PrimitiveType {
    match v {
        PrimitiveType::Int(x) => PrimitiveType::Int(i32_specs::wrapping_sub(0i32, x)),
        PrimitiveType::Float(b) => PrimitiveType::Float(f64_neg(b)),
    }
}

impl PrimitiveType {
    /// The widening of this value to binary64 bits, as `spec_widen_bits`
    /// says.
    fn widen_bits(self) -> (r: u64)
        ensures
            r == spec_widen_bits(self),
    {
        match self {
            PrimitiveType::Int(x) => i32_to_bits(x),
            PrimitiveType::Float(b) => b,
        }
    }

    /// Addition per the arithmetic table; never fails.
    pub fn add(self, rhs: Self) -> (r: Self)
        ensures
            spec_binop(Operator::Plus, self, rhs) == Ok::<PrimitiveType, RuntimeError>(r),
    {
        match (self, rhs) {
            (PrimitiveType::Int(x), PrimitiveType::Int(y)) => PrimitiveType::Int(x.wrapping_add(y)),
            _ => PrimitiveType::Float(add_bits(self.widen_bits(), rhs.widen_bits())),
        }
    }

    /// Subtraction per the arithmetic table; never fails.
    pub fn sub(self, rhs: Self) -> (r: Self)
        ensures
            spec_binop(Operator::Minus, self, rhs) == Ok::<PrimitiveType, RuntimeError>(r),
    {
        match (self, rhs) {
            (PrimitiveType::Int(x), PrimitiveType::Int(y)) => PrimitiveType::Int(x.wrapping_sub(y)),
            _ => PrimitiveType::Float(sub_bits(self.widen_bits(), rhs.widen_bits())),
        }
    }

    /// Multiplication per the arithmetic table; never fails.
    pub fn mul(self, rhs: Self) -> (r: Self)
        ensures
            spec_binop(Operator::Multiply, self, rhs) == Ok::<PrimitiveType, RuntimeError>(r),
    {
        match (self, rhs) {
            (PrimitiveType::Int(x), PrimitiveType::Int(y)) => PrimitiveType::Int(x.wrapping_mul(y)),
            _ => PrimitiveType::Float(mul_bits(self.widen_bits(), rhs.widen_bits())),
        }
    }

    /// Division per the arithmetic table. Fails exactly on two `Int`
    /// operands with divisor zero; float division by zero follows
    /// IEEE-754 and succeeds.
    pub fn div(self, rhs: Self) -> (r: Result<Self, RuntimeError>)
        ensures
            r == spec_binop(Operator::Divide, self, rhs),
    {
        match (self, rhs) {
            (PrimitiveType::Int(x), PrimitiveType::Int(y)) => {
                if y == 0 {
                    Err(RuntimeError::DivisionByZero)
                } else {
                    Ok(PrimitiveType::Int(div_i32_trunc_wrap(x, y)))
                }
            },
            _ => Ok(PrimitiveType::Float(div_bits(self.widen_bits(), rhs.widen_bits()))),
        }
    }

    /// Unary negation, as `spec_neg` says; the operand's kind is kept.
    pub fn neg(self) -> (r: Self)
        ensures
            r == spec_neg(self),
    {
        match self {
            PrimitiveType::Int(x) => PrimitiveType::Int(0i32.wrapping_sub(x)),
            PrimitiveType::Float(b) => PrimitiveType::Float(b ^ 0x8000_0000_0000_0000u64),
        }
    }

    /// The result of applying `op` to `self` and `rhs`, dispatching over
    /// the arithmetic table.
    pub fn apply_binary(self, op: Operator, rhs: Self) -> (r: Result<Self, RuntimeError>)
        ensures
            r == spec_binop(op, self, rhs),
    {
        match op {
            Operator::Plus => Ok(self.add(rhs)),
            Operator::Minus => Ok(self.sub(rhs)),
            Operator::Multiply => Ok(self.mul(rhs)),
            Operator::Divide => self.div(rhs),
        }
    }
}

impl From<i32> for PrimitiveType {
    /// An `i32` converts to the `Int` value that holds it.
    fn from(n: i32) -> (r: Self)
        ensures
            r == PrimitiveType::Int(n),
    {
        PrimitiveType::Int(n)
    }
}

impl vstd::std_specs::convert::FromSpecImpl<i32> for PrimitiveType {
    open spec fn obeys_from_spec() -> bool {
        true
    }

    open spec fn from_spec(n: i32) -> Self {
        PrimitiveType::Int(n)
    }
}

/// Numeric promotion, for each of the four operators: two `Int`
/// operands produce an `Int` (except division by zero, which is the
/// arithmetic table's one error); when a `Float` meets an `Int`, the
/// `Int` is widened exactly to binary64 and the result is the `Float`
/// of the corresponding binary64 operation on the widened operands;
/// two `Float`s likewise stay `Float`.
pub proof fn lemma_numeric_promotion(op: Operator, a: i32, b: i32, x: u64, y: u64)
    ensures
        op == Operator::Divide && b == 0 ==> spec_binop(
            op,
            PrimitiveType::Int(a),
            PrimitiveType::Int(b),
        ) == Err::<PrimitiveType, RuntimeError>(RuntimeError::DivisionByZero),
        !(op == Operator::Divide && b == 0) ==> (spec_binop(
            op,
            PrimitiveType::Int(a),
            PrimitiveType::Int(b),
        ) matches Ok(v) && v is Int),
        spec_binop(op, PrimitiveType::Int(a), PrimitiveType::Float(y)) == Ok::<
            PrimitiveType,
            RuntimeError,
        >(PrimitiveType::Float(spec_float_binop(op, f64_from_i32(a), y))),
        spec_binop(op, PrimitiveType::Float(x), PrimitiveType::Int(b)) == Ok::<
            PrimitiveType,
            RuntimeError,
        >(PrimitiveType::Float(spec_float_binop(op, x, f64_from_i32(b)))),
        spec_binop(op, PrimitiveType::Float(x), PrimitiveType::Float(y)) == Ok::<
            PrimitiveType,
            RuntimeError,
        >(PrimitiveType::Float(spec_float_binop(op, x, y))),
{
}

/// 32-bit truncating division with the single overflow case wrapped,
/// computed over the operands' absolute values.
fn div_i32_trunc_wrap(x: i32, d: i32) -> (q: i32)
    requires
        d != 0,
    ensures
        q == spec_wrap_div_i32(x, d),
{
    let xa: u32 = if x >= 0 {
        x as u32
    } else {
        (-(x as i64)) as u32
    };
    let da: u32 = if d >= 0 {
        d as u32
    } else {
        (-(d as i64)) as u32
    };
    let qa: u32 = xa / da;
    proof {
        let xi = x as int;
        let di = d as int;
        let xai = xa as int;
        let dai = da as int;
        lemma_div_nonincreasing(xai, dai);
        lemma_div_basics(xai);
        assert(qa == xai / dai);
        if qa == 0x8000_0000u32 {
            // A quotient of 2^31 forces |x| == 2^31 and |d| == 1, that
            // is the one wrapping case i32::MIN / -1.
            if dai >= 2 {
                lemma_div_is_ordered_by_denominator(xai, 2, dai);
                lemma_div_is_ordered(xai, 0x8000_0000, 2);
                assert(false);
            }
            assert(dai == 1);
            assert(xai == 0x8000_0000);
            assert(x == i32::MIN && (d == 1 || d == -1));
        }
    }
    if (x < 0) != (d < 0) {
        if qa == 0x8000_0000u32 {
            i32::MIN
        } else {
            -(qa as i32)
        }
    } else {
        if qa == 0x8000_0000u32 {
            // only reachable for i32::MIN / -1, which wraps
            i32::MIN
        } else {
            qa as i32
        }
    }
}

} // verus!
