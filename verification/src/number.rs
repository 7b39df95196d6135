//! Numbers of the language.
//!
//! A number is an IEEE 754 double, held as its 64-bit pattern: one sign bit,
//! eleven exponent bits, fifty-two fraction bits. Everything the evaluator
//! decides about a number (is it zero, which of two is smaller, which index
//! does it name) is read off the pattern here, in integer arithmetic.
//! Arithmetic that rounds is not done here: it is asked of a `NumberEngine`,
//! which the host supplies.

use vstd::prelude::*;
use vstd::arithmetic::power2::{
    lemma2_to64, lemma2_to64_rest, lemma_pow2_pos, lemma_pow2_strictly_increases, pow2,
};
use vstd::arithmetic::mul::{lemma_mul_inequality, lemma_mul_is_commutative};
use vstd::bits::{lemma_u64_shl_is_mul, lemma_u64_shr_is_div};

verus! {

/// The pattern with only the sign bit set: 2^63.
pub const SIGN_BIT: u64 = 0x8000_0000_0000_0000;

/// The weight of the lowest exponent bit: 2^52.
pub const HIDDEN_BIT: u64 = 0x0010_0000_0000_0000;

/// The pattern of positive infinity. Larger magnitudes are NaNs.
pub const INFINITY_BITS: u64 = 0x7FF0_0000_0000_0000;

/// The pattern of 1.
pub const ONE_BITS: u64 = 0x3FF0_0000_0000_0000;

/// The pattern of 2^-52, the distance from 1 to the next larger number.
pub const EPSILON_BITS: u64 = 0x3CB0_0000_0000_0000;

/// The largest power of two that is not above `n`; 1 for 0.
pub open spec fn leading_power(n: nat) -> nat
    decreases n,
{
    if n <= 1 {
        1
    } else {
        2 * leading_power(n / 2)
    }
}

/// The exponent of the largest power of two that is not above `n`; 0 for 0.
pub open spec fn leading_exponent(n: nat) -> nat
    decreases n,
{
    if n <= 1 {
        0
    } else {
        1 + leading_exponent(n / 2)
    }
}

/// `n` divided by `d` and rounded to the nearest integer, a tie to the even
/// one.
pub open spec fn rounded(n: nat, d: nat) -> nat {
    let q = n / d;
    let rest = n % d;
    if 2 * rest > d || (2 * rest == d && q % 2 == 1) {
        q + 1
    } else {
        q
    }
}

/// The 53 leading binary digits of `n`, as a number from 2^52 up to 2^53:
/// `n` scaled up where it has fewer digits, and rounded where it has more.
pub open spec fn significand(n: nat) -> nat {
    let p = leading_power(n);
    if p <= HIDDEN_BIT {
        n * (HIDDEN_BIT as nat / p)
    } else {
        rounded(n, p / (HIDDEN_BIT as nat))
    }
}

/// The largest power of two that is not above `n` divides 2^52 where it is
/// not above it, and is a multiple of 2^52 where it is; and `n` lies below
/// twice that power.
pub proof fn lemma_leading_power(n: nat)
    requires
        0 < n <= u64::MAX,
    ensures
        leading_power(n) == pow2(leading_exponent(n)),
        leading_power(n) <= n < 2 * leading_power(n),
        leading_exponent(n) <= 63,
        leading_exponent(n) <= 52 ==> leading_power(n) * pow2((52 - leading_exponent(n)) as nat)
            == HIDDEN_BIT && HIDDEN_BIT as nat / leading_power(n) == pow2(
            (52 - leading_exponent(n)) as nat,
        ),
        leading_exponent(n) > 52 ==> leading_power(n) == HIDDEN_BIT * pow2(
            (leading_exponent(n) - 52) as nat,
        ) && leading_power(n) / (HIDDEN_BIT as nat) == pow2((leading_exponent(n) - 52) as nat),
    decreases n,
{
    lemma2_to64();
    lemma2_to64_rest();
    if n > 1 {
        lemma_leading_power(n / 2);
        vstd::arithmetic::power2::lemma_pow2_unfold(leading_exponent(n));
    }
    let k = leading_exponent(n);
    let p = leading_power(n);
    if k >= 64 {
        if k > 64 {
            lemma_pow2_strictly_increases(64, k);
        }
        assert(false);
    }
    if k <= 52 {
        vstd::arithmetic::power2::lemma_pow2_adds(k, (52 - k) as nat);
        lemma_pow2_pos(k);
        vstd::arithmetic::div_mod::lemma_div_by_multiple(pow2((52 - k) as nat) as int, p as int);
        lemma_mul_is_commutative(p as int, pow2((52 - k) as nat) as int);
    } else {
        vstd::arithmetic::power2::lemma_pow2_adds(52, (k - 52) as nat);
        vstd::arithmetic::div_mod::lemma_div_by_multiple(
            pow2((k - 52) as nat) as int,
            HIDDEN_BIT as int,
        );
        lemma_mul_is_commutative(HIDDEN_BIT as int, pow2((k - 52) as nat) as int);
    }
}

/// An integer of at most 53 binary digits survives the trip to a number
/// and back: the number nearest to it is not negative and not NaN, and its
/// whole part is the integer.
pub proof fn law_integer_round_trip(n: nat)
    requires
        n < 0x0020_0000_0000_0000,
    ensures
        !Number::of_integer(n).negative(),
        !Number::of_integer(n).is_nan(),
        !Number::of_integer(n).is_infinite(),
        Number::of_integer(n).whole_part() == n,
        Number::of_integer(n).as_u64() == n,
{
    lemma2_to64();
    lemma2_to64_rest();
    if n > 0 {
        lemma_leading_power(n);
        let k = leading_exponent(n);
        let p = leading_power(n);
        if k > 52 {
            lemma_pow2_strictly_increases(52, k);
        }
        let scale = pow2((52 - k) as nat);
        lemma_pow2_pos((52 - k) as nat);
        let digits = n * scale;
        assert(HIDDEN_BIT <= digits < 2 * HIDDEN_BIT) by (nonlinear_arith)
            requires
                p <= n < 2 * p,
                p * scale == HIDDEN_BIT,
                scale > 0,
                digits == n * scale,
        ;
        let x = Number::of_integer(n);
        let bits = ((1023 + k) * HIDDEN_BIT + digits - HIDDEN_BIT) as int;
        assert((1023 + k) * HIDDEN_BIT == (1023 + k) * 0x0010_0000_0000_0000) by (nonlinear_arith)
            requires
                HIDDEN_BIT == 0x0010_0000_0000_0000,
        ;
        assert(x.bits == bits);
        assert(x.magnitude() == bits);
        assert(x.exponent() == 1023 + k && x.fraction() == digits - HIDDEN_BIT) by {
            vstd::arithmetic::div_mod::lemma_fundamental_div_mod_converse(
                bits,
                HIDDEN_BIT as int,
                (1023 + k) as int,
                (digits - HIDDEN_BIT) as int,
            );
        }
        assert(digits / scale == n) by {
            vstd::arithmetic::div_mod::lemma_div_by_multiple(n as int, scale as int);
        }
    }
}

/// An IEEE 754 double, held as its bit pattern.
#[derive(Clone, Copy, Debug, PartialEq, Eq, Structural)]
pub struct Number {
    pub bits: u64,
}

impl Number {
    /// The pattern without its sign bit.
    pub open spec fn magnitude(self) -> int {
        (self.bits % SIGN_BIT) as int
    }

    /// Whether the sign bit is set.
    pub open spec fn negative(self) -> bool {
        self.bits >= SIGN_BIT
    }

    /// Whether the pattern is not a number.
    pub open spec fn is_nan(self) -> bool {
        self.magnitude() > INFINITY_BITS
    }

    /// Whether the pattern is positive or negative infinity.
    pub open spec fn is_infinite(self) -> bool {
        self.magnitude() == INFINITY_BITS
    }

    /// Whether the number is zero, of either sign.
    pub open spec fn is_zero(self) -> bool {
        self.magnitude() == 0
    }

    /// The place of the number in the order of all numbers: doubles of one
    /// sign are ordered as their magnitudes are, and both zeros share a place.
    pub open spec fn rank(self) -> int {
        if self.negative() {
            -self.magnitude()
        } else {
            self.magnitude()
        }
    }

    /// `self < other`: false whenever either is not a number.
    pub open spec fn less(self, other: Number) -> bool {
        !self.is_nan() && !other.is_nan() && self.rank() < other.rank()
    }

    /// `self <= other`: false whenever either is not a number.
    pub open spec fn less_or_equal(self, other: Number) -> bool {
        !self.is_nan() && !other.is_nan() && self.rank() <= other.rank()
    }

    /// The biased exponent field, 0 to 2047.
    pub open spec fn exponent(self) -> int {
        self.magnitude() / (HIDDEN_BIT as int)
    }

    /// The fraction field.
    pub open spec fn fraction(self) -> int {
        self.magnitude() % (HIDDEN_BIT as int)
    }

    /// The whole part of the absolute value of a finite number: the value is
    /// `(2^52 + fraction) * 2^(exponent - 1075)`, rounded toward zero.
    pub open spec fn whole_part(self) -> nat {
        let e = self.exponent();
        let m = (HIDDEN_BIT + self.fraction()) as nat;
        if e < 1023 {
            0
        } else if e <= 1075 {
            m / pow2((1075 - e) as nat)
        } else {
            m * pow2((e - 1075) as nat)
        }
    }

    /// The number as an unsigned 64-bit integer: rounded toward zero, 0 for
    /// NaN and for negative numbers, the largest integer where it is too big.
    pub open spec fn as_u64(self) -> u64 {
        if self.is_nan() || self.negative() {
            0
        } else if self.is_infinite() || self.whole_part() > u64::MAX {
            u64::MAX
        } else {
            self.whole_part() as u64
        }
    }

    /// The number as an index: as `as_u64`, capped at the largest index.
    pub open spec fn as_index(self) -> usize {
        if self.as_u64() > usize::MAX {
            usize::MAX
        } else {
            self.as_u64() as usize
        }
    }

    /// Whether the number can name a position in a frame or a sequence: it
    /// is not NaN and not below zero. The position is then the number
    /// rounded toward zero.
    pub open spec fn is_position(self) -> bool {
        !self.is_nan() && !self.less(Number { bits: 0 })
    }

    /// Whether the number lies in the half-open interval from 0 to 1: it is
    /// not NaN, not negative, and below 1.
    pub open spec fn in_unit_interval(self) -> bool {
        !self.is_nan() && !self.negative() && self.less(Number { bits: ONE_BITS })
    }

    /// The number as a signed 32-bit integer: rounded toward zero, 0 for NaN,
    /// the nearest bound where it is out of range.
    pub open spec fn as_i32(self) -> i32 {
        if self.is_nan() {
            0
        } else if self.negative() {
            if self.is_infinite() || self.whole_part() > 0x8000_0000 {
                i32::MIN
            } else {
                (-(self.whole_part() as int)) as i32
            }
        } else {
            if self.is_infinite() || self.whole_part() > i32::MAX {
                i32::MAX
            } else {
                self.whole_part() as i32
            }
        }
    }

    /// The number 1 for `true`, 0 for `false`.
    pub open spec fn of_bool(b: bool) -> Number {
        Number {
            bits: if b {
                ONE_BITS
            } else {
                0
            },
        }
    }

    /// The number with its sign bit flipped.
    pub open spec fn opposite(self) -> Number {
        Number {
            bits: if self.bits >= SIGN_BIT {
                (self.bits - SIGN_BIT) as u64
            } else {
                (self.bits + SIGN_BIT) as u64
            },
        }
    }

    /// The number with its sign bit cleared.
    pub open spec fn positive(self) -> Number {
        Number { bits: (self.bits % SIGN_BIT) as u64 }
    }

    /// The number nearest to the integer `n`, a tie going to the number
    /// with the even significand: the value of `n` itself wherever `n` has
    /// at most 53 binary digits.
    pub open spec fn of_integer(n: nat) -> Number {
        if n == 0 {
            Number { bits: 0 }
        } else {
            Number {
                bits: ((1023 + leading_exponent(n)) * HIDDEN_BIT + significand(n) - HIDDEN_BIT) as u64,
            }
        }
    }

    /// The number nearest to the integer `n`.
    pub fn from_integer(n: u64) -> (r: Number)
        ensures
            r == Number::of_integer(n as nat),
    {
        if n == 0 {
            return Number { bits: 0 };
        }
        let mut rest: u64 = n;
        let mut power: u64 = 1;
        let mut exponent: u64 = 0;
        while rest > 1
            invariant
                0 < rest,
                0 < power,
                leading_power(n as nat) == power * leading_power(rest as nat),
                leading_exponent(n as nat) == exponent + leading_exponent(rest as nat),
                power * rest <= n,
                exponent <= 64,
            decreases rest,
        {
            proof {
                lemma_leading_power(n as nat);
                assert(power * 2 <= power * rest) by (nonlinear_arith)
                    requires
                        rest >= 2,
                        power > 0,
                ;
                assert((power * 2) * (rest / 2) <= power * rest) by (nonlinear_arith)
                    requires
                        rest >= 2,
                        power > 0,
                ;
                assert(power * (2 * leading_power((rest / 2) as nat)) == (power * 2) * leading_power(
                    (rest / 2) as nat,
                )) by (nonlinear_arith);
            }
            rest = rest / 2;
            power = power * 2;
            exponent = exponent + 1;
        }
        proof {
            lemma_leading_power(n as nat);
            lemma2_to64();
            lemma2_to64_rest();
            assert(power == leading_power(n as nat)) by (nonlinear_arith)
                requires
                    leading_power(n as nat) == power * 1,
            ;
        }
        let digits: u64 = if power <= HIDDEN_BIT {
            let scale: u64 = HIDDEN_BIT / power;
            proof {
                lemma_pow2_pos((52 - exponent) as nat);
                assert(n * scale < 2 * HIDDEN_BIT) by (nonlinear_arith)
                    requires
                        n < 2 * power,
                        power * scale == HIDDEN_BIT,
                        scale > 0,
                ;
                assert(n * scale >= HIDDEN_BIT) by (nonlinear_arith)
                    requires
                        power <= n,
                        power * scale == HIDDEN_BIT,
                        scale > 0,
                ;
            }
            n * scale
        } else {
            let unit: u64 = power / HIDDEN_BIT;
            proof {
                lemma_pow2_pos((exponent - 52) as nat);
                assert(unit >= 2) by {
                    if exponent > 53 {
                        lemma_pow2_strictly_increases(1, (exponent - 52) as nat);
                    }
                }
                assert(HIDDEN_BIT <= n / unit < 2 * HIDDEN_BIT) by (nonlinear_arith)
                    requires
                        power <= n < 2 * power,
                        power == HIDDEN_BIT * unit,
                        unit > 0,
                        HIDDEN_BIT == 0x0010_0000_0000_0000,
                ;
            }
            let q: u64 = n / unit;
            let r: u64 = n % unit;
            if r > unit - r || (r == unit - r && q % 2 == 1) {
                q + 1
            } else {
                q
            }
        };
        Number { bits: (1023 + exponent) * HIDDEN_BIT + digits - HIDDEN_BIT }
    }

    /// The number 1 for `true`, 0 for `false`.
    pub fn from_bool(b: bool) -> (n: Number)
        ensures
            n == Number::of_bool(b),
    {
        if b {
            Number { bits: ONE_BITS }
        } else {
            Number { bits: 0 }
        }
    }

    /// Whether the number is not a number.
    pub fn nan(self) -> (b: bool)
        ensures
            b == self.is_nan(),
    {
        self.bits % SIGN_BIT > INFINITY_BITS
    }

    /// Whether the number is zero; negative zero is zero too.
    pub fn zero(self) -> (b: bool)
        ensures
            b == self.is_zero(),
    {
        self.bits % SIGN_BIT == 0
    }

    /// `self < other`.
    pub fn less_than(self, other: Number) -> (b: bool)
        ensures
            b == self.less(other),
    {
        if self.nan() || other.nan() {
            return false;
        }
        let a: u64 = self.bits % SIGN_BIT;
        let b: u64 = other.bits % SIGN_BIT;
        if self.bits >= SIGN_BIT {
            if other.bits >= SIGN_BIT {
                a > b
            } else {
                a > 0 || b > 0
            }
        } else {
            if other.bits >= SIGN_BIT {
                false
            } else {
                a < b
            }
        }
    }

    /// `self <= other`.
    pub fn at_most(self, other: Number) -> (b: bool)
        ensures
            b == self.less_or_equal(other),
    {
        if self.nan() || other.nan() {
            return false;
        }
        !other.less_than(self)
    }

    /// `-self`: the same magnitude with the other sign, for NaN too.
    pub fn negated(self) -> (n: Number)
        ensures
            n == self.opposite(),
            n.magnitude() == self.magnitude(),
            n.negative() == !self.negative(),
    {
        if self.bits >= SIGN_BIT {
            Number { bits: self.bits - SIGN_BIT }
        } else {
            Number { bits: self.bits + SIGN_BIT }
        }
    }

    /// The absolute value: the same magnitude with a clear sign bit.
    pub fn absolute(self) -> (n: Number)
        ensures
            n == self.positive(),
            n.magnitude() == self.magnitude(),
            !n.negative(),
    {
        Number { bits: self.bits % SIGN_BIT }
    }

    /// The whole part of the absolute value, capped at `u64::MAX`.
    fn whole(self) -> (w: u64)
        requires
            !self.is_nan(),
        ensures
            self.is_infinite() || self.whole_part() >= u64::MAX ==> w == u64::MAX,
            !(self.is_infinite() || self.whole_part() >= u64::MAX) ==> w == self.whole_part(),
    {
        let mag: u64 = self.bits % SIGN_BIT;
        let e: u64 = mag / HIDDEN_BIT;
        let m: u64 = HIDDEN_BIT + mag % HIDDEN_BIT;
        proof {
            lemma2_to64();
            lemma2_to64_rest();
        }
        if e < 1023 {
            0
        } else if e <= 1075 {
            let shift: u64 = 1075 - e;
            proof {
                lemma_u64_shr_is_div(m, shift);
                lemma_pow2_pos(shift as nat);
            }
            m >> shift
        } else if e < 1087 {
            let shift: u64 = e - 1075;
            proof {
                if shift < 11 {
                    lemma_pow2_strictly_increases(shift as nat, 11);
                }
                lemma_mul_inequality(pow2(shift as nat) as int, pow2(11) as int, m as int);
                lemma_mul_is_commutative(m as int, pow2(shift as nat) as int);
                lemma_mul_is_commutative(m as int, pow2(11) as int);
                assert(m * pow2(11) <= 0x1F_FFFF_FFFF_FFFF * 0x800) by {
                    lemma_mul_inequality(m as int, 0x1F_FFFF_FFFF_FFFF, pow2(11) as int);
                }
                lemma_u64_shl_is_mul(m, shift);
            }
            m << shift
        } else {
            proof {
                if !self.is_infinite() {
                    let k = (e - 1075) as nat;
                    if k > 12 {
                        lemma_pow2_strictly_increases(12, k);
                    }
                    assert(pow2(k) >= pow2(12));
                    lemma_mul_inequality(pow2(12) as int, pow2(k) as int, m as int);
                    lemma_mul_is_commutative(m as int, pow2(k) as int);
                    lemma_mul_is_commutative(m as int, pow2(12) as int);
                    assert(m * pow2(12) >= HIDDEN_BIT * 0x1000) by {
                        lemma_mul_inequality(HIDDEN_BIT as int, m as int, pow2(12) as int);
                    }
                }
            }
            u64::MAX
        }
    }

    /// The number as an unsigned 64-bit integer, as a cast would give it.
    pub fn to_u64(self) -> (n: u64)
        ensures
            n == self.as_u64(),
    {
        if self.nan() || self.bits >= SIGN_BIT {
            0
        } else {
            self.whole()
        }
    }

    /// The position that the number names, if it names one.
    pub fn position(self) -> (p: Option<usize>)
        ensures
            p == (if self.is_position() {
                Some(self.as_index())
            } else {
                None
            }),
    {
        if self.nan() || self.less_than(Number { bits: 0 }) {
            None
        } else {
            Some(self.to_index())
        }
    }

    /// Whether the number lies in the half-open interval from 0 to 1.
    pub fn within_unit(self) -> (b: bool)
        ensures
            b == self.in_unit_interval(),
    {
        !self.nan() && self.bits < SIGN_BIT && self.less_than(Number { bits: ONE_BITS })
    }

    /// The number as an index, as a cast would give it.
    pub fn to_index(self) -> (n: usize)
        ensures
            n == self.as_index(),
    {
        let wide: u64 = self.to_u64();
        if wide > usize::MAX as u64 {
            usize::MAX
        } else {
            wide as usize
        }
    }

    /// The number as a signed 32-bit integer, as a cast would give it.
    pub fn to_i32(self) -> (n: i32)
        ensures
            n == self.as_i32(),
    {
        if self.nan() {
            return 0;
        }
        let w: u64 = self.whole();
        if self.bits >= SIGN_BIT {
            if w > 0x8000_0000 {
                i32::MIN
            } else {
                (0 - (w as i64)) as i32
            }
        } else {
            if w > 0x7FFF_FFFF {
                i32::MAX
            } else {
                w as i32
            }
        }
    }
}

/// The arithmetic that rounds, by two operands.
#[derive(Clone, Copy, Debug, PartialEq, Eq, Structural)]
pub enum ArithmeticOp {
    Add,
    Subtract,
    Multiply,
    Divide,
    Remainder,
    Power,
    Atan2,
}

/// The functions of one operand that round.
#[derive(Clone, Copy, Debug, PartialEq, Eq, Structural)]
pub enum MathFunction {
    Sin,
    Cos,
    Tan,
    Sqrt,
    Floor,
    Ceil,
}

/// The arithmetic on doubles that the evaluator asks of its host.
///
/// What an engine answers is a function of what it is asked, but for
/// `random`: each of the other methods has a name for its answer, and the
/// library's contracts are stated over those names. Nothing else is assumed
/// of an engine, and an engine that says nothing of its answers leaves them
/// unspecified.
pub trait NumberEngine {
    /// What `parse` answers for `text`.
    closed spec fn parsed(&self, text: Seq<char>) -> Option<Number> {
        arbitrary()
    }

    /// What `arithmetic` answers for `op` on `left` and `right`.
    closed spec fn arithmetic_result(&self, op: ArithmeticOp, left: Number, right: Number) -> Number {
        arbitrary()
    }

    /// What `function` answers for `function` at `x`.
    closed spec fn function_result(&self, function: MathFunction, x: Number) -> Number {
        arbitrary()
    }

    /// What `show` answers for `x`.
    closed spec fn shown(&self, x: Number) -> Seq<char> {
        arbitrary()
    }

    /// The number that a numeral written in decimal denotes, if it is one.
    fn parse(&self, text: &str) -> (r: Option<Number>)
        ensures
            r == self.parsed(text@),
    ;

    /// The result of `op` on `left` and `right`.
    fn arithmetic(&self, op: ArithmeticOp, left: Number, right: Number) -> (r: Number)
        ensures
            r == self.arithmetic_result(op, left, right),
    ;

    /// The result of `function` at `x`.
    fn function(&self, function: MathFunction, x: Number) -> (r: Number)
        ensures
            r == self.function_result(function, x),
    ;

    /// A number drawn from the half-open interval from 0 to 1. The library
    /// tests what comes back and takes nothing on trust.
    fn random(&self) -> Number;

    /// The number written in decimal: without a fraction where it has none.
    fn show(&self, x: Number) -> (r: String)
        ensures
            r@ == self.shown(x),
    ;
}

} // verus!
