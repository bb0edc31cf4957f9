//! Double-precision numbers carried by their IEEE-754 bit patterns.
//!
//! Every decision the orbit routines take is a comparison of two doubles.
//! Carrying a double as its 64-bit pattern lets those comparisons be made with
//! integer instructions and proved against the numbers the patterns denote:
//! the value of a finite pattern, scaled by 2^1074, is an integer. IEEE-754
//! compares two doubles as the numbers they denote and finds a NaN unordered
//! with everything; that is the meaning `less`, `at_most` and `same` give to
//! patterns here.

use vstd::prelude::*;
use vstd::arithmetic::mul::lemma_mul_strict_inequality;
use vstd::arithmetic::mul::lemma_mul_inequality;
use vstd::arithmetic::mul::lemma_mul_is_commutative;
use vstd::arithmetic::power2::pow2;
use vstd::arithmetic::power2::lemma_pow2_pos;
use vstd::arithmetic::power2::lemma_pow2_unfold;
use vstd::arithmetic::power2::lemma_pow2_strictly_increases;
use vstd::arithmetic::power2::lemma_pow2_adds;
use vstd::arithmetic::power2::lemma2_to64;
use vstd::arithmetic::power2::lemma2_to64_rest;

verus! {

/// The sign bit of a pattern.
pub const SIGN_BIT: u64 = 0x8000_0000_0000_0000;

/// The pattern of positive infinity; every larger unsigned pattern is a NaN.
pub const INFINITY_BITS: u64 = 0x7ff0_0000_0000_0000;

/// 2^52: the implicit leading bit of a normal significand, and the weight of
/// the exponent field inside an unsigned pattern.
pub const HIDDEN_BIT: u64 = 0x0010_0000_0000_0000;

/// The pattern of `1.0`.
pub const ONE_BITS: u64 = 0x3ff0_0000_0000_0000;

/// The pattern of `-1.0`.
pub const MINUS_ONE_BITS: u64 = 0xbff0_0000_0000_0000;

/// What an unsigned pattern denotes, scaled by 2^1074.
///
/// With exponent field `e` and fraction field `f`, a subnormal (`e == 0`)
/// denotes `f * 2^-1074` and a normal number `(2^52 + f) * 2^(e - 1075)`.
/// The formula is extended to the infinity pattern, where it yields a bound
/// above every finite value.
pub open spec fn scaled_magnitude(pattern: nat) -> nat {
    let e = pattern / (HIDDEN_BIT as nat);
    let f = pattern % (HIDDEN_BIT as nat);
    if e == 0 {
        f
    } else {
        (HIDDEN_BIT as nat + f) * pow2((e - 1) as nat)
    }
}

/// Unsigned patterns are ordered as the magnitudes they denote.
pub proof fn lemma_scaled_magnitude_increases(a: nat, b: nat)
    requires
        a < b,
    ensures
        scaled_magnitude(a) < scaled_magnitude(b),
{
    let h = HIDDEN_BIT as nat;
    let ea = a / h;
    let fa = a % h;
    let eb = b / h;
    let fb = b % h;
    assert(ea <= eb);
    if ea == eb {
        assert(fa < fb);
        if ea != 0 {
            let p = pow2((ea - 1) as nat);
            lemma_pow2_pos((ea - 1) as nat);
            lemma_mul_strict_inequality((h + fa) as int, (h + fb) as int, p as int);
        }
    } else {
        let q = pow2((eb - 1) as nat);
        lemma_pow2_pos((eb - 1) as nat);
        // Everything with exponent field `ea` lies below `h * 2^ea`.
        assert(scaled_magnitude(a) < h * pow2(ea)) by {
            if ea == 0 {
                assert(pow2(0) == 1) by {
                    lemma_pow2_unfold(1);
                    lemma2_to64();
                }
                assert(h * pow2(0) == h);
            } else {
                let p = pow2((ea - 1) as nat);
                lemma_pow2_pos((ea - 1) as nat);
                lemma_pow2_unfold(ea);
                lemma_mul_strict_inequality((h + fa) as int, (2 * h) as int, p as int);
                assert((2 * h) * p == h * (2 * p)) by (nonlinear_arith);
            }
        }
        assert(pow2(ea) <= q) by {
            if ea < eb - 1 {
                lemma_pow2_strictly_increases(ea, (eb - 1) as nat);
            }
        }
        assert(h * pow2(ea) <= h * q) by {
            lemma_mul_inequality(pow2(ea) as int, q as int, h as int);
            lemma_mul_is_commutative(pow2(ea) as int, h as int);
            lemma_mul_is_commutative(q as int, h as int);
        }
        assert(h * q <= (h + fb) * q) by {
            lemma_mul_inequality(h as int, (h + fb) as int, q as int);
        }
    }
}

/// Only the zero pattern denotes zero.
pub proof fn lemma_scaled_magnitude_zero(a: nat)
    ensures
        scaled_magnitude(a) == 0 <==> a == 0,
{
    assert(scaled_magnitude(0) == 0);
    if a > 0 {
        lemma_scaled_magnitude_increases(0, a);
    }
}

/// Positive zero.
pub open spec fn zero() -> Binary64 {
    Binary64 { bits: 0 }
}

/// One.
pub open spec fn one() -> Binary64 {
    Binary64 { bits: ONE_BITS }
}

/// `x * 2^n` for an integer `x`.
spec fn shifted(x: int, n: nat) -> int {
    x * pow2(n)
}

/// Scaling by a power of two keeps sums and order.
proof fn lemma_shifted_linear(x: int, y: int, n: nat)
    ensures
        shifted(x - y, n) == shifted(x, n) - shifted(y, n),
        x <= y ==> shifted(x, n) <= shifted(y, n),
{
    lemma_pow2_pos(n);
    let p = pow2(n) as int;
    assert((x - y) * p == x * p - y * p) by (nonlinear_arith);
    if x <= y {
        lemma_mul_inequality(x, y, p);
    }
}

/// An IEEE-754 binary64 value, held as its bit pattern.
///
/// `==` on this type compares patterns: it tells `-0.0` from `0.0` and finds a
/// NaN equal to itself. The comparisons of numbers are `lt`, `le`, `gt`, `ge`
/// and `same_number`.
#[derive(Clone, Copy, Debug, PartialEq, Eq, Structural)]
pub struct Binary64 {
    pub bits: u64,
}

impl Binary64 {
    /// Whether the sign bit is set (true of `-0.0` and of some NaNs too).
    pub open spec fn sign_set(self) -> bool {
        self.bits >= SIGN_BIT
    }

    /// The pattern with its sign bit cleared.
    pub open spec fn unsigned_bits(self) -> nat {
        if self.bits >= SIGN_BIT {
            (self.bits - SIGN_BIT) as nat
        } else {
            self.bits as nat
        }
    }

    /// Not a number: the exponent field is all ones and the fraction is not zero.
    pub open spec fn nan(self) -> bool {
        self.unsigned_bits() > INFINITY_BITS
    }

    /// Positive or negative infinity.
    pub open spec fn infinite(self) -> bool {
        self.unsigned_bits() == INFINITY_BITS
    }

    /// A number that is not an infinity: zero, subnormal or normal.
    pub open spec fn finite(self) -> bool {
        self.unsigned_bits() < INFINITY_BITS
    }

    /// Positive or negative zero.
    pub open spec fn zero(self) -> bool {
        self.unsigned_bits() == 0
    }

    /// The number denoted, scaled by 2^1074; an infinity stands beyond every
    /// finite value on its side. Meaningless for a NaN.
    pub open spec fn scaled(self) -> int {
        if self.sign_set() {
            -(scaled_magnitude(self.unsigned_bits()) as int)
        } else {
            scaled_magnitude(self.unsigned_bits()) as int
        }
    }

    /// `self < other` as numbers; false as soon as either is a NaN.
    pub open spec fn less(self, other: Binary64) -> bool {
        !self.nan() && !other.nan() && self.scaled() < other.scaled()
    }

    /// `self <= other` as numbers; false as soon as either is a NaN.
    pub open spec fn at_most(self, other: Binary64) -> bool {
        !self.nan() && !other.nan() && self.scaled() <= other.scaled()
    }

    /// `self == other` as numbers: the two zeros are the same number, and a
    /// NaN is no number at all.
    pub open spec fn same(self, other: Binary64) -> bool {
        !self.nan() && !other.nan() && self.scaled() == other.scaled()
    }

    /// The exponent field: eleven bits, biased by 1023.
    pub open spec fn exponent_field(self) -> nat {
        self.unsigned_bits() / (HIDDEN_BIT as nat)
    }

    /// The significand as an integer: the fraction field, with the implicit
    /// leading bit on a normal number.
    pub open spec fn significand(self) -> nat {
        if self.exponent_field() == 0 {
            self.unsigned_bits() % (HIDDEN_BIT as nat)
        } else {
            HIDDEN_BIT as nat + self.unsigned_bits() % (HIDDEN_BIT as nat)
        }
    }

    /// Whether this is a positive normal number within half a unit in its
    /// last place of the fraction `num / den`: a double that rounding the
    /// fraction to nearest can give.
    pub open spec fn rounds(self, num: nat, den: nat) -> bool {
        &&& !self.sign_set()
        &&& 1 <= self.exponent_field() < 2047
        &&& den > 0
        &&& 2 * (self.scaled() * den - num * pow2(1074)) <= den * pow2(
            (self.exponent_field() - 1) as nat,
        )
        &&& 2 * (num * pow2(1074) - self.scaled() * den) <= den * pow2(
            (self.exponent_field() - 1) as nat,
        )
    }

    /// The value with the sign bit flipped and every other bit kept.
    pub open spec fn negated(self) -> Binary64 {
        if self.bits >= SIGN_BIT {
            Binary64 { bits: (self.bits - SIGN_BIT) as u64 }
        } else {
            Binary64 { bits: (self.bits + SIGN_BIT) as u64 }
        }
    }

    /// The value with the sign bit cleared and every other bit kept.
    pub open spec fn magnitude(self) -> Binary64 {
        Binary64 { bits: self.unsigned_bits() as u64 }
    }

    /// The value with the given pattern.
    pub fn from_bits(bits: u64) -> (out: Binary64)
        ensures
            out.bits == bits,
    {
        Binary64 { bits }
    }

    /// The pattern of this value.
    pub fn to_bits(self) -> (bits: u64)
        ensures
            bits == self.bits,
    {
        self.bits
    }

    /// Positive zero.
    pub fn zero_value() -> (out: Binary64)
        ensures
            out.bits == 0,
            out.zero(),
            !out.sign_set(),
            out.scaled() == 0,
    {
        Binary64 { bits: 0 }
    }

    /// The pattern with its sign bit cleared, as a machine word.
    fn magnitude_word(self) -> (m: u64)
        ensures
            m == self.unsigned_bits(),
            m < SIGN_BIT,
    {
        if self.bits >= SIGN_BIT {
            self.bits - SIGN_BIT
        } else {
            self.bits
        }
    }

    pub fn is_nan(self) -> (r: bool)
        ensures
            r == self.nan(),
    {
        self.magnitude_word() > INFINITY_BITS
    }

    /// Neither a NaN nor an infinity.
    pub fn is_finite(self) -> (r: bool)
        ensures
            r == self.finite(),
            r == (!self.nan() && !self.infinite()),
    {
        self.magnitude_word() < INFINITY_BITS
    }

    pub fn is_zero(self) -> (r: bool)
        ensures
            r == self.zero(),
            r == (!self.nan() && self.scaled() == 0),
    {
        proof {
            lemma_scaled_magnitude_zero(self.unsigned_bits());
        }
        self.magnitude_word() == 0
    }

    /// `self < other`, as numbers.
    pub fn lt(self, other: Binary64) -> (r: bool)
        ensures
            r == self.less(other),
    {
        let a: u64 = self.magnitude_word();
        let b: u64 = other.magnitude_word();
        if a > INFINITY_BITS || b > INFINITY_BITS {
            return false;
        }
        proof {
            lemma_scaled_magnitude_zero(a as nat);
            lemma_scaled_magnitude_zero(b as nat);
            if a < b {
                lemma_scaled_magnitude_increases(a as nat, b as nat);
            }
            if b < a {
                lemma_scaled_magnitude_increases(b as nat, a as nat);
            }
        }
        if self.bits >= SIGN_BIT {
            if other.bits >= SIGN_BIT {
                b < a
            } else {
                a != 0 || b != 0
            }
        } else {
            if other.bits >= SIGN_BIT {
                false
            } else {
                a < b
            }
        }
    }

    /// `self > other`.
    pub fn gt(self, other: Binary64) -> (r: bool)
        ensures
            r == other.less(self),
    {
        other.lt(self)
    }

    /// `self == other`, as numbers: `-0.0` equals `0.0`, a NaN equals nothing.
    pub fn same_number(self, other: Binary64) -> (r: bool)
        ensures
            r == self.same(other),
    {
        let a: u64 = self.magnitude_word();
        let b: u64 = other.magnitude_word();
        if a > INFINITY_BITS || b > INFINITY_BITS {
            return false;
        }
        proof {
            lemma_scaled_magnitude_zero(a as nat);
            lemma_scaled_magnitude_zero(b as nat);
            if a < b {
                lemma_scaled_magnitude_increases(a as nat, b as nat);
            }
            if b < a {
                lemma_scaled_magnitude_increases(b as nat, a as nat);
            }
        }
        if a == 0 && b == 0 {
            true
        } else {
            self.bits == other.bits
        }
    }

    /// `self <= other`.
    pub fn le(self, other: Binary64) -> (r: bool)
        ensures
            r == self.at_most(other),
    {
        self.lt(other) || self.same_number(other)
    }

    /// `self >= other`.
    pub fn ge(self, other: Binary64) -> (r: bool)
        ensures
            r == other.at_most(self),
    {
        other.le(self)
    }

    /// The value with the opposite sign; exact for every pattern.
    pub fn neg(self) -> (out: Binary64)
        ensures
            out == self.negated(),
            out.unsigned_bits() == self.unsigned_bits(),
            out.sign_set() == !self.sign_set(),
            out.nan() == self.nan(),
            out.scaled() == -self.scaled(),
    {
        if self.bits >= SIGN_BIT {
            Binary64 { bits: self.bits - SIGN_BIT }
        } else {
            Binary64 { bits: self.bits + SIGN_BIT }
        }
    }

    /// The absolute value: the pattern with its sign bit cleared.
    pub fn abs(self) -> (out: Binary64)
        ensures
            out == self.magnitude(),
            !out.sign_set(),
            out.nan() == self.nan(),
            out.scaled() == if self.scaled() < 0 { -self.scaled() } else { self.scaled() },
    {
        Binary64 { bits: self.magnitude_word() }
    }
}

/// Two patterns denote the same number only if they are the same pattern, or
/// the two zeros.
pub proof fn lemma_same_number_same_pattern(a: Binary64, b: Binary64)
    requires
        a.same(b),
    ensures
        a == b || (a.zero() && b.zero()),
{
    let x = a.unsigned_bits();
    let y = b.unsigned_bits();
    lemma_scaled_magnitude_zero(x);
    lemma_scaled_magnitude_zero(y);
    if x < y {
        lemma_scaled_magnitude_increases(x, y);
    }
    if y < x {
        lemma_scaled_magnitude_increases(y, x);
    }
}

/// Numbers are totally ordered: of two values that are not NaN exactly one
/// is the smaller, or they are the same number. The order is transitive, and
/// negation reverses it.
pub proof fn lemma_order(a: Binary64, b: Binary64, c: Binary64)
    ensures
        !a.less(a),
        !a.nan() && !b.nan() ==> (a.less(b) || a.same(b) || b.less(a)),
        !(a.less(b) && b.less(a)),
        !(a.less(b) && a.same(b)),
        a.less(b) && b.less(c) ==> a.less(c),
        a.at_most(b) <==> a.less(b) || a.same(b),
        a.less(b) <==> b.negated().less(a.negated()),
        a.nan() || b.nan() ==> !a.less(b) && !a.at_most(b) && !a.same(b),
{
}

/// Every finite value lies strictly between the infinities.
pub proof fn lemma_infinities_bound(x: Binary64)
    requires
        x.finite(),
    ensures
        (Binary64 { bits: (INFINITY_BITS + SIGN_BIT) as u64 }).less(x),
        x.less(Binary64 { bits: INFINITY_BITS }),
{
    lemma_scaled_magnitude_increases(x.unsigned_bits(), INFINITY_BITS as nat);
}

/// A positive normal pattern below 2^52 rounds `num / den` where its
/// significand `m` and its exponent, written as `m * 2^-k`, satisfy
/// `2 |m den - num 2^k| <= den`.
pub proof fn lemma_rounds(x: Binary64, num: nat, den: nat, k: nat)
    requires
        !x.sign_set(),
        1 <= x.exponent_field() < 2047,
        x.exponent_field() + k == 1075,
        den > 0,
        2 * (x.significand() * den - num * pow2(k)) <= den,
        2 * (num * pow2(k) - x.significand() * den) <= den,
    ensures
        x.rounds(num, den),
{
    let n = (x.exponent_field() - 1) as nat;
    let m = x.significand() as int;
    assert(x.scaled() == shifted(m, n));
    lemma_pow2_adds(k, n);
    let pk = pow2(k) as int;
    let pn = pow2(n) as int;
    assert(pow2(1074) == pk * pn);
    // Both sides of the two bounds are the small bounds, scaled by 2^n.
    assert(x.scaled() * den == shifted(m * den, n)) by (nonlinear_arith)
        requires
            x.scaled() == shifted(m, n),
    ;
    assert(num * pow2(1074) == shifted(num * pk, n)) by (nonlinear_arith)
        requires
            pow2(1074) == pk * pn,
            pn == pow2(n),
    ;
    assert(den * pow2(n) == shifted(den as int, n));
    lemma_shifted_linear(2 * (m * den), 2 * (num * pk), n);
    lemma_shifted_linear(2 * (num * pk), 2 * (m * den), n);
    lemma_shifted_linear(2 * (m * den) - 2 * (num * pk), den as int, n);
    lemma_shifted_linear(2 * (num * pk) - 2 * (m * den), den as int, n);
    assert(shifted(2 * (m * den), n) == 2 * shifted(m * den, n)) by (nonlinear_arith);
    assert(shifted(2 * (num * pk), n) == 2 * shifted(num * pk, n)) by (nonlinear_arith);
}

/// The pattern `ONE_BITS` denotes one, exactly: scaled by 2^1074 it is 2^1074.
pub proof fn lemma_one_denotes_one()
    ensures
        (Binary64 { bits: ONE_BITS }).scaled() == pow2(1074),
        (Binary64 { bits: MINUS_ONE_BITS }).scaled() == -pow2(1074),
        (Binary64 { bits: ONE_BITS }).rounds(1, 1),
{
    let one = Binary64 { bits: ONE_BITS };
    assert(one.exponent_field() == 1023);
    assert(one.significand() == HIDDEN_BIT);
    lemma_pow2_adds(52, 1022);
    lemma_pow2_values();
    assert((Binary64 { bits: MINUS_ONE_BITS }).unsigned_bits() == ONE_BITS);
    lemma_rounds(one, 1, 1, 52);
}

/// The powers of two that the named constants need.
pub proof fn lemma_pow2_values()
    ensures
        pow2(35) == 0x8_0000_0000,
        pow2(51) == 0x8_0000_0000_0000,
        pow2(52) == 0x10_0000_0000_0000,
        pow2(53) == 0x20_0000_0000_0000,
        pow2(86) == 0x40_0000_0000_0000_0000_0000,
        pow2(92) == 0x1000_0000_0000_0000_0000_0000,
        pow2(106) == 0x400_0000_0000_0000_0000_0000_0000,
{
    lemma2_to64();
    lemma2_to64_rest();
    lemma_pow2_adds(64, 22);
    lemma_pow2_adds(64, 28);
    lemma_pow2_adds(64, 42);
}

} // verus!
