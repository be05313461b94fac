use vstd::arithmetic::div_mod::{
    lemma_basic_div, lemma_div_by_multiple, lemma_div_denominator, lemma_div_is_ordered,
    lemma_fundamental_div_mod, lemma_fundamental_div_mod_converse,
    lemma_mod_breakdown, lemma_mod_multiples_basic, lemma_small_mod,
};
use vstd::arithmetic::mul::{
    lemma_mul_inequality, lemma_mul_is_associative, lemma_mul_is_commutative,
    lemma_mul_strict_inequality,
};
use vstd::arithmetic::power2::{
    lemma2_to64, lemma_pow2_adds, lemma_pow2_pos, lemma_pow2_strictly_increases,
    lemma_pow2_unfold, pow2,
};
use vstd::bits::{lemma_u64_shl_is_mul, lemma_u64_shr_is_div};
use vstd::prelude::*;

verus! {

/// Bit pattern of the sign.
pub const SIGN_MASK: u32 = 0x8000_0000;

/// One unit of the stored exponent: the fraction occupies the bits below it.
pub const FRACTION_SPAN: u32 = 0x80_0000;

/// Largest magnitude pattern that is not a NaN (the infinity).
pub const INFINITY_MAGNITUDE: u32 = 0x7f80_0000;

/// Cap of the integer part computed by the conversions: above every target range.
pub const WHOLE_CAP: u64 = 0x100_0000_0000;

/// Bit pattern of `1.0`.
pub const ONE_BITS: u32 = 0x3f80_0000;

/// Bit pattern of `-1.0`.
pub const MINUS_ONE_BITS: u32 = 0xbf80_0000;

/// Magnitude of a pattern with the sign bit cleared, in units of 2^-149 (the
/// smallest subnormal). Stored exponent 0 holds subnormals; the formula for
/// normal values, applied to the infinity pattern, gives 2^277, which exceeds
/// every finite magnitude.
pub open spec fn magnitude_of(m: nat) -> nat {
    let e = m / 0x80_0000;
    let f = m % 0x80_0000;
    if e == 0 {
        f
    } else {
        (f + 0x80_0000) * pow2((e - 1) as nat)
    }
}

/// The scale of the integer model: a value is `value() / pow2(149)`.
pub open spec fn unit() -> int {
    pow2(149) as int
}

pub open spec fn clamp_int(x: int, lo: int, hi: int) -> int {
    if x < lo {
        lo
    } else if x > hi {
        hi
    } else {
        x
    }
}

/// A single-precision IEEE 754 value, held as its bit pattern.
///
/// `==` on this type compares bit patterns; the numeric comparisons are the
/// methods `lt`, `le`, `gt`, `ge` and `same_value`.
#[derive(Clone, Copy, Debug, PartialEq, Eq, Structural)]
pub struct Ieee32 {
    pub bits: u32,
}

impl Ieee32 {
    pub open spec fn negative(self) -> bool {
        self.bits >= SIGN_MASK
    }

    /// The pattern with the sign bit cleared.
    pub open spec fn magnitude_bits(self) -> nat {
        (self.bits % SIGN_MASK) as nat
    }

    pub open spec fn nan(self) -> bool {
        self.magnitude_bits() > INFINITY_MAGNITUDE
    }

    /// `|value()|`.
    pub open spec fn magnitude(self) -> int {
        magnitude_of(self.magnitude_bits()) as int
    }

    /// The value times 2^149, exact for every finite value; the infinities map
    /// to -2^277 and 2^277, beyond every finite value. Meaningless for a NaN.
    pub open spec fn value(self) -> int {
        if self.negative() {
            -self.magnitude()
        } else {
            self.magnitude()
        }
    }

    /// IEEE `> 0.0`.
    pub open spec fn positive(self) -> bool {
        !self.nan() && self.value() > 0
    }

    /// IEEE `>= 0.0`.
    pub open spec fn non_negative(self) -> bool {
        !self.nan() && self.value() >= 0
    }

    /// IEEE `< 0.0`.
    pub open spec fn below_zero(self) -> bool {
        !self.nan() && self.value() < 0
    }

    /// What `x as u8` gives: the floor clamped to `0..=255`, 0 for a NaN.
    pub open spec fn saturated_u8(self) -> u8 {
        if self.nan() {
            0
        } else {
            clamp_int(self.floor(), 0, 255) as u8
        }
    }

    /// What `x as u32` gives: the floor clamped to `0..=u32::MAX`, 0 for a NaN.
    pub open spec fn saturated_u32(self) -> u32 {
        if self.nan() {
            0
        } else {
            clamp_int(self.floor(), 0, u32::MAX as int) as u32
        }
    }

    /// IEEE `<`: false whenever a NaN takes part.
    pub open spec fn less(self, other: Ieee32) -> bool {
        !self.nan() && !other.nan() && self.value() < other.value()
    }

    /// IEEE `<=`: false whenever a NaN takes part.
    pub open spec fn at_most(self, other: Ieee32) -> bool {
        !self.nan() && !other.nan() && self.value() <= other.value()
    }

    /// IEEE `==` (so `-0.0` equals `0.0`, and a NaN equals nothing).
    pub open spec fn equal_value(self, other: Ieee32) -> bool {
        !self.nan() && !other.nan() && self.value() == other.value()
    }

    /// Largest integer not above the value. Meaningless for a NaN.
    pub open spec fn floor(self) -> int {
        self.value() / unit()
    }

    /// The value's position in the order of non-NaN patterns.
    pub open spec fn order_key(self) -> int {
        if self.negative() {
            -self.magnitude_bits()
        } else {
            self.magnitude_bits() as int
        }
    }

    pub fn from_bits(bits: u32) -> (r: Ieee32)
        ensures
            r.bits == bits,
    {
        Ieee32 { bits }
    }

    pub fn to_bits(self) -> (r: u32)
        ensures
            r == self.bits,
    {
        self.bits
    }

    pub fn zero() -> (r: Ieee32)
        ensures
            !r.nan(),
            r.value() == 0,
    {
        Ieee32 { bits: 0 }
    }

    pub fn one() -> (r: Ieee32)
        ensures
            !r.nan(),
            r.value() == unit(),
            r.positive(),
    {
        proof {
            lemma_one_value();
            lemma_pow2_pos(149);
        }
        Ieee32 { bits: ONE_BITS }
    }

    pub fn minus_one() -> (r: Ieee32)
        ensures
            !r.nan(),
            r.value() == -unit(),
            r.below_zero(),
    {
        proof {
            lemma_one_value();
            lemma_pow2_pos(149);
        }
        Ieee32 { bits: MINUS_ONE_BITS }
    }

    pub fn is_nan(self) -> (r: bool)
        ensures
            r == self.nan(),
    {
        self.bits % SIGN_MASK > INFINITY_MAGNITUDE
    }

    fn key(self) -> (r: i64)
        ensures
            r == self.order_key(),
    {
        let m = (self.bits % SIGN_MASK) as i64;
        if self.bits >= SIGN_MASK {
            -m
        } else {
            m
        }
    }

    /// IEEE `self < other`.
    pub fn lt(self, other: Ieee32) -> (r: bool)
        ensures
            r == self.less(other),
    {
        if self.is_nan() || other.is_nan() {
            return false;
        }
        proof {
            lemma_key_order(self, other);
        }
        self.key() < other.key()
    }

    /// IEEE `self <= other`.
    pub fn le(self, other: Ieee32) -> (r: bool)
        ensures
            r == self.at_most(other),
    {
        if self.is_nan() || other.is_nan() {
            return false;
        }
        proof {
            lemma_key_order(self, other);
        }
        self.key() <= other.key()
    }

    /// IEEE `self > other`.
    pub fn gt(self, other: Ieee32) -> (r: bool)
        ensures
            r == other.less(self),
    {
        other.lt(self)
    }

    /// IEEE `self >= other`.
    pub fn ge(self, other: Ieee32) -> (r: bool)
        ensures
            r == other.at_most(self),
    {
        other.le(self)
    }

    /// IEEE `self == other`.
    pub fn same_value(self, other: Ieee32) -> (r: bool)
        ensures
            r == self.equal_value(other),
    {
        if self.is_nan() || other.is_nan() {
            return false;
        }
        proof {
            lemma_key_order(self, other);
            lemma_key_order(other, self);
        }
        self.key() == other.key()
    }

    /// IEEE negation: flips the sign bit, so NaNs stay NaNs and `0.0`
    /// becomes `-0.0`.
    pub fn neg(self) -> (r: Ieee32)
        ensures
            r.magnitude_bits() == self.magnitude_bits(),
            r.negative() == !self.negative(),
            r.nan() == self.nan(),
            r.value() == -self.value(),
    {
        if self.bits >= SIGN_MASK {
            Ieee32 { bits: self.bits - SIGN_MASK }
        } else {
            Ieee32 { bits: self.bits + SIGN_MASK }
        }
    }

    /// The smaller of two values, ignoring a NaN as `f32::min` does: when one
    /// side is NaN the other is returned.
    pub fn min(self, other: Ieee32) -> (r: Ieee32)
        ensures
            self.nan() ==> r == other,
            !self.nan() && other.nan() ==> r == self,
            !self.nan() && !other.nan() ==> (r == self || r == other) && !r.nan()
                && r.value() == (if other.value() < self.value() {
                other.value()
            } else {
                self.value()
            }),
    {
        if self.is_nan() {
            other
        } else if other.is_nan() {
            self
        } else if other.lt(self) {
            other
        } else {
            self
        }
    }

    /// The larger of two values, ignoring a NaN as `f32::max` does: when one
    /// side is NaN the other is returned.
    pub fn max(self, other: Ieee32) -> (r: Ieee32)
        ensures
            self.nan() ==> r == other,
            !self.nan() && other.nan() ==> r == self,
            !self.nan() && !other.nan() ==> (r == self || r == other) && !r.nan()
                && r.value() == (if other.value() > self.value() {
                other.value()
            } else {
                self.value()
            }),
    {
        if self.is_nan() {
            other
        } else if other.is_nan() {
            self
        } else if self.lt(other) {
            other
        } else {
            self
        }
    }

    /// Integer part of the magnitude, capped at `WHOLE_CAP`.
    fn whole_magnitude(self) -> (r: u64)
        requires
            !self.nan(),
        ensures
            self.magnitude() / unit() < WHOLE_CAP ==> r == self.magnitude() / unit(),
            self.magnitude() / unit() >= WHOLE_CAP ==> r == WHOLE_CAP,
    {
        let m = self.bits % SIGN_MASK;
        let e = m / FRACTION_SPAN;
        let f = m % FRACTION_SPAN;
        let sig: u64 = (f + FRACTION_SPAN) as u64;
        proof {
            lemma2_to64();
            lemma_pow2_pos(149);
        }
        if e < 127 {
            proof {
                lemma_small_magnitude(self);
                lemma_basic_div(self.magnitude(), unit());
            }
            0
        } else if e >= 167 {
            proof {
                lemma_large_magnitude(self);
            }
            WHOLE_CAP
        } else if e >= 150 {
            let k: u64 = (e - 150) as u64;
            proof {
                lemma_integral_magnitude(self);
                lemma_pow2_adds(k as nat, (16 - k) as nat);
                lemma_pow2_pos((16 - k) as nat);
                lemma_pow2_adds(24, 16);
                lemma_mul_strict_inequality(sig as int, 0x100_0000, pow2(k as nat) as int);
                lemma_mul_inequality(pow2(k as nat) as int, pow2(16) as int, 0x100_0000);
                lemma_mul_is_commutative(pow2(k as nat) as int, 0x100_0000);
                lemma_mul_is_commutative(pow2(16) as int, 0x100_0000);
                lemma_u64_shl_is_mul(sig, k);
            }
            sig << k
        } else {
            let k: u64 = (150 - e) as u64;
            proof {
                lemma_fractional_magnitude(self);
                lemma_u64_shr_is_div(sig, k);
                lemma_pow2_pos(k as nat);
                assert((sig as int) / (pow2(k as nat) as int) <= sig as int) by (nonlinear_arith)
                    requires
                        pow2(k as nat) > 0,
                        sig >= 0,
                ;
            }
            sig >> k
        }
    }

    /// Whether the value has a nonzero fractional part.
    fn has_fraction(self) -> (r: bool)
        requires
            !self.nan(),
        ensures
            r == (self.magnitude() % unit() != 0),
    {
        let m = self.bits % SIGN_MASK;
        let e = m / FRACTION_SPAN;
        let f = m % FRACTION_SPAN;
        let sig: u64 = (f + FRACTION_SPAN) as u64;
        proof {
            lemma2_to64();
            lemma_pow2_pos(149);
        }
        if e < 127 {
            proof {
                lemma_small_magnitude(self);
                lemma_small_mod(self.magnitude() as nat, unit() as nat);
            }
            m != 0
        } else if e >= 150 {
            proof {
                lemma_integral_magnitude(self);
            }
            false
        } else {
            let k: u64 = (150 - e) as u64;
            proof {
                lemma_fractional_magnitude(self);
                lemma_pow2_strictly_increases(k as nat, 24);
                lemma_u64_shl_is_mul(1, k);
            }
            sig % (1u64 << k) != 0
        }
    }

    /// Saturating conversion to `u8`, as `x as u8` does: the floor of the value
    /// clamped to `0..=255`, and 0 for a NaN.
    pub fn to_u8(self) -> (r: u8)
        ensures
            r == self.saturated_u8(),
    {
        if self.is_nan() {
            return 0;
        }
        proof {
            lemma_pow2_pos(149);
        }
        if self.bits >= SIGN_MASK {
            proof {
                lemma_div_is_ordered(self.value(), 0, unit());
            }
            return 0;
        }
        let w = self.whole_magnitude();
        if w > 255 {
            255
        } else {
            w as u8
        }
    }

    /// Saturating conversion to `u32`, as `x as u32` does: the floor of the
    /// value clamped to `0..=u32::MAX`, and 0 for a NaN.
    pub fn to_u32(self) -> (r: u32)
        ensures
            r == self.saturated_u32(),
    {
        if self.is_nan() {
            return 0;
        }
        proof {
            lemma_pow2_pos(149);
        }
        if self.bits >= SIGN_MASK {
            proof {
                lemma_div_is_ordered(self.value(), 0, unit());
            }
            return 0;
        }
        let w = self.whole_magnitude();
        if w > u32::MAX as u64 {
            u32::MAX
        } else {
            w as u32
        }
    }

    /// The floor of the value, saturated to the range of `i32`; 0 for a NaN.
    pub fn floor_i32(self) -> (r: i32)
        ensures
            r == (if self.nan() {
                0
            } else {
                clamp_int(self.floor(), i32::MIN as int, i32::MAX as int)
            }),
    {
        if self.is_nan() {
            return 0;
        }
        proof {
            lemma_pow2_pos(149);
        }
        let w = self.whole_magnitude();
        if self.bits < SIGN_MASK {
            if w > i32::MAX as u64 {
                i32::MAX
            } else {
                w as i32
            }
        } else {
            let frac = self.has_fraction();
            proof {
                lemma_floor_of_negation(self.magnitude(), unit());
            }
            if w == WHOLE_CAP {
                i32::MIN
            } else {
                let down: i64 = if frac {
                    -(w as i64) - 1
                } else {
                    -(w as i64)
                };
                if down < i32::MIN as i64 {
                    i32::MIN
                } else {
                    down as i32
                }
            }
        }
    }

    /// `self > 0.0`.
    pub fn is_positive(self) -> (r: bool)
        ensures
            r == self.positive(),
    {
        Ieee32::zero().lt(self)
    }
}

/// The magnitude grows strictly with the pattern, up to the infinity.
proof fn lemma_magnitude_increases(x: nat, y: nat)
    requires
        x < y <= INFINITY_MAGNITUDE,
    ensures
        magnitude_of(x) < magnitude_of(y),
{
    let ex = x / 0x80_0000;
    let ey = y / 0x80_0000;
    let fx = (x % 0x80_0000) as int;
    let fy = (y % 0x80_0000) as int;
    assert(ex <= ey);
    lemma2_to64();
    if ex == ey {
        assert(fx < fy);
        if ex > 0 {
            lemma_pow2_pos((ex - 1) as nat);
            lemma_mul_strict_inequality(
                fx + 0x80_0000,
                fy + 0x80_0000,
                pow2((ex - 1) as nat) as int,
            );
        }
    } else {
        assert(ey >= 1);
        let p = pow2((ey - 1) as nat) as int;
        lemma_pow2_pos((ey - 1) as nat);
        // magnitude_of(x) < 2^23 * pow2(ex) <= 2^23 * pow2(ey - 1) <= magnitude_of(y)
        if ex == 0 {
            assert(magnitude_of(x) < 0x80_0000);
            lemma_mul_inequality(1, p, 0x80_0000);
            assert(0x80_0000 <= 0x80_0000 * p) by {
                lemma_mul_is_commutative(p, 0x80_0000);
            }
        } else {
            let q = pow2((ex - 1) as nat) as int;
            lemma_pow2_pos((ex - 1) as nat);
            lemma_mul_strict_inequality(fx + 0x80_0000, 0x100_0000, q);
            lemma_pow2_unfold(ex);
            if ex < ey - 1 {
                lemma_pow2_strictly_increases(ex, (ey - 1) as nat);
            }
            assert(pow2(ex) <= p);
            assert(0x100_0000 * q == 0x80_0000 * pow2(ex)) by {
                lemma_mul_is_associative(0x80_0000, 2, q);
            }
            lemma_mul_inequality(pow2(ex) as int, p, 0x80_0000);
            lemma_mul_is_commutative(pow2(ex) as int, 0x80_0000);
            lemma_mul_is_commutative(p, 0x80_0000);
        }
        lemma_mul_inequality(0x80_0000, fy + 0x80_0000, p);
    }
}

proof fn lemma_magnitude_order(x: nat, y: nat)
    requires
        x <= INFINITY_MAGNITUDE,
        y <= INFINITY_MAGNITUDE,
    ensures
        x < y <==> magnitude_of(x) < magnitude_of(y),
        x == y <==> magnitude_of(x) == magnitude_of(y),
{
    if x < y {
        lemma_magnitude_increases(x, y);
    } else if y < x {
        lemma_magnitude_increases(y, x);
    }
}

/// On non-NaN values the order of `value` is the order of `order_key`.
proof fn lemma_key_order(a: Ieee32, b: Ieee32)
    requires
        !a.nan(),
        !b.nan(),
    ensures
        a.value() < b.value() <==> a.order_key() < b.order_key(),
        a.value() <= b.value() <==> a.order_key() <= b.order_key(),
{
    lemma_magnitude_order(a.magnitude_bits(), b.magnitude_bits());
    lemma_magnitude_order(a.magnitude_bits(), 0);
    lemma_magnitude_order(b.magnitude_bits(), 0);
}

/// A stored exponent below 127 means a magnitude below one.
proof fn lemma_small_magnitude(x: Ieee32)
    requires
        x.magnitude_bits() / 0x80_0000 < 127,
    ensures
        x.magnitude() < unit(),
        x.magnitude() == 0 <==> x.magnitude_bits() == 0,
{
    let e = x.magnitude_bits() / 0x80_0000;
    let sig = (x.magnitude_bits() % 0x80_0000 + 0x80_0000) as int;
    lemma2_to64();
    lemma_pow2_strictly_increases(23, 149);
    if e > 0 {
        let p = pow2((e - 1) as nat) as int;
        lemma_pow2_pos((e - 1) as nat);
        lemma_mul_strict_inequality(sig, 0x100_0000, p);
        if e - 1 < 125 {
            lemma_pow2_strictly_increases((e - 1) as nat, 125);
        }
        lemma_mul_inequality(p, pow2(125) as int, 0x100_0000);
        lemma_mul_is_commutative(p, 0x100_0000);
        lemma_mul_is_commutative(pow2(125) as int, 0x100_0000);
        lemma_pow2_adds(24, 125);
        lemma_mul_inequality(1, sig, p);
    }
}

/// A stored exponent of 167 or more means an integer part of at least 2^40.
proof fn lemma_large_magnitude(x: Ieee32)
    requires
        x.magnitude_bits() / 0x80_0000 >= 167,
        !x.nan(),
    ensures
        x.magnitude() / unit() >= WHOLE_CAP,
{
    let e = x.magnitude_bits() / 0x80_0000;
    let sig = (x.magnitude_bits() % 0x80_0000 + 0x80_0000) as int;
    let p = pow2((e - 1) as nat) as int;
    lemma2_to64();
    lemma_pow2_pos(149);
    if e - 1 > 166 {
        lemma_pow2_strictly_increases(166, (e - 1) as nat);
    }
    lemma_mul_inequality(0x80_0000, sig, p);
    lemma_mul_inequality(pow2(166) as int, p, 0x80_0000);
    lemma_mul_is_commutative(pow2(166) as int, 0x80_0000);
    lemma_mul_is_commutative(p, 0x80_0000);
    lemma_pow2_adds(23, 166);
    lemma_pow2_adds(40, 149);
    lemma_pow2_adds(32, 8);
    lemma_div_is_ordered(pow2(40) as int * unit(), x.magnitude(), unit());
    lemma_div_by_multiple(pow2(40) as int, unit());
}

/// A stored exponent of 150 or more means an integral magnitude.
proof fn lemma_integral_magnitude(x: Ieee32)
    requires
        x.magnitude_bits() / 0x80_0000 >= 150,
        !x.nan(),
    ensures
        ({
            let k = (x.magnitude_bits() / 0x80_0000 - 150) as nat;
            let sig = (x.magnitude_bits() % 0x80_0000 + 0x80_0000) as int;
            &&& x.magnitude() / unit() == sig * pow2(k)
            &&& x.magnitude() % unit() == 0
        }),
{
    let e = x.magnitude_bits() / 0x80_0000;
    let k = (e - 150) as nat;
    let sig = (x.magnitude_bits() % 0x80_0000 + 0x80_0000) as int;
    lemma_pow2_pos(149);
    lemma_pow2_pos(k);
    lemma_pow2_adds(k, 149);
    assert((e - 1) as nat == k + 149);
    lemma_mul_is_associative(sig, pow2(k) as int, unit());
    assert(sig * pow2(k) >= 0) by (nonlinear_arith)
        requires
            sig >= 0,
            pow2(k) > 0,
    ;
    lemma_div_by_multiple(sig * pow2(k), unit());
    lemma_mod_multiples_basic(sig * pow2(k), unit());
}

/// A stored exponent in `127..150`: the integer part and the fractional part
/// are read from the significand.
proof fn lemma_fractional_magnitude(x: Ieee32)
    requires
        127 <= x.magnitude_bits() / 0x80_0000 < 150,
    ensures
        ({
            let k = (150 - x.magnitude_bits() / 0x80_0000) as nat;
            let sig = (x.magnitude_bits() % 0x80_0000 + 0x80_0000) as int;
            &&& x.magnitude() / unit() == sig / (pow2(k) as int)
            &&& (x.magnitude() % unit() == 0 <==> sig % (pow2(k) as int) == 0)
        }),
{
    let e = x.magnitude_bits() / 0x80_0000;
    let k = (150 - e) as nat;
    let sig = (x.magnitude_bits() % 0x80_0000 + 0x80_0000) as int;
    let p = pow2((e - 1) as nat) as int;
    let q = pow2(k) as int;
    lemma_pow2_pos((e - 1) as nat);
    lemma_pow2_pos(k);
    lemma_pow2_adds((e - 1) as nat, k);
    assert(((e - 1) as nat + k) as nat == 149);
    lemma_mul_is_commutative(sig, p);
    lemma_div_by_multiple(sig, p);
    lemma_div_denominator(sig * p, p, q);
    lemma_mod_breakdown(sig * p, p, q);
    lemma_mod_multiples_basic(sig, p);
    let r = sig % q;
    assert(p * r == 0 <==> r == 0) by (nonlinear_arith)
        requires
            p > 0,
    ;
}

/// Floor division of a negated non-negative number.
proof fn lemma_floor_of_negation(m: int, d: int)
    requires
        m >= 0,
        d > 0,
    ensures
        m % d == 0 ==> (-m) / d == -(m / d),
        m % d != 0 ==> (-m) / d == -(m / d) - 1,
{
    lemma_fundamental_div_mod(m, d);
    let q = m / d;
    let r = m % d;
    if r == 0 {
        assert(-m == (-q) * d + 0) by (nonlinear_arith)
            requires
                m == d * q + r,
                r == 0,
        ;
        lemma_fundamental_div_mod_converse(-m, d, -q, 0);
    } else {
        assert(-m == (-q - 1) * d + (d - r)) by (nonlinear_arith)
            requires
                m == d * q + r,
        ;
        lemma_fundamental_div_mod_converse(-m, d, -q - 1, d - r);
    }
}

proof fn lemma_one_value()
    ensures
        (Ieee32 { bits: ONE_BITS }).magnitude() == unit(),
        (Ieee32 { bits: MINUS_ONE_BITS }).magnitude() == unit(),
        !(Ieee32 { bits: ONE_BITS }).negative(),
        (Ieee32 { bits: MINUS_ONE_BITS }).negative(),
{
    lemma2_to64();
    lemma_pow2_adds(23, 126);
}

} // verus!
