//! Floating-point numbers as their IEEE 754 bit patterns.
//!
//! The library compares measured quantities against thresholds but never
//! computes with them: a number is held as its bits, and the comparisons go by
//! an integer code whose order is the order of the numbers.
use vstd::arithmetic::power2;
use vstd::prelude::*;

verus! {

/// A single-precision number, by its bits.
#[derive(Clone, Copy, Debug, PartialEq, Eq, Structural)]
pub struct F32 {
    pub bits: u32,
}

/// A double-precision number, by its bits.
#[derive(Clone, Copy, Debug, PartialEq, Eq, Structural)]
pub struct F64 {
    pub bits: u64,
}

/// The weight of the sign bit of a single-precision number.
pub const SIGN_32: u32 = 0x8000_0000;

/// The magnitude of the infinite single-precision numbers.
pub const INFINITE_32: u32 = 0x7f80_0000;

/// The weight of the sign bit of a double-precision number.
pub const SIGN_64: u64 = 0x8000_0000_0000_0000;

/// The magnitude of the infinite double-precision numbers.
pub const INFINITE_64: u64 = 0x7ff0_0000_0000_0000;

impl F32 {
    /// The number with the given bits.
    #[verifier::allow_in_spec]
    pub fn of(bits: u32) -> Self
        returns
            (F32 { bits }),
    {
        F32 { bits }
    }

    /// The bits without the sign.
    pub open spec fn magnitude(self) -> int {
        if self.bits < SIGN_32 {
            self.bits as int
        } else {
            self.bits - SIGN_32
        }
    }

    /// Whether this is not a number.
    pub open spec fn not_a_number(self) -> bool {
        self.magnitude() > INFINITE_32
    }

    /// An integer that orders the numbers as their values are ordered.
    pub open spec fn code(self) -> int {
        if self.bits < SIGN_32 {
            self.magnitude()
        } else {
            -self.magnitude()
        }
    }

    /// Whether this number is finite.
    pub open spec fn finite(self) -> bool {
        self.magnitude() < INFINITE_32
    }

    /// The value of a finite number, in units of the smallest positive one.
    pub open spec fn units(self) -> int {
        let m = scaled_32(self.magnitude() as nat) as int;
        if self.bits < SIGN_32 {
            m
        } else {
            -m
        }
    }

    /// Whether this number is below `other`.
    pub open spec fn below(self, other: F32) -> bool {
        !self.not_a_number() && !other.not_a_number() && self.code() < other.code()
    }

    /// Whether this number is at most `other`.
    pub open spec fn at_most(self, other: F32) -> bool {
        !self.not_a_number() && !other.not_a_number() && self.code() <= other.code()
    }

    /// Whether this number is below `other`; never so where one is not a number.
    pub fn lt(self, other: F32) -> (r: bool)
        ensures
            r == self.below(other),
    {
        let a: u32 = if self.bits < SIGN_32 {
            self.bits
        } else {
            self.bits - SIGN_32
        };
        let b: u32 = if other.bits < SIGN_32 {
            other.bits
        } else {
            other.bits - SIGN_32
        };
        if a > INFINITE_32 || b > INFINITE_32 {
            return false;
        }
        if self.bits < SIGN_32 {
            other.bits < SIGN_32 && a < b
        } else if other.bits < SIGN_32 {
            a > 0 || b > 0
        } else {
            b < a
        }
    }

    /// Whether this number is above `other`; never so where one is not a number.
    pub fn gt(self, other: F32) -> (r: bool)
        ensures
            r == other.below(self),
    {
        other.lt(self)
    }

    /// This number, or the bound that it lies outside.
    pub open spec fn within(self, low: F32, high: F32) -> F32 {
        if self.below(low) {
            low
        } else if high.below(self) {
            high
        } else {
            self
        }
    }

    /// This number brought between two bounds; not a number stays as it is.
    pub fn clamp(self, low: F32, high: F32) -> (r: F32)
        ensures
            r == self.within(low, high),
    {
        if self.lt(low) {
            low
        } else if self.gt(high) {
            high
        } else {
            self
        }
    }
}

impl F64 {
    /// The number with the given bits.
    #[verifier::allow_in_spec]
    pub fn of(bits: u64) -> Self
        returns
            (F64 { bits }),
    {
        F64 { bits }
    }

    /// The bits without the sign.
    pub open spec fn magnitude(self) -> int {
        if self.bits < SIGN_64 {
            self.bits as int
        } else {
            self.bits - SIGN_64
        }
    }

    /// Whether this is not a number.
    pub open spec fn not_a_number(self) -> bool {
        self.magnitude() > INFINITE_64
    }

    /// Whether this number is finite.
    pub open spec fn finite(self) -> bool {
        self.magnitude() < INFINITE_64
    }

    /// An integer that orders the numbers as their values are ordered.
    pub open spec fn code(self) -> int {
        if self.bits < SIGN_64 {
            self.magnitude()
        } else {
            -self.magnitude()
        }
    }

    /// The value of a finite number, in units of the smallest positive one.
    pub open spec fn units(self) -> int {
        let m = scaled_64(self.magnitude() as nat) as int;
        if self.bits < SIGN_64 {
            m
        } else {
            -m
        }
    }

    /// Whether this number is below `other`.
    pub open spec fn below(self, other: F64) -> bool {
        !self.not_a_number() && !other.not_a_number() && self.code() < other.code()
    }

    /// Whether this number is at most `other`.
    pub open spec fn at_most(self, other: F64) -> bool {
        !self.not_a_number() && !other.not_a_number() && self.code() <= other.code()
    }

    /// Whether this is not a number.
    pub fn is_nan(self) -> (r: bool)
        ensures
            r == self.not_a_number(),
    {
        if self.bits < SIGN_64 {
            self.bits > INFINITE_64
        } else {
            self.bits - SIGN_64 > INFINITE_64
        }
    }

    /// Whether this number is below `other`; never so where one is not a number.
    pub fn lt(self, other: F64) -> (r: bool)
        ensures
            r == self.below(other),
    {
        if self.is_nan() || other.is_nan() {
            return false;
        }
        if self.bits < SIGN_64 {
            other.bits < SIGN_64 && self.bits < other.bits
        } else if other.bits < SIGN_64 {
            self.bits > SIGN_64 || other.bits > 0
        } else {
            other.bits < self.bits
        }
    }

    /// Whether this number is at most `other`; never so where one is not a number.
    pub fn le(self, other: F64) -> (r: bool)
        ensures
            r == self.at_most(other),
    {
        !self.is_nan() && !other.is_nan() && !other.lt(self)
    }

    /// Whether this number is above `other`; never so where one is not a number.
    pub fn gt(self, other: F64) -> (r: bool)
        ensures
            r == other.below(self),
    {
        other.lt(self)
    }

    /// Whether this number is at least `other`; never so where one is not a number.
    pub fn ge(self, other: F64) -> (r: bool)
        ensures
            r == other.at_most(self),
    {
        other.le(self)
    }

    /// This number, or the bound that it lies outside.
    pub open spec fn within(self, low: F64, high: F64) -> F64 {
        if self.below(low) {
            low
        } else if high.below(self) {
            high
        } else {
            self
        }
    }

    /// This number brought between two bounds; not a number stays as it is.
    pub fn clamp(self, low: F64, high: F64) -> (r: F64)
        ensures
            r == self.within(low, high),
    {
        if self.lt(low) {
            low
        } else if self.gt(high) {
            high
        } else {
            self
        }
    }
}

/// The value of the double-precision number with a given magnitude, in units of
/// the smallest positive one: a fraction of 52 bits under an exponent of 11.
pub open spec fn scaled_64(m: nat) -> nat {
    let exponent = m / 0x10_0000_0000_0000;
    let fraction = m % 0x10_0000_0000_0000;
    if exponent == 0 {
        fraction
    } else {
        (0x10_0000_0000_0000 + fraction) * power2::pow2((exponent - 1) as nat)
    }
}

proof fn lemma_scaled_increases(a: nat, b: nat)
    requires
        a < b,
    ensures
        scaled_64(a) < scaled_64(b),
{
    let c: nat = 0x10_0000_0000_0000;
    let ea = a / c;
    let eb = b / c;
    let fa = a % c;
    let fb = b % c;
    assert(ea <= eb);
    if ea == eb {
        if ea > 0 {
            power2::lemma_pow2_pos((ea - 1) as nat);
            let p = power2::pow2((ea - 1) as nat);
            assert((c + fa) * p < (c + fb) * p) by (nonlinear_arith)
                requires
                    fa < fb,
                    p > 0,
            ;
        }
    } else if ea == 0 {
        power2::lemma_pow2_pos((eb - 1) as nat);
        let p = power2::pow2((eb - 1) as nat);
        assert(fa < (c + fb) * p) by (nonlinear_arith)
            requires
                fa < c,
                p > 0,
        ;
    } else {
        let p = power2::pow2((ea - 1) as nat);
        let q = power2::pow2((eb - 1) as nat);
        power2::lemma_pow2_pos((ea - 1) as nat);
        assert(2 * p <= q) by {
            power2::lemma_pow2_adds((ea - 1) as nat, 1);
            assert(power2::pow2(1) == 2) by {
                power2::lemma2_to64();
            }
            assert(power2::pow2(ea) == 2 * p) by (nonlinear_arith)
                requires
                    power2::pow2(ea) == p * power2::pow2(1),
                    power2::pow2(1) == 2,
            ;
            if ea < eb - 1 {
                power2::lemma_pow2_strictly_increases(ea, (eb - 1) as nat);
            }
        }
        assert((c + fa) * p < (c + fb) * q) by (nonlinear_arith)
            requires
                fa < c,
                2 * p <= q,
                p > 0,
        ;
    }
}

/// The comparisons order finite numbers as their values are ordered.
pub proof fn law_order_is_numeric(a: F64, b: F64)
    requires
        a.finite(),
        b.finite(),
    ensures
        a.below(b) <==> a.units() < b.units(),
        a.at_most(b) <==> a.units() <= b.units(),
{
    let x = a.magnitude() as nat;
    let y = b.magnitude() as nat;
    assert(scaled_64(0) == 0);
    if x > 0 {
        lemma_scaled_increases(0, x);
    }
    if y > 0 {
        lemma_scaled_increases(0, y);
    }
    if x < y {
        lemma_scaled_increases(x, y);
    }
    if y < x {
        lemma_scaled_increases(y, x);
    }
}

/// The value of the single-precision number with a given magnitude, in units of the
/// smallest positive one: a fraction of 23 bits under an exponent of 8.
pub open spec fn scaled_32(m: nat) -> nat {
    let exponent = m / 0x80_0000;
    let fraction = m % 0x80_0000;
    if exponent == 0 {
        fraction
    } else {
        (0x80_0000 + fraction) * power2::pow2((exponent - 1) as nat)
    }
}

proof fn lemma_scaled_32_increases(a: nat, b: nat)
    requires
        a < b,
    ensures
        scaled_32(a) < scaled_32(b),
{
    let c: nat = 0x80_0000;
    let ea = a / c;
    let eb = b / c;
    let fa = a % c;
    let fb = b % c;
    assert(ea <= eb);
    if ea == eb {
        if ea > 0 {
            power2::lemma_pow2_pos((ea - 1) as nat);
            let p = power2::pow2((ea - 1) as nat);
            assert((c + fa) * p < (c + fb) * p) by (nonlinear_arith)
                requires
                    fa < fb,
                    p > 0,
            ;
        }
    } else if ea == 0 {
        power2::lemma_pow2_pos((eb - 1) as nat);
        let p = power2::pow2((eb - 1) as nat);
        assert(fa < (c + fb) * p) by (nonlinear_arith)
            requires
                fa < c,
                p > 0,
        ;
    } else {
        let p = power2::pow2((ea - 1) as nat);
        let q = power2::pow2((eb - 1) as nat);
        power2::lemma_pow2_pos((ea - 1) as nat);
        assert(2 * p <= q) by {
            power2::lemma_pow2_adds((ea - 1) as nat, 1);
            assert(power2::pow2(1) == 2) by {
                power2::lemma2_to64();
            }
            assert(power2::pow2(ea) == 2 * p) by (nonlinear_arith)
                requires
                    power2::pow2(ea) == p * power2::pow2(1),
                    power2::pow2(1) == 2,
            ;
            if ea < eb - 1 {
                power2::lemma_pow2_strictly_increases(ea, (eb - 1) as nat);
            }
        }
        assert((c + fa) * p < (c + fb) * q) by (nonlinear_arith)
            requires
                fa < c,
                2 * p <= q,
                p > 0,
        ;
    }
}

/// The comparisons order finite single-precision numbers as their values are ordered.
pub proof fn law_single_order_is_numeric(a: F32, b: F32)
    requires
        a.finite(),
        b.finite(),
    ensures
        a.below(b) <==> a.units() < b.units(),
        a.at_most(b) <==> a.units() <= b.units(),
{
    let x = a.magnitude() as nat;
    let y = b.magnitude() as nat;
    assert(scaled_32(0) == 0);
    if x > 0 {
        lemma_scaled_32_increases(0, x);
    }
    if y > 0 {
        lemma_scaled_32_increases(0, y);
    }
    if x < y {
        lemma_scaled_32_increases(x, y);
    }
    if y < x {
        lemma_scaled_32_increases(y, x);
    }
}

/// What is not a number, an exponent of all ones over a fraction that is not zero, is
/// never ordered; every other number is ordered with every other one.
pub proof fn law_order_is_total_but_for_nan(a: F64, b: F64)
    ensures
        a.bits % 0x8000_0000_0000_0000 > 0x7ff0_0000_0000_0000 ==> !a.below(b) && !b.below(a)
            && !a.at_most(b) && !b.at_most(a),
        a.bits % 0x8000_0000_0000_0000 <= 0x7ff0_0000_0000_0000 && b.bits % 0x8000_0000_0000_0000
            <= 0x7ff0_0000_0000_0000 ==> (a.below(b) <==> !b.at_most(a)) && (a.at_most(b)
            || b.at_most(a)),
{
}

/// What is not a number, an exponent of all ones over a fraction that is not zero, is
/// never ordered; every other number is ordered with every other one.
pub proof fn law_single_order_is_total_but_for_nan(a: F32, b: F32)
    ensures
        a.bits % 0x8000_0000 > 0x7f80_0000 ==> !a.below(b) && !b.below(a) && !a.at_most(b)
            && !b.at_most(a),
        a.bits % 0x8000_0000 <= 0x7f80_0000 && b.bits % 0x8000_0000 <= 0x7f80_0000 ==> (a.below(b)
            <==> !b.at_most(a)) && (a.at_most(b) || b.at_most(a)),
{
}

/// A number brought between two bounds lies between them, and is the number itself
/// where that does; otherwise it is the nearer bound. What is not a number stays.
pub proof fn law_clamping(x: F64, low: F64, high: F64)
    requires
        low.at_most(high),
    ensures
        !x.not_a_number() ==> low.at_most(x.within(low, high)) && x.within(low, high).at_most(high),
        low.at_most(x) && x.at_most(high) ==> x.within(low, high) == x,
        x.below(low) ==> x.within(low, high) == low,
        high.below(x) ==> x.within(low, high) == high,
        x.not_a_number() ==> x.within(low, high) == x,
{
}

/// A number brought between two bounds lies between them, and is the number itself
/// where that does; otherwise it is the nearer bound. What is not a number stays.
pub proof fn law_single_clamping(x: F32, low: F32, high: F32)
    requires
        low.at_most(high),
    ensures
        !x.not_a_number() ==> low.at_most(x.within(low, high)) && x.within(low, high).at_most(high),
        low.at_most(x) && x.at_most(high) ==> x.within(low, high) == x,
        x.below(low) ==> x.within(low, high) == low,
        high.below(x) ==> x.within(low, high) == high,
        x.not_a_number() ==> x.within(low, high) == x,
{
}

} // verus!
