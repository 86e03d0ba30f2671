//! Units of measurement.
use vstd::prelude::*;

use crate::float::{F32, F64};
use crate::text;

verus! {

/// Tera floating-point operations per second.
#[derive(Clone, Copy, Debug, PartialEq, Eq, Structural)]
pub struct Tflops(pub F64);

/// Temperature in degrees Celsius.
#[derive(Clone, Copy, Debug, PartialEq, Eq, Structural)]
pub struct Celsius(pub F32);

/// Power in Watts.
#[derive(Clone, Copy, Debug, PartialEq, Eq, Structural)]
pub struct Watts(pub F32);

/// Memory size in Mebibytes.
#[derive(Clone, Copy, Debug, PartialEq, Eq, PartialOrd, Ord, Structural)]
pub struct Mib(pub u64);

/// Clock frequency in MHz.
#[derive(Clone, Copy, Debug, PartialEq, Eq, PartialOrd, Ord, Structural)]
pub struct Mhz(pub u32);

/// A percentage value in the range 0 to 100.
#[derive(Clone, Copy, Debug, PartialEq, Eq, Structural)]
pub struct Percent(pub F32);

/// The bits of 100 in single precision.
pub const HUNDRED: u32 = 0x42c8_0000;

impl Percent {
    /// Clamps a value to the range 0 to 100.
    pub fn clamped(v: F32) -> (r: Self)
        ensures
            r.0 == v.within(F32::of(0), F32::of(HUNDRED)),
    {
        Percent(v.clamp(F32::of(0), F32::of(HUNDRED)))
    }

    /// The value.
    pub fn as_f32(self) -> (r: F32)
        ensures
            r == self.0,
    {
        self.0
    }
}

/// A clamped number lies between 0 and 100.
pub proof fn law_clamped_is_percentage(v: F32)
    requires
        !v.not_a_number(),
    ensures
        !v.within(F32::of(0), F32::of(HUNDRED)).not_a_number(),
        F32::of(0).code() <= v.within(F32::of(0), F32::of(HUNDRED)).code() <= F32::of(HUNDRED).code(),
{
}

/// The quotient of `n` by `d`, rounded to the nearest integer, to the even one
/// on a tie.
pub open spec fn half_even(n: nat, d: nat) -> nat {
    let q = n / d;
    let r = n % d;
    if 2 * r > d || (2 * r == d && q % 2 == 1) {
        q + 1
    } else {
        q
    }
}

/// Rounds a quotient to the nearest integer, to the even one on a tie.
pub fn round_half_even(n: u128, d: u128) -> (r: u128)
    requires
        0 < d <= 0xffff_ffff_ffff_ffff,
        n < 0xffff_ffff_ffff_ffff_ffff_ffff_ffff_ffff,
    ensures
        r == half_even(n as nat, d as nat),
{
    let q: u128 = n / d;
    let rest: u128 = n % d;
    assert(q <= n) by (nonlinear_arith)
        requires
            q == n / d,
            d > 0,
    ;
    if 2 * rest > d || (2 * rest == d && q % 2 == 1) {
        q + 1
    } else {
        q
    }
}

/// The distance between neighbouring double-precision numbers at `n`, where it
/// is at least one.
pub open spec fn spacing(n: nat) -> nat
    decreases n,
{
    if n < 0x20_0000_0000_0000 {
        1
    } else {
        2 * spacing(n / 2)
    }
}

/// The double-precision number nearest to `n`.
pub open spec fn nearest_double(n: nat) -> nat {
    half_even(n, spacing(n)) * spacing(n)
}

/// The spacing of double-precision numbers at `n`.
fn spacing_at(n: u64) -> (r: u64)
    ensures
        r == spacing(n as nat),
        0 < r <= 0x800,
    decreases n,
{
    proof {
        lemma_spacing_bound(n);
    }
    if n < 0x20_0000_0000_0000 {
        1
    } else {
        2 * spacing_at(n / 2)
    }
}

proof fn lemma_spacing_bound(n: u64)
    ensures
        0 < spacing(n as nat) <= 0x800,
{
    reveal_with_fuel(spacing, 13);
}

/// Mebibytes as tenths of a gibibyte, through the nearest double-precision
/// number.
pub open spec fn gib_tenths(mib: nat) -> nat {
    half_even(nearest_double(mib) * 10, 1024)
}

/// What a memory size is shown as.
pub open spec fn mib_text(mib: nat) -> Seq<char> {
    if mib >= 1024 {
        text::decimal(gib_tenths(mib) / 10) + "."@ + text::decimal(gib_tenths(mib) % 10) + " GiB"@
    } else {
        text::decimal(mib) + " MiB"@
    }
}

impl Mib {
    /// The size in words: gibibytes to one decimal from 1024 MiB on.
    pub fn text(self) -> (r: String)
        ensures
            r@ == mib_text(self.0 as nat),
    {
        if self.0 >= 1024 {
            let step: u64 = spacing_at(self.0);
            let near: u128 = round_half_even(self.0 as u128, step as u128);
            let ghost s = step as nat;
            proof {
                assert(self.0 as nat / s <= self.0) by (nonlinear_arith)
                    requires
                        s > 0,
                ;
                assert(near * step <= 0x1_0000_0000_0000_0000 * 0x1000) by (nonlinear_arith)
                    requires
                        near <= 0x1_0000_0000_0000_0000,
                        step <= 0x800,
                ;
                lemma_nearest_bound(self.0, step, near);
            }
            let tenths: u128 = round_half_even(near * step as u128 * 10, 1024);
            let mut r = text::decimal_text((tenths / 10) as u64);
            r.append(".");
            let last = text::decimal_text((tenths % 10) as u64);
            r.append(last.as_str());
            r.append(" GiB");
            r
        } else {
            let mut r = text::decimal_text(self.0);
            r.append(" MiB");
            r
        }
    }
}

proof fn lemma_nearest_bound(n: u64, step: u64, near: u128)
    requires
        0 < step <= 0x800,
        near == half_even(n as nat, step as nat),
    ensures
        near * step <= 0x1_0000_0000_0000_0000 + 0x800,
{
    let q = n as nat / step as nat;
    assert(q * step <= n) by (nonlinear_arith)
        requires
            q == n as nat / step as nat,
            step > 0,
    ;
    assert(near * step <= q * step + step) by (nonlinear_arith)
        requires
            near <= q + 1,
            step > 0,
    ;
}

impl Mhz {
    /// The frequency in words.
    pub fn text(self) -> (r: String)
        ensures
            r@ == text::decimal(self.0 as nat) + " MHz"@,
    {
        let mut r = text::decimal_text(self.0 as u64);
        r.append(" MHz");
        r
    }
}

/// A percentage keeps every number from 0 to 100 and brings any other to the nearer of
/// the two.
pub proof fn law_percentages_are_clamped(v: F32)
    ensures
        F32::of(0).at_most(v) && v.at_most(F32::of(0x42c8_0000)) ==> v.within(
            F32::of(0),
            F32::of(HUNDRED),
        ) == v,
        v.below(F32::of(0)) ==> v.within(F32::of(0), F32::of(HUNDRED)) == F32::of(0),
        F32::of(0x42c8_0000).below(v) ==> v.within(F32::of(0), F32::of(HUNDRED)) == F32::of(
            0x42c8_0000,
        ),
{
}

/// Rounding goes to an integer at most one half away, and to an even one where two are
/// equally near.
pub proof fn law_rounding_is_nearest(n: nat, d: nat)
    requires
        d > 0,
    ensures
        2 * (half_even(n, d) * d - n) <= d,
        2 * (n - half_even(n, d) * d) <= d,
        2 * (half_even(n, d) * d - n) == d || 2 * (n - half_even(n, d) * d) == d ==> half_even(n, d)
            % 2 == 0,
{
    let q = n / d;
    let r = n % d;
    vstd::arithmetic::div_mod::lemma_fundamental_div_mod(n as int, d as int);
    vstd::arithmetic::div_mod::lemma_mod_bound(n as int, d as int);
    assert(q * d == d * q) by (nonlinear_arith);
    assert((q + 1) * d == q * d + d) by (nonlinear_arith);
    assert(2 * r == d && q % 2 == 1 ==> (q + 1) % 2 == 0);
}

/// Tenths of a gibibyte are at most half a tenth off, for sizes that a double holds
/// exactly.
pub proof fn law_gibibytes_are_rounded(mib: nat)
    requires
        mib < 0x20_0000_0000_0000,
    ensures
        2 * (1024 * gib_tenths(mib) - 10 * mib) <= 1024,
        2 * (10 * mib - 1024 * gib_tenths(mib)) <= 1024,
{
    assert(nearest_double(mib) == mib) by {
        assert(spacing(mib) == 1);
        assert(half_even(mib, 1) == mib);
    }
    law_rounding_is_nearest(mib * 10, 1024);
}

/// A size under 1024 MiB is shown in mebibytes, any other in gibibytes.
pub proof fn law_sizes_are_shown_with_their_unit(mib: nat)
    ensures
        mib < 1024 ==> mib_text(mib) == text::decimal(mib) + " MiB"@,
        mib >= 1024 ==> " GiB"@.is_suffix_of(mib_text(mib)),
{
    reveal_strlit(" GiB");
    if mib >= 1024 {
        let head = text::decimal(gib_tenths(mib) / 10) + "."@ + text::decimal(gib_tenths(mib) % 10);
        let all = mib_text(mib);
        assert(all == head + " GiB"@);
        assert(" GiB"@ =~= all.subrange(all.len() - " GiB"@.len(), all.len() as int));
    }
}

} // verus!
