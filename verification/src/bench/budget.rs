//! How many iterations a time budget allows, and when a warm-up has settled.
use vstd::prelude::*;

use crate::text;

verus! {

broadcast use vstd::string::group_string_axioms;

/// The longest time span that a clock can report, in nanoseconds.
pub const LONGEST_NS: u128 = 18_446_744_073_709_551_615_999_999_999;

/// The number of measurement iterations that a reduction leaves at least, where so
/// many were requested.
pub const FEWEST_ITERATIONS: u32 = 10;

/// A multiple of a time span, as far as a clock can report one.
pub open spec fn multiple(span_ns: nat, times: nat) -> nat {
    if span_ns * times <= LONGEST_NS {
        span_ns * times
    } else {
        LONGEST_NS as nat
    }
}

/// The fewest iterations that a request is reduced to.
pub open spec fn fewest(requested: u32) -> u32 {
    if requested < FEWEST_ITERATIONS {
        requested
    } else {
        FEWEST_ITERATIONS
    }
}

/// The number of measurement iterations for a time budget, when one iteration
/// takes `per_ns`: those requested where warm-up and measurement fit; else as many
/// as fit after the warm-up, but no fewer than ten of those requested.
pub open spec fn allowed(requested: u32, warmup: u32, per_ns: nat, max_ns: nat) -> u32 {
    if per_ns == 0 || multiple(per_ns, (warmup + requested) as nat) <= max_ns {
        requested
    } else if multiple(per_ns, warmup as nat) >= max_ns {
        fewest(requested)
    } else {
        let fits = (max_ns - multiple(per_ns, warmup as nat)) as nat / per_ns;
        if fits < fewest(requested) {
            fewest(requested)
        } else {
            fits as u32
        }
    }
}

/// What is said of a reduced budget.
pub open spec fn budget_note(requested: u32, warmup: u32, per_ns: nat, max_ns: nat) -> Option<
    Seq<char>,
> {
    let minutes = text::decimal(max_ns / 1_000_000_000 / 60);
    let n = allowed(requested, warmup, per_ns, max_ns);
    if per_ns == 0 || multiple(per_ns, (warmup + requested) as nat) <= max_ns {
        None
    } else if multiple(per_ns, warmup as nat) >= max_ns {
        Some(
            "Warning: warm-up alone may exceed the "@ + minutes
                + "-minute time budget. Proceeding with "@ + text::decimal(n as nat)
                + " measurement iterations."@,
        )
    } else if n < requested {
        Some(
            "Warning: reducing measurement iterations from "@ + text::decimal(requested as nat)
                + " to "@ + text::decimal(n as nat) + " to stay within the "@ + minutes
                + "-minute time budget."@,
        )
    } else {
        None
    }
}

/// A budget only ever lowers the number of iterations. It leaves the number requested
/// where all fit, and where it lowers it to more than ten, warm-up and measurement
/// fit the budget.
pub proof fn law_budget_is_kept(requested: u32, warmup: u32, per_ns: nat, max_ns: nat)
    requires
        per_ns <= LONGEST_NS,
        max_ns <= LONGEST_NS,
    ensures
        fewest(requested) <= allowed(requested, warmup, per_ns, max_ns) <= requested,
        per_ns * (warmup + requested) <= max_ns ==> allowed(requested, warmup, per_ns, max_ns)
            == requested,
        FEWEST_ITERATIONS < allowed(requested, warmup, per_ns, max_ns) < requested ==> per_ns * (
        warmup + allowed(requested, warmup, per_ns, max_ns)) <= max_ns,
{
    if per_ns > 0 && multiple(per_ns, (warmup + requested) as nat) > max_ns && multiple(
        per_ns,
        warmup as nat,
    ) < max_ns {
        lemma_fits(requested, warmup, per_ns, max_ns);
    }
}

/// What fits after the warm-up is fewer than requested, where not all fit.
proof fn lemma_fits(requested: u32, warmup: u32, per_ns: nat, max_ns: nat)
    requires
        per_ns > 0,
        max_ns <= LONGEST_NS,
        multiple(per_ns, (warmup + requested) as nat) > max_ns,
        multiple(per_ns, warmup as nat) < max_ns,
    ensures
        (max_ns - multiple(per_ns, warmup as nat)) as nat / per_ns < requested,
        per_ns * (warmup + (max_ns - multiple(per_ns, warmup as nat)) as nat / per_ns) <= max_ns,
{
    let w = per_ns * warmup;
    let left = (max_ns - w) as nat;
    let fits = left / per_ns;
    assert(w == multiple(per_ns, warmup as nat));
    assert(per_ns * (warmup + requested) > max_ns);
    assert(fits * per_ns <= left) by (nonlinear_arith)
        requires
            fits == left / per_ns,
            per_ns > 0,
    ;
    assert(fits < requested) by (nonlinear_arith)
        requires
            fits * per_ns <= left,
            left == max_ns - per_ns * warmup,
            per_ns * (warmup + requested) > max_ns,
            per_ns > 0,
    ;
    assert(per_ns * (warmup + fits) <= max_ns) by (nonlinear_arith)
        requires
            fits * per_ns <= left,
            left == max_ns - per_ns * warmup,
    ;
}

/// A multiple of a time span, saturating at the longest one.
fn times_saturating(span_ns: u128, times: u32) -> (r: u128)
    requires
        span_ns <= LONGEST_NS,
    ensures
        r == multiple(span_ns as nat, times as nat),
{
    match span_ns.checked_mul(times as u128) {
        Some(n) => if n <= LONGEST_NS {
            n
        } else {
            LONGEST_NS
        },
        None => LONGEST_NS,
    }
}

/// A number of iterations, with what to say of it.
pub struct Budget {
    pub iterations: u32,
    pub note: Option<String>,
}

/// Reduces the iteration count if the full benchmark would exceed `max_ns`, given
/// the time of one pilot iteration.
pub fn budget_guard(requested: u32, warmup: u32, per_ns: u128, max_ns: u128) -> (r: Budget)
    requires
        warmup + requested <= u32::MAX,
        per_ns <= LONGEST_NS,
        max_ns <= LONGEST_NS,
    ensures
        r.iterations == allowed(requested, warmup, per_ns as nat, max_ns as nat),
        match r.note {
            Some(n) => budget_note(requested, warmup, per_ns as nat, max_ns as nat) == Some(n@),
            None => budget_note(requested, warmup, per_ns as nat, max_ns as nat) is None,
        },
{
    if per_ns == 0 {
        return Budget { iterations: requested, note: None };
    }
    // Estimated time for warm-up and measurement (pilot counts as first warm-up step).
    let total_estimate: u128 = times_saturating(per_ns, warmup + requested);
    if total_estimate <= max_ns {
        return Budget { iterations: requested, note: None };
    }
    let minutes: u64 = (max_ns / 1_000_000_000 / 60) as u64;
    let least: u32 = if requested < FEWEST_ITERATIONS {
        requested
    } else {
        FEWEST_ITERATIONS
    };
    let warmup_cost: u128 = times_saturating(per_ns, warmup);
    if warmup_cost >= max_ns {
        let mut note = "Warning: warm-up alone may exceed the ".to_owned();
        note.append(text::decimal_text(minutes).as_str());
        note.append("-minute time budget. Proceeding with ");
        note.append(text::decimal_text(least as u64).as_str());
        note.append(" measurement iterations.");
        return Budget { iterations: least, note: Some(note) };
    }
    proof {
        lemma_fits(requested, warmup, per_ns as nat, max_ns as nat);
    }
    let fits: u128 = (max_ns - warmup_cost) / per_ns;
    let reduced: u32 = if fits < least as u128 {
        least
    } else {
        fits as u32
    };
    if reduced < requested {
        let mut note = "Warning: reducing measurement iterations from ".to_owned();
        note.append(text::decimal_text(requested as u64).as_str());
        note.append(" to ");
        note.append(text::decimal_text(reduced as u64).as_str());
        note.append(" to stay within the ");
        note.append(text::decimal_text(minutes).as_str());
        note.append("-minute time budget.");
        Budget { iterations: reduced, note: Some(note) }
    } else {
        Budget { iterations: reduced, note: None }
    }
}

/// The sum of a list of numbers.
pub open spec fn total(s: Seq<u64>) -> nat
    decreases s.len(),
{
    if s.len() == 0 {
        0
    } else {
        total(s.drop_last()) + s.last() as nat
    }
}

/// The sum of the squares of a list of numbers.
pub open spec fn squares(s: Seq<u64>) -> nat
    decreases s.len(),
{
    if s.len() == 0 {
        0
    } else {
        squares(s.drop_last()) + s.last() as nat * s.last() as nat
    }
}

/// Whether the sample standard deviation of five timings is below a tenth of
/// their mean, and the mean above zero.
///
/// With the sum `t` and the sum of squares `q`, the mean is `t / 5`, the variance
/// `(q - t * t / 5) / 4`, and a variance below a hundredth of the mean's square
/// comes to `625 * q < 126 * t * t`.
pub open spec fn is_steady(window: Seq<u64>) -> bool {
    window.len() == 5 && total(window) > 0 && 625 * squares(window) < 126 * (total(window) * total(
        window,
    ))
}

/// The number of values of a 64-bit digit.
pub const DIGIT: u128 = 0x1_0000_0000_0000_0000;

/// The number that two digits, each maybe larger than one, stand for.
pub open spec fn in_digits(high: u128, low: u128) -> nat {
    high as nat * DIGIT as nat + low as nat
}

/// Whether one number in two digits is below another.
fn digits_below(a_high: u128, a_low: u128, b_high: u128, b_low: u128) -> (r: bool)
    requires
        a_high <= u128::MAX - DIGIT,
        b_high <= u128::MAX - DIGIT,
    ensures
        r == (in_digits(a_high, a_low) < in_digits(b_high, b_low)),
{
    let a: u128 = a_high + a_low / DIGIT;
    let b: u128 = b_high + b_low / DIGIT;
    a < b || (a == b && a_low % DIGIT < b_low % DIGIT)
}

/// Whether five timings are steady.
pub fn steady(window: &Vec<u64>) -> (r: bool)
    ensures
        r == is_steady(window@),
{
    if window.len() != 5 {
        return false;
    }
    let mut t: u128 = 0;
    let mut q_high: u128 = 0;
    let mut q_low: u128 = 0;
    let mut i: usize = 0;
    while i < 5
        invariant
            window@.len() == 5,
            i <= 5,
            t == total(window@.take(i as int)),
            in_digits(q_high, q_low) == squares(window@.take(i as int)),
            t <= i * DIGIT,
            q_high <= i * DIGIT,
            q_low <= i * DIGIT,
        decreases 5 - i,
    {
        let x: u128 = window[i] as u128;
        proof {
            assert(window@.take(i + 1).drop_last() =~= window@.take(i as int));
            assert(window@.take(i + 1).last() == window@[i as int]);
            assert(x * x <= 0xffff_ffff_ffff_ffff * 0xffff_ffff_ffff_ffff) by (nonlinear_arith)
                requires
                    0 <= x <= 0xffff_ffff_ffff_ffff,
            ;
        }
        let square: u128 = x * x;
        t = t + x;
        q_high = q_high + square / DIGIT;
        q_low = q_low + square % DIGIT;
        i = i + 1;
    }
    assert(window@.take(5) =~= window@);
    let high: u128 = t / DIGIT;
    let low: u128 = t % DIGIT;
    proof {
        assert(high * high <= 25) by (nonlinear_arith)
            requires
                0 <= high <= 5,
        ;
        assert(high * low <= 5 * DIGIT) by (nonlinear_arith)
            requires
                0 <= high <= 5,
                0 <= low <= DIGIT,
        ;
        assert(low * low <= 0xffff_ffff_ffff_ffff * 0xffff_ffff_ffff_ffff) by (nonlinear_arith)
            requires
                0 <= low <= 0xffff_ffff_ffff_ffff,
        ;
    }
    let square: u128 = low * low;
    let s_high: u128 = high * high * DIGIT + 2 * (high * low) + square / DIGIT;
    let s_low: u128 = square % DIGIT;
    proof {
        assert((high * DIGIT + low) * (high * DIGIT + low) == (high * high * DIGIT + 2 * (high
            * low)) * DIGIT + low * low) by (nonlinear_arith);
        assert(in_digits(s_high, s_low) == t * t);
    }
    t > 0 && digits_below(625 * q_high, 625 * q_low, 126 * s_high, 126 * s_low)
}

/// Scaling every timing by the same factor leaves steadiness as it is.
pub proof fn law_steadiness_is_scale_free(window: Seq<u64>, scaled: Seq<u64>, factor: nat)
    requires
        factor > 0,
        window.len() == scaled.len(),
        forall|i: int| 0 <= i < window.len() ==> #[trigger] scaled[i] == window[i] * factor,
    ensures
        is_steady(window) == is_steady(scaled),
{
    lemma_scaled_sums(window, scaled, factor);
    let t = total(window);
    let q = squares(window);
    assert((factor * t) * (factor * t) == (factor * factor) * (t * t)) by (nonlinear_arith);
    assert(factor * t > 0 <==> t > 0) by (nonlinear_arith)
        requires
            factor > 0,
    ;
    let f = factor * factor;
    assert(f > 0) by (nonlinear_arith)
        requires
            factor > 0,
            f == factor * factor,
    ;
    assert((625 * (f * q) < 126 * (f * (t * t))) <==> (625 * q < 126 * (t * t)))
        by (nonlinear_arith)
        requires
            f > 0,
    ;
}

proof fn lemma_scaled_sums(window: Seq<u64>, scaled: Seq<u64>, factor: nat)
    requires
        window.len() == scaled.len(),
        forall|i: int| 0 <= i < window.len() ==> #[trigger] scaled[i] == window[i] * factor,
    ensures
        total(scaled) == factor * total(window),
        squares(scaled) == (factor * factor) * squares(window),
    decreases window.len(),
{
    if window.len() > 0 {
        lemma_scaled_sums(window.drop_last(), scaled.drop_last(), factor);
        let x = window.last() as nat;
        let t = total(window.drop_last());
        let q = squares(window.drop_last());
        assert(scaled[window.len() - 1] == window[window.len() - 1] * factor);
        assert(factor * t + x * factor == factor * (t + x)) by (nonlinear_arith);
        assert((factor * factor) * q + (x * factor) * (x * factor) == (factor * factor) * (q + x
            * x)) by (nonlinear_arith);
    } else {
        assert(factor * 0nat == 0) by (nonlinear_arith);
        assert((factor * factor) * 0nat == 0) by (nonlinear_arith);
    }
}

/// Where a request of more than ten is lowered to more than ten, one iteration more would
/// exceed the budget; where not even ten fit, ten are run, or all where fewer were asked
/// for. The request stands only where it fits or is no more than ten.
pub proof fn law_budget_is_used_up(requested: u32, warmup: u32, per_ns: nat, max_ns: nat)
    requires
        0 < per_ns <= LONGEST_NS,
        max_ns < LONGEST_NS,
        per_ns * (warmup + requested) > max_ns,
    ensures
        requested <= 10 ==> allowed(requested, warmup, per_ns, max_ns) == requested,
        requested > 10 ==> 10 <= allowed(requested, warmup, per_ns, max_ns) < requested,
        requested > 10 && per_ns * (warmup + 10) > max_ns ==> allowed(
            requested,
            warmup,
            per_ns,
            max_ns,
        ) == 10,
        requested > 10 ==> per_ns * (warmup + allowed(requested, warmup, per_ns, max_ns) + 1)
            > max_ns,
{
    let r = requested as nat;
    let w = warmup as nat;
    let all = per_ns * (w + r);
    assert(multiple(per_ns, (w + r) as nat) > max_ns);
    let n = allowed(requested, warmup, per_ns, max_ns) as nat;
    if multiple(per_ns, w) < max_ns {
        lemma_fits(requested, warmup, per_ns, max_ns);
        let left = (max_ns - per_ns * w) as nat;
        let fits = left / per_ns;
        assert(per_ns * w == multiple(per_ns, w));
        assert(left < per_ns * (fits + 1)) by {
            vstd::arithmetic::div_mod::lemma_fundamental_div_mod(left as int, per_ns as int);
            vstd::arithmetic::div_mod::lemma_mod_bound(left as int, per_ns as int);
            assert(per_ns * (fits + 1) == per_ns * fits + per_ns) by (nonlinear_arith);
        }
        assert(per_ns * (w + fits + 1) == per_ns * w + per_ns * (fits + 1)) by (nonlinear_arith);
        assert(per_ns * (w + n + 1) >= per_ns * (w + fits + 1)) by (nonlinear_arith)
            requires
                n >= fits,
        ;
        if per_ns * (w + 10) > max_ns {
            assert(fits < 10) by (nonlinear_arith)
                requires
                    per_ns * (w + fits) <= max_ns,
                    per_ns * (w + 10) > max_ns,
                    per_ns > 0,
            ;
        }
    } else {
        assert(per_ns * w >= max_ns);
        assert(per_ns * (w + n + 1) > per_ns * w) by (nonlinear_arith)
            requires
                per_ns > 0,
        ;
    }
}

/// A note is made exactly where the request is lowered, or the warm-up alone uses up the
/// budget.
pub proof fn law_reductions_are_told(requested: u32, warmup: u32, per_ns: nat, max_ns: nat)
    requires
        0 < per_ns <= LONGEST_NS,
        max_ns < LONGEST_NS,
    ensures
        budget_note(requested, warmup, per_ns, max_ns) is Some <==> per_ns * (warmup + requested)
            > max_ns && (allowed(requested, warmup, per_ns, max_ns) < requested || per_ns * warmup
            >= max_ns),
{
}

/// Five timings are steady exactly when the squares of their distances to the mean, with
/// all taken five times, come to less than a twenty-fifth of the square of the sum: the
/// sample deviation is then below a tenth of the mean.
pub proof fn law_steadiness_is_a_small_deviation(a: u64, b: u64, c: u64, d: u64, e: u64)
    ensures
        ({
            let t = a + b + c + d + e;
            is_steady(seq![a, b, c, d, e]) <==> t > 0 && 25 * ((5 * a - t) * (5 * a - t) + (5 * b
                - t) * (5 * b - t) + (5 * c - t) * (5 * c - t) + (5 * d - t) * (5 * d - t) + (5 * e
                - t) * (5 * e - t)) < t * t
        }),
{
    let w = seq![a, b, c, d, e];
    reveal_with_fuel(total, 6);
    reveal_with_fuel(squares, 6);
    assert(w.drop_last() =~= seq![a, b, c, d]);
    assert(w.drop_last().drop_last() =~= seq![a, b, c]);
    assert(w.drop_last().drop_last().drop_last() =~= seq![a, b]);
    assert(w.drop_last().drop_last().drop_last().drop_last() =~= seq![a]);
    let t = a + b + c + d + e;
    let q = a * a + b * b + c * c + d * d + e * e;
    assert(total(w) == t);
    assert(squares(w) == q);
    lemma_deviations(a as int, b as int, c as int, d as int, e as int, t, q);
}

proof fn lemma_deviations(a: int, b: int, c: int, d: int, e: int, t: int, q: int)
    requires
        t == a + b + c + d + e,
        q == a * a + b * b + c * c + d * d + e * e,
    ensures
        (5 * a - t) * (5 * a - t) + (5 * b - t) * (5 * b - t) + (5 * c - t) * (5 * c - t) + (5 * d
            - t) * (5 * d - t) + (5 * e - t) * (5 * e - t) == 25 * q - 5 * (t * t),
{
    lemma_square(a, t);
    lemma_square(b, t);
    lemma_square(c, t);
    lemma_square(d, t);
    lemma_square(e, t);
    assert(a * t + b * t + c * t + d * t + e * t == t * t) by (nonlinear_arith)
        requires
            t == a + b + c + d + e,
    ;
}

proof fn lemma_square(x: int, t: int)
    ensures
        (5 * x - t) * (5 * x - t) == 25 * (x * x) - 10 * (x * t) + t * t,
{
    assert((5 * x - t) * (5 * x - t) == 25 * (x * x) - 10 * (x * t) + t * t) by (nonlinear_arith);
}

} // verus!
