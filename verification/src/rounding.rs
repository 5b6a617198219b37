//! Ratios and products in binary floating point, written in integers: the same
//! rounding, without a floating-point number.

use vstd::prelude::*;

verus! {

/// The numbers below this are exact in single precision.
pub const SINGLE: u64 = 0x100_0000;

/// The numbers below this are exact in double precision.
pub const DOUBLE: u64 = 0x20_0000_0000_0000;

/// The step between the numbers near `n` that keep only as many binary digits
/// as the numbers below `limit` have.
pub open spec fn step_near(n: nat, limit: nat) -> nat
    decreases n,
{
    if n < limit || n == 0 {
        1
    } else {
        2 * step_near(n / 2, limit)
    }
}

/// The multiple of `step` that is nearest to `n`; of two, the one that is even.
pub open spec fn nearest_multiple(n: nat, step: nat) -> nat {
    let below = n / step;
    let left = n % step;
    if 2 * left > step || (2 * left == step && below % 2 == 1) {
        (below + 1) * step
    } else {
        below * step
    }
}

/// The number nearest to `n` that keeps only as many binary digits as the
/// numbers below `limit` have.
pub open spec fn rounded(n: nat, limit: nat) -> nat {
    nearest_multiple(n, step_near(n, limit))
}

/// Whether `part / whole`, computed in double precision, is at least 0.30.
///
/// The constant is twice 0.30 in units of its last digit, less one: a quotient
/// is rounded to 0.30 or above just where it lies above that midpoint.
pub open spec fn at_least_30_percent(part: nat, whole: nat) -> bool {
    rounded(part, DOUBLE as nat) * 0x80_0000_0000_0000 > 10808639105689189 * rounded(
        whole,
        DOUBLE as nat,
    )
}

/// Whether `part / whole`, computed in double precision, is below 0.005.
pub open spec fn below_half_percent(part: nat, whole: nat) -> bool {
    rounded(part, DOUBLE as nat) * 0x2000_0000_0000_0000 <= 11529215046068469 * rounded(
        whole,
        DOUBLE as nat,
    )
}

/// `value` times a single-precision factor, in single precision, without its
/// fraction, and at most the largest 32-bit number. The factor is given in
/// units of two to the power -25.
pub open spec fn scaled(value: nat, factor: nat) -> nat {
    let product = rounded(rounded(value, SINGLE as nat) * factor, SINGLE as nat) / 0x200_0000;
    if product > u32::MAX {
        u32::MAX as nat
    } else {
        product
    }
}

/// What rounding keeps: small numbers are exact, and no number drops below a
/// power of two that it reaches.
pub proof fn lemma_rounded(n: nat, limit: nat)
    requires
        limit >= 2,
    ensures
        n < limit ==> rounded(n, limit) == n,
        rounded(n, limit) <= 2 * n,
        n >= limit ==> 2 * rounded(n, limit) >= limit,
{
    lemma_step_near(n, limit);
    let step = step_near(n, limit);
    let below = n / step;
    let left = n % step;
    vstd::arithmetic::div_mod::lemma_fundamental_div_mod(n as int, step as int);
    assert(step * below == below * step) by (nonlinear_arith);
    assert((below + 1) * step == below * step + step) by (nonlinear_arith);
}

/// The step is no larger than the number, once the number is not exact.
proof fn lemma_step_near(n: nat, limit: nat)
    requires
        limit >= 2,
    ensures
        step_near(n, limit) >= 1,
        n < limit ==> step_near(n, limit) == 1,
        n > 0 ==> step_near(n, limit) <= n,
    decreases n,
{
    if n >= limit {
        lemma_step_near(n / 2, limit);
    }
}

/// How the step follows the number: it is the least that leaves fewer than
/// `limit` multiples below the number.
proof fn lemma_step_bounds(n: nat, limit: nat)
    requires
        limit >= 2,
    ensures
        n < limit * step_near(n, limit),
        step_near(n, limit) == 1 || limit * step_near(n, limit) <= 2 * n,
        step_near(n, limit) == 1 || step_near(n, limit) % 2 == 0,
    decreases n,
{
    if n >= limit {
        let half = step_near(n / 2, limit);
        lemma_step_bounds(n / 2, limit);
        assert(limit * (2 * half) == 2 * (limit * half)) by (nonlinear_arith);
    } else {
        assert(limit * 1 == limit);
    }
}

/// The steps of two numbers are equal, or one is at least twice the other.
proof fn lemma_step_order(n: nat, m: nat, limit: nat)
    requires
        limit >= 2,
        n <= m,
    ensures
        step_near(n, limit) == step_near(m, limit) || 2 * step_near(n, limit) <= step_near(
            m,
            limit,
        ),
    decreases m,
{
    if m >= limit {
        lemma_step_near(m / 2, limit);
        if n >= limit {
            lemma_step_order(n / 2, m / 2, limit);
        }
    }
}

/// Rounding keeps the order of numbers.
pub proof fn rounding_is_monotone(n: nat, m: nat, limit: nat)
    requires
        limit >= 2,
        limit % 2 == 0,
        n <= m,
    ensures
        rounded(n, limit) <= rounded(m, limit),
{
    let (a, b) = (step_near(n, limit), step_near(m, limit));
    lemma_step_near(n, limit);
    lemma_step_near(m, limit);
    lemma_step_bounds(n, limit);
    lemma_step_bounds(m, limit);
    lemma_step_order(n, m, limit);
    vstd::arithmetic::div_mod::lemma_fundamental_div_mod(n as int, a as int);
    vstd::arithmetic::div_mod::lemma_fundamental_div_mod(m as int, b as int);
    let (p, q) = (n / a, m / b);
    assert(p * a == a * p && (p + 1) * a == a * p + a) by (nonlinear_arith);
    assert(q * b == b * q && (q + 1) * b == b * q + b) by (nonlinear_arith);
    if a == b {
        assert(p <= q) by (nonlinear_arith)
            requires
                a * p <= m,
                m < a * q + a,
                a >= 1,
        ;
        if p < q {
            assert((p + 1) * a <= q * a) by (nonlinear_arith)
                requires
                    p + 1 <= q,
            ;
        }
    } else {
        let half = limit / 2;
        assert(p + 1 <= limit) by (nonlinear_arith)
            requires
                a * p <= n,
                n < limit * a,
                a >= 1,
        ;
        assert((p + 1) * a <= limit * a) by (nonlinear_arith)
            requires
                p + 1 <= limit,
        ;
        assert(limit * b == 2 * (half * b)) by (nonlinear_arith)
            requires
                limit == 2 * half,
        ;
        assert(q >= half) by (nonlinear_arith)
            requires
                half * b <= m,
                m < b * q + b,
                b >= 1,
        ;
        assert(q * b >= half * b) by (nonlinear_arith)
            requires
                q >= half,
        ;
        assert(2 * (half * b) >= 2 * (limit * a)) by (nonlinear_arith)
            requires
                2 * a <= b,
                limit == 2 * half,
        ;
    }
}

/// Rounding adds no more to a number than one part in `limit`.
pub proof fn rounding_adds_little(n: nat, limit: nat)
    requires
        limit >= 2,
    ensures
        rounded(n, limit) * limit <= n * (limit + 1),
{
    let step = step_near(n, limit);
    lemma_step_near(n, limit);
    lemma_step_bounds(n, limit);
    vstd::arithmetic::div_mod::lemma_fundamental_div_mod(n as int, step as int);
    let (below, left) = (n / step, n % step);
    assert(below * step == step * below && (below + 1) * step == step * below + step)
        by (nonlinear_arith);
    assert(n * (limit + 1) == n * limit + n) by (nonlinear_arith);
    let r = rounded(n, limit);
    if step == 1 {
        assert(r == n);
        assert(n * limit <= n * limit + n);
    } else {
        assert(2 * r <= 2 * n + step);
        assert(2 * (r * limit) <= 2 * (n * limit) + limit * step) by (nonlinear_arith)
            requires
                2 * r <= 2 * n + step,
                limit >= 2,
        ;
    }
}

/// Rounding takes no more from a number than one part in `limit`.
pub proof fn rounding_takes_little(n: nat, limit: nat)
    requires
        limit >= 2,
    ensures
        n * (limit - 1) <= rounded(n, limit) * limit,
{
    let step = step_near(n, limit);
    lemma_step_near(n, limit);
    lemma_step_bounds(n, limit);
    vstd::arithmetic::div_mod::lemma_fundamental_div_mod(n as int, step as int);
    let (below, left) = (n / step, n % step);
    assert(below * step == step * below && (below + 1) * step == step * below + step)
        by (nonlinear_arith);
    assert(n * (limit - 1) == n * limit - n) by (nonlinear_arith);
    let r = rounded(n, limit);
    if step == 1 {
        assert(r == n);
    } else {
        assert(2 * r + step >= 2 * n);
        assert(2 * (r * limit) + limit * step >= 2 * (n * limit)) by (nonlinear_arith)
            requires
                2 * r + step >= 2 * n,
                limit >= 2,
        ;
    }
}

/// A factor of at most seven eighths makes a number smaller, however its product
/// is rounded.
pub proof fn scaling_makes_smaller(value: nat, factor: nat)
    requires
        value > 0,
        factor <= 0x1C0_0000,
    ensures
        scaled(value, factor) < value,
{
    let exact = rounded(value, SINGLE as nat);
    let product = rounded(exact * factor, SINGLE as nat);
    rounding_adds_little(value, SINGLE as nat);
    rounding_adds_little(exact * factor, SINGLE as nat);
    assert(exact * factor <= exact * 0x1C0_0000) by (nonlinear_arith)
        requires
            factor <= 0x1C0_0000,
    ;
    assert(product * 0x100_0000 <= exact * 0x1C0_0000 * 0x100_0001) by (nonlinear_arith)
        requires
            product * 0x100_0000 <= (exact * factor) * 0x100_0001,
            exact * factor <= exact * 0x1C0_0000,
    ;
    assert(product < value * 0x200_0000);
}

/// A larger factor scales a number at least as far.
pub proof fn scaling_is_monotone(value: nat, smaller: nat, larger: nat)
    requires
        smaller <= larger,
    ensures
        scaled(value, smaller) <= scaled(value, larger),
{
    let exact = rounded(value, SINGLE as nat);
    assert(exact * smaller <= exact * larger) by (nonlinear_arith)
        requires
            smaller <= larger,
    ;
    rounding_is_monotone(exact * smaller, exact * larger, SINGLE as nat);
}

/// A clearly larger factor scales a number further. A factor of at least three
/// eighths leaves more than a third of it.
pub proof fn scaling_grows(value: nat, smaller: nat, larger: nat)
    requires
        1000 <= value <= u32::MAX,
        smaller + 0x10_0000 <= larger <= 0x1C0_0000,
    ensures
        scaled(value, smaller) < scaled(value, larger),
        larger >= 0xC0_0000 ==> value < 3 * scaled(value, larger),
{
    let exact = rounded(value, SINGLE as nat);
    let (less, more) = (exact * smaller, exact * larger);
    let low = rounded(less, SINGLE as nat);
    let high = rounded(more, SINGLE as nat);
    rounding_takes_little(value, SINGLE as nat);
    rounding_adds_little(less, SINGLE as nat);
    rounding_takes_little(more, SINGLE as nat);
    scaling_makes_smaller(value, larger);
    assert(value * 0xFF_FFFF <= exact * 0x100_0000);
    assert(low * 0x100_0000 <= less * 0x100_0001);
    assert(more * 0xFF_FFFF <= high * 0x100_0000);
    assert(less + exact * 0x10_0000 <= more) by (nonlinear_arith)
        requires
            smaller + 0x10_0000 <= larger,
            less == exact * smaller,
            more == exact * larger,
    ;
    assert(more <= exact * 0x1C0_0000) by (nonlinear_arith)
        requires
            larger <= 0x1C0_0000,
            more == exact * larger,
    ;
    assert(low + 0x200_0000 <= high);
    if larger >= 0xC0_0000 {
        assert(more >= exact * 0xC0_0000) by (nonlinear_arith)
            requires
                larger >= 0xC0_0000,
                more == exact * larger,
        ;
    }
}

/// For as many pixels as a screen can have, the ratio test is exact: the part
/// is at least three tenths of the whole.
pub proof fn thirty_percent_is_exact(part: nat, whole: nat)
    requires
        0 < whole <= 0x8_0000_0000_0000,
    ensures
        at_least_30_percent(part, whole) <==> 10 * part >= 3 * whole,
{
    lemma_rounded(part, DOUBLE as nat);
    lemma_rounded(whole, DOUBLE as nat);
}

/// For as many pixels as a screen can have, the ratio test is exact: the part
/// is below a two-hundredth of the whole.
pub proof fn half_percent_is_exact(part: nat, whole: nat)
    requires
        0 < whole <= 0x8_0000_0000_0000,
    ensures
        below_half_percent(part, whole) <==> 200 * part < whole,
{
    lemma_rounded(part, DOUBLE as nat);
    lemma_rounded(whole, DOUBLE as nat);
}

/// The number nearest to `n` that keeps only as many binary digits as the
/// numbers below `limit` have.
pub fn round(n: u64, limit: u64) -> (r: u128)
    requires
        limit >= 2,
    ensures
        r == rounded(n as nat, limit as nat),
        r <= 2 * n,
{
    let mut left: u64 = n;
    let mut step: u128 = 1;
    while left >= limit
        invariant
            limit >= 2,
            1 <= step <= 0x2_0000_0000_0000_0000,
            step * left <= n,
            step * step_near(left as nat, limit as nat) == step_near(n as nat, limit as nat),
        decreases left,
    {
        proof {
            let s = step_near((left / 2) as nat, limit as nat);
            assert(step * (2 * s) == (2 * step) * s) by (nonlinear_arith);
            assert((2 * step) * (left / 2) <= step * left) by (nonlinear_arith)
                requires
                    2 * (left / 2) <= left,
            ;
            assert(step * left >= step) by (nonlinear_arith)
                requires
                    left >= 1,
                    step >= 1,
            ;
        }
        step = step * 2;
        left = left / 2;
    }
    proof {
        lemma_rounded(n as nat, limit as nat);
        let (w, b) = (n as int, step as int);
        vstd::arithmetic::div_mod::lemma_fundamental_div_mod(w, b);
        assert(((w / b) + 1) * b == b * (w / b) + b) by (nonlinear_arith);
        assert((w / b) * b == b * (w / b)) by (nonlinear_arith);
        assert(step * 1 == step);
    }
    let wide: u128 = n as u128;
    let below: u128 = wide / step;
    let rest: u128 = wide % step;
    if 2 * rest > step || (2 * rest == step && below % 2 == 1) {
        (below + 1) * step
    } else {
        below * step
    }
}

/// Whether `part / whole`, computed in double precision, is at least 0.30.
pub fn is_at_least_30_percent(part: u64, whole: u64) -> (yes: bool)
    ensures
        yes == at_least_30_percent(part as nat, whole as nat),
{
    round(part, DOUBLE) * 0x80_0000_0000_0000 > 10808639105689189 * round(whole, DOUBLE)
}

/// Whether `part / whole`, computed in double precision, is below 0.005.
pub fn is_below_half_percent(part: u64, whole: u64) -> (yes: bool)
    ensures
        yes == below_half_percent(part as nat, whole as nat),
{
    round(part, DOUBLE) * 0x2000_0000_0000_0000 <= 11529215046068469 * round(whole, DOUBLE)
}

/// `value` times a single-precision factor of at most one, in single precision,
/// without its fraction.
pub fn scale(value: u32, factor: u32) -> (r: u32)
    requires
        factor <= 0x200_0000,
    ensures
        r == scaled(value as nat, factor as nat),
{
    let exact: u64 = round(value as u64, SINGLE) as u64;
    proof {
        assert(0 <= exact * factor <= 0x2_0000_0000 * 0x200_0000) by (nonlinear_arith)
            requires
                0 <= exact <= 0x2_0000_0000,
                0 <= factor <= 0x200_0000,
        ;
    }
    let product: u64 = exact * (factor as u64);
    let whole: u128 = round(product, SINGLE) / 0x200_0000;
    if whole > u32::MAX as u128 {
        u32::MAX
    } else {
        whole as u32
    }
}

/// Scaling gives the product, but for its fraction and what rounding adds or
/// takes: less than one part in two to the power 22, and two.
pub proof fn scaling_is_close(value: nat, factor: nat)
    requires
        value <= u32::MAX,
        factor <= 0x1C0_0000,
    ensures
        scaled(value, factor) <= u32::MAX,
        scaled(value, factor) * 0x200_0000 <= value * factor + 16 * value,
        (scaled(value, factor) + 1) * 0x200_0000 + 16 * value >= value * factor,
{
    let exact = rounded(value, SINGLE as nat);
    let product = exact * factor;
    let r = rounded(product, SINGLE as nat);
    rounding_adds_little(value, SINGLE as nat);
    rounding_takes_little(value, SINGLE as nat);
    rounding_adds_little(product, SINGLE as nat);
    rounding_takes_little(product, SINGLE as nat);
    assert(exact * 0x100_0000 <= value * 0x100_0001);
    assert(value * 0xFF_FFFF <= exact * 0x100_0000);
    assert(r * 0x100_0000 <= product * 0x100_0001);
    assert(product * 0xFF_FFFF <= r * 0x100_0000);
    if value == 0 {
        assert(exact == 0);
        assert(product == 0) by (nonlinear_arith)
            requires
                product == exact * factor,
                exact == 0,
        ;
        assert(value * factor == 0) by (nonlinear_arith)
            requires
                value == 0,
        ;
        assert(r == 0);
    } else {
        scaling_makes_smaller(value, factor);
        assert(product * 0x100_0000 <= value * factor * 0x100_0001) by (nonlinear_arith)
            requires
                product == exact * factor,
                exact * 0x100_0000 <= value * 0x100_0001,
        ;
        assert(value * factor * 0xFF_FFFF <= product * 0x100_0000) by (nonlinear_arith)
            requires
                product == exact * factor,
                value * 0xFF_FFFF <= exact * 0x100_0000,
        ;
        assert(value * factor <= value * 0x1C0_0000) by (nonlinear_arith)
            requires
                factor <= 0x1C0_0000,
        ;
    }
}

} // verus!
