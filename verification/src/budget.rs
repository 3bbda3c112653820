//! Bitrate arithmetic of fixed-size encodes: the correction applied when an
//! output overshoots its size limit.
use vstd::prelude::*;
use vstd::arithmetic::div_mod::{lemma_fundamental_div_mod, lemma_fundamental_div_mod_converse};

verus! {

/// The bitrate for a second attempt after an output of `actual` bytes missed a
/// target of `target` bytes: the current bitrate scaled by `target / actual`
/// and by a further 0.98, rounded down, and never below 1. Without a measured
/// size the current bitrate is kept (again at least 1).
/// The product is an exact fraction, so a whole-number result is kept as it
/// is. Computed in `f64` (the ratio, then the factor 0.98) the same product can
/// land just below a whole number and round down one further: for a current
/// bitrate of 9 with a target of 50 bytes and an output of 63 bytes the
/// product is exactly 7 and the result is 7, where the `f64` computation gives 6.
pub open spec fn corrected_bitrate(current: int, target: int, actual: int) -> int {
    if actual == 0 {
        if current >= 1 { current } else { 1 }
    } else if current <= 0 {
        1
    } else {
        let q = (current * target * 98) / (actual * 100);
        if q < 1 {
            1
        } else if q > i64::MAX {
            i64::MAX as int
        } else {
            q
        }
    }
}

proof fn lemma_scaled_quotient(x: int, d: int, q1: int, r: int, q2: int, r2: int)
    requires
        x >= 0,
        d > 0,
        x == q1 * d + r,
        0 <= r < d,
        r * 49 == q2 * d + r2,
        0 <= r2 < d,
    ensures
        (x * 98) / (d * 2) == q1 * 49 + q2,
{
    assert(x * 98 == (q1 * 49 + q2) * (d * 2) + 2 * r2) by (nonlinear_arith)
        requires
            x == q1 * d + r,
            r * 49 == q2 * d + r2,
    ;
    lemma_fundamental_div_mod_converse(x * 98, d * 2, q1 * 49 + q2, 2 * r2);
}

/// The corrected bitrate after a size overshoot (see `corrected_bitrate`).
pub fn corrected_video_bitrate(current_kbps: i64, target_bytes: u64, actual_bytes: u64) -> (r: i64)
    ensures
        r == corrected_bitrate(current_kbps as int, target_bytes as int, actual_bytes as int),
{
    if actual_bytes == 0 {
        return if current_kbps >= 1 { current_kbps } else { 1 };
    }
    if current_kbps <= 0 {
        return 1;
    }
    let c = current_kbps as u128;
    let t = target_bytes as u128;
    assert(c * t <= 0x7fff_ffff_ffff_ffff * 0xffff_ffff_ffff_ffffu128) by (nonlinear_arith)
        requires
            c <= 0x7fff_ffff_ffff_ffff,
            t <= 0xffff_ffff_ffff_ffff,
    ;
    let x: u128 = c * t;
    let d: u128 = (actual_bytes as u128) * 50;
    let q1: u128 = x / d;
    let rem: u128 = x % d;
    let q2: u128 = (rem * 49) / d;
    let ghost r2: int = ((rem * 49) as int) % (d as int);
    proof {
        lemma_fundamental_div_mod(x as int, d as int);
        lemma_fundamental_div_mod((rem * 49) as int, d as int);
        assert(q2 * d <= rem * 49) by (nonlinear_arith)
            requires
                rem * 49 == d * q2 + r2,
                r2 >= 0,
        ;
        assert(q2 < 49) by (nonlinear_arith)
            requires
                q2 * d <= rem * 49,
                rem < d,
                d > 0,
        ;
        lemma_scaled_quotient(x as int, d as int, q1 as int, rem as int, q2 as int, r2);
        assert(x * 98 == (current_kbps as int) * (target_bytes as int) * 98);
        assert(d * 2 == (actual_bytes as int) * 100);
    }
    if q1 > 0x7fff_ffff_ffff_ffffu128 {
        return i64::MAX;
    }
    let total: u128 = q1 * 49 + q2;
    if total < 1 {
        1
    } else if total > 0x7fff_ffff_ffff_ffffu128 {
        i64::MAX
    } else {
        total as i64
    }
}

/// A correction never raises the bitrate when the output overshot its target:
/// the new bitrate is at most the current one.
pub proof fn lemma_correction_never_raises(current: int, target: int, actual: int)
    requires
        1 <= current <= i64::MAX,
        0 <= target < actual,
    ensures
        1 <= corrected_bitrate(current, target, actual) <= current,
{
    let n = current * target * 98;
    let m = actual * 100;
    assert(n <= current * m) by (nonlinear_arith)
        requires
            n == current * target * 98,
            m == actual * 100,
            current >= 1,
            0 <= target < actual,
    ;
    lemma_fundamental_div_mod(n, m);
    assert(n / m <= current) by (nonlinear_arith)
        requires
            n == m * (n / m) + n % m,
            n % m >= 0,
            n <= current * m,
            m > 0,
    ;
}

/// When the correction is not held up by its floor of 1, the new bitrate scaled
/// by the overshoot `actual / target` predicts at most 98% of the target:
/// `new * actual <= current * target * 0.98`.
pub proof fn lemma_correction_aims_below_target(current: int, target: int, actual: int)
    requires
        1 <= current <= i64::MAX,
        0 <= target,
        actual >= 1,
        corrected_bitrate(current, target, actual) > 1,
    ensures
        corrected_bitrate(current, target, actual) * actual * 100 <= current * target * 98,
{
    let n = current * target * 98;
    let m = actual * 100;
    lemma_fundamental_div_mod(n, m);
    let q = n / m;
    assert(q * m <= n) by (nonlinear_arith)
        requires
            n == m * q + n % m,
            n % m >= 0,
    ;
    let res = corrected_bitrate(current, target, actual);
    assert(res <= q);
    assert(res * actual * 100 <= n) by (nonlinear_arith)
        requires
            res <= q,
            res >= 0,
            q * m <= n,
            m == actual * 100,
            actual >= 1,
    ;
}

/// The correction is the largest bitrate whose prediction stays within 98% of
/// the target: one more kbps would predict more (`new * actual` against
/// `current * target * 0.98`), up to the floor of 1 and the `i64` ceiling.
/// Without a measured size the current bitrate is kept (at least 1), and a
/// current bitrate below 1 becomes 1.
pub proof fn lemma_correction_is_the_largest_that_fits(current: int, target: int, actual: int)
    requires
        current <= i64::MAX,
        target >= 0,
        actual >= 0,
    ensures
        ({
            let r = corrected_bitrate(current, target, actual);
            let budget = current * target * 98;
            &&& 1 <= r <= i64::MAX
            &&& actual == 0 ==> r == (if current >= 1 { current } else { 1 })
            &&& actual > 0 && current <= 0 ==> r == 1
            &&& actual > 0 && current >= 1 && r < i64::MAX ==> budget < (r + 1) * actual * 100
            &&& actual > 0 && current >= 1 && r > 1 ==> r * actual * 100 <= budget
        }),
{
    if actual > 0 && current >= 1 {
        let n = current * target * 98;
        let m = actual * 100;
        assert(n >= 0) by (nonlinear_arith)
            requires current >= 1, target >= 0, n == current * target * 98;
        lemma_fundamental_div_mod(n, m);
        let q = n / m;
        let r = corrected_bitrate(current, target, actual);
        assert(q * m <= n && n < (q + 1) * m) by (nonlinear_arith)
            requires n == m * q + n % m, 0 <= n % m < m;
        if r < i64::MAX {
            assert(q <= r);
            assert(n < (r + 1) * m) by (nonlinear_arith)
                requires n < (q + 1) * m, q <= r, m > 0;
            assert((r + 1) * m == (r + 1) * actual * 100) by (nonlinear_arith)
                requires m == actual * 100;
        }
        if r > 1 {
            assert(r <= q);
            assert(r * m <= n) by (nonlinear_arith)
                requires q * m <= n, r <= q, m > 0, r >= 0;
            assert(r * m == r * actual * 100) by (nonlinear_arith)
                requires m == actual * 100;
        }
    }
}

} // verus!
