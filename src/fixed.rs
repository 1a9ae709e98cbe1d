use vstd::arithmetic::div_mod::{lemma_div_by_multiple, lemma_div_is_ordered, lemma_div_pos_is_pos};
use vstd::prelude::*;

verus! {

/// One, in the per-million fixed point used for trigonometric values.
pub const ONE: i64 = 1_000_000;

/// A full turn, in millidegrees.
pub const FULL_TURN: u64 = 360_000;

/// Half a turn, in millidegrees.
pub const HALF_TURN: u64 = 180_000;

/// A quarter turn, in millidegrees.
pub const QUARTER_TURN: u64 = 90_000;

/// Millidegrees in one radian, rounded.
pub const MDEG_PER_RAD: u64 = 57_296;

/// Bound on the magnitude of a value that `ratio` scales.
pub const RATIO_LIMIT: i64 = 1_000_000_000_000;

/// Bound on the denominator that `ratio` accepts.
pub const DEN_LIMIT: i64 = 4_000_000;

/// Division rounding toward zero.
pub open spec fn trunc_div(a: int, d: int) -> int {
    if a >= 0 {
        a / d
    } else {
        -((-a) / d)
    }
}

pub open spec fn abs(a: int) -> int {
    if a >= 0 {
        a
    } else {
        -a
    }
}

/// `v * num / den`, rounded toward zero.
pub open spec fn ratio_of(v: int, num: int, den: int) -> int {
    trunc_div(v * num, den)
}

proof fn lemma_ratio_bound(v: int, num: int, den: int)
    requires
        0 < den,
        -den <= num <= den,
    ensures
        abs(ratio_of(v, num, den)) <= abs(v),
{
    let p = v * num;
    let ap = abs(p);
    assert(ap <= abs(v) * den) by (nonlinear_arith)
        requires
            ap == abs(p),
            p == v * num,
            -den <= num <= den,
            0 < den,
    ;
    assert(ap == if p >= 0 { p } else { -p });
    lemma_div_is_ordered(ap, abs(v) * den, den);
    lemma_div_by_multiple(abs(v), den);
    lemma_div_pos_is_pos(ap, den);
}

/// Scales `v` by the fraction `num / den`, rounding toward zero; the result
/// is never larger in magnitude than `v` when the fraction is at most one.
pub fn ratio(v: i64, num: i64, den: i64) -> (r: i64)
    requires
        -RATIO_LIMIT <= v <= RATIO_LIMIT,
        0 < den <= DEN_LIMIT,
        -den <= num <= den,
    ensures
        r == ratio_of(v as int, num as int, den as int),
        abs(r as int) <= abs(v as int),
{
    proof {
        lemma_ratio_bound(v as int, num as int, den as int);
    }
    assert(-RATIO_LIMIT * DEN_LIMIT <= v * num <= RATIO_LIMIT * DEN_LIMIT) by (nonlinear_arith)
        requires
            -RATIO_LIMIT <= v <= RATIO_LIMIT,
            -DEN_LIMIT <= num <= DEN_LIMIT,
    ;
    let p: i128 = v as i128 * num as i128;
    let q: i128 = if p >= 0 {
        p / den as i128
    } else {
        -((-p) / den as i128)
    };
    q as i64
}

/// Bhaskara's approximation of the sine over half a turn, per million, for
/// an angle `y` in millidegrees between 0 and 180 degrees.
pub open spec fn sine_half(y: int) -> int {
    let p = y * (HALF_TURN - y);
    (4 * ONE * p) / (40_500_000_000 - p)
}

/// Bhaskara's approximation of the sine of an angle in millidegrees, per
/// million.
pub open spec fn sine(a: int) -> int {
    let m = a % (FULL_TURN as int);
    if m <= HALF_TURN {
        sine_half(m)
    } else {
        -sine_half(m - HALF_TURN)
    }
}

/// Bhaskara's approximation of the cosine of an angle in millidegrees, per
/// million.
pub open spec fn cosine(a: int) -> int {
    sine(a + QUARTER_TURN)
}

fn sine_half_exec(y: u64) -> (r: i64)
    requires
        y <= HALF_TURN,
    ensures
        r == sine_half(y as int),
        0 <= r <= ONE,
{
    let yi = y as i64;
    assert(0 <= yi * (180_000 - yi) <= 8_100_000_000) by (nonlinear_arith)
        requires
            0 <= yi <= 180_000,
    ;
    let p: i64 = yi * (180_000 - yi);
    let num: i64 = 4 * ONE * p;
    let den: i64 = 40_500_000_000 - p;
    proof {
        assert(num <= ONE * den);
        lemma_div_is_ordered(num as int, ONE * den, den as int);
        lemma_div_by_multiple(ONE as int, den as int);
        lemma_div_pos_is_pos(num as int, den as int);
    }
    num / den
}

/// Bhaskara's approximation of the sine of an angle in millidegrees, per
/// million (exact at multiples of 30 degrees, within two thousandths
/// elsewhere).
pub fn sin_md(a: u64) -> (r: i64)
    ensures
        r == sine(a as int),
        -ONE <= r <= ONE,
{
    let m = a % FULL_TURN;
    if m <= HALF_TURN {
        sine_half_exec(m)
    } else {
        -sine_half_exec(m - HALF_TURN)
    }
}

/// Bhaskara's approximation of the cosine of an angle in millidegrees, per
/// million.
pub fn cos_md(a: u64) -> (r: i64)
    requires
        a <= u64::MAX - QUARTER_TURN,
    ensures
        r == cosine(a as int),
        -ONE <= r <= ONE,
{
    sin_md(a + QUARTER_TURN)
}

} // verus!
