//! The waveform of the oscillators: the sine series in fixed point, to the
//! nearest millionth.

use vstd::prelude::*;

use crate::fixed::{lemma_div_of_multiple, ONE};

verus! {

/// The fixed-point unit of the angle inside a quarter of a cycle: an angle of
/// `ANGLE_ONE` stands for a right angle.
pub const ANGLE_ONE: u64 = 4_294_967_296;

/// The first coefficient of the sine series for an angle `x` in right
/// angles, `sin(x * pi / 2) = C1 x - C3 x^3 + C5 x^5 - ...` with
/// `Ck = (pi / 2)^k / k!`. All of them are in units of 10^-18.
pub const C1: u64 = 1_570_796_326_794_896_619;

/// `(pi / 2)^3 / 3!`
pub const C3: u64 = 645_964_097_506_246_254;

/// `(pi / 2)^5 / 5!`
pub const C5: u64 = 79_692_626_246_167_045;

/// `(pi / 2)^7 / 7!`
pub const C7: u64 = 4_681_754_135_318_688;

/// `(pi / 2)^9 / 9!`
pub const C9: u64 = 160_441_184_787_360;

/// `(pi / 2)^11 / 11!`
pub const C11: u64 = 3_598_843_235_212;

/// How many units of 10^-18 make one millionth.
pub const SERIES_STEP: u64 = 1_000_000_000_000;

/// One stage of the series, from the highest power down:
/// `coefficient - carry * x2`, with `x2` in units of `1 / ANGLE_ONE`.
pub open spec fn series_stage(coefficient: int, carry: int, x2: int) -> int {
    coefficient - (carry * x2) / (ANGLE_ONE as int)
}

/// The rising quarter of the sinusoid: `ONE * sin(a / quarter * pi / 2)` for
/// `0 <= a <= quarter`, by the sine series up to the eleventh power, rounded
/// to the nearest millionth. What the series leaves out is less than six
/// hundredths of a millionth.
pub open spec fn quarter_wave(a: int, quarter: int) -> int {
    let x = (a * ANGLE_ONE) / quarter;
    let x2 = (x * x) / (ANGLE_ONE as int);
    let r9 = series_stage(C9 as int, C11 as int, x2);
    let r7 = series_stage(C7 as int, r9, x2);
    let r5 = series_stage(C5 as int, r7, x2);
    let r3 = series_stage(C3 as int, r5, x2);
    let r1 = series_stage(C1 as int, r3, x2);
    let sum = (x * r1) / (ANGLE_ONE as int);
    let rounded = (sum + SERIES_STEP / 2) / (SERIES_STEP as int);
    if rounded > ONE {
        ONE as int
    } else {
        rounded
    }
}

/// The sinusoid at `phase` steps into a cycle of `period` steps: the quarter
/// wave, its mirror image, and the two again with the opposite sign.
pub open spec fn sinusoid(phase: int, period: int) -> int {
    let half = period / 2;
    let quarter = period / 4;
    let q = if phase < half {
        phase
    } else {
        phase - half
    };
    let a = if q <= quarter {
        q
    } else {
        half - q
    };
    if phase < half {
        quarter_wave(a, quarter)
    } else {
        -quarter_wave(a, quarter)
    }
}

/// A stage of the series stays between the difference of its two inputs and
/// its coefficient.
pub proof fn lemma_series_stage(coefficient: int, carry: int, x2: int)
    requires
        0 <= carry <= coefficient,
        0 <= x2 <= ANGLE_ONE,
    ensures
        coefficient - carry <= series_stage(coefficient, carry, x2) <= coefficient,
{
    let s = ANGLE_ONE as int;
    lemma_div_of_multiple(carry, s);
    assert(0 <= (carry * x2) / s <= (carry * s) / s) by (nonlinear_arith)
        requires
            0 <= carry,
            0 <= x2 <= s,
            0 < s,
    {
        assert(carry * x2 <= carry * s);
    }
}

/// The angle of the quarter wave, and its square, are at most a right angle.
pub proof fn lemma_angle_range(a: int, quarter: int)
    requires
        0 <= a <= quarter,
        0 < quarter,
    ensures
        0 <= (a * ANGLE_ONE) / quarter <= ANGLE_ONE,
        0 <= (((a * ANGLE_ONE) / quarter) * ((a * ANGLE_ONE) / quarter)) / (ANGLE_ONE as int)
            <= ANGLE_ONE,
{
    let s = ANGLE_ONE as int;
    let x = (a * s) / quarter;
    lemma_div_of_multiple(s, quarter);
    assert(0 <= x <= (quarter * s) / quarter) by (nonlinear_arith)
        requires
            x == (a * s) / quarter,
            0 <= a <= quarter,
            0 < quarter,
            0 < s,
    {
        assert(a * s <= quarter * s);
    }
    lemma_div_of_multiple(s, s);
    assert(0 <= (x * x) / s <= (s * s) / s) by (nonlinear_arith)
        requires
            0 <= x <= s,
            0 < s,
    {
        assert(x * x <= s * s);
    }
}

/// The quarter wave lies between 0 and `ONE`.
pub proof fn lemma_quarter_wave_range(a: int, quarter: int)
    requires
        0 <= a <= quarter,
        0 < quarter,
    ensures
        0 <= quarter_wave(a, quarter) <= ONE,
{
    let s = ANGLE_ONE as int;
    let x = (a * s) / quarter;
    let x2 = (x * x) / s;
    lemma_angle_range(a, quarter);
    let r9 = series_stage(C9 as int, C11 as int, x2);
    lemma_series_stage(C9 as int, C11 as int, x2);
    let r7 = series_stage(C7 as int, r9, x2);
    lemma_series_stage(C7 as int, r9, x2);
    let r5 = series_stage(C5 as int, r7, x2);
    lemma_series_stage(C5 as int, r7, x2);
    let r3 = series_stage(C3 as int, r5, x2);
    lemma_series_stage(C3 as int, r5, x2);
    let r1 = series_stage(C1 as int, r3, x2);
    lemma_series_stage(C1 as int, r3, x2);
    assert(0 <= (x * r1) / s) by (nonlinear_arith)
        requires
            0 <= x,
            0 <= r1,
            0 < s,
    {
    }
}

/// The sinusoid lies between `-ONE` and `ONE`.
pub proof fn lemma_sinusoid_range(phase: int, period: int)
    requires
        0 <= phase < period,
        period % 4 == 0,
    ensures
        -ONE <= sinusoid(phase, period) <= ONE,
{
    let half = period / 2;
    let quarter = period / 4;
    let q = if phase < half {
        phase
    } else {
        phase - half
    };
    let a = if q <= quarter {
        q
    } else {
        half - q
    };
    lemma_quarter_wave_range(a, quarter);
}

/// At a right angle a stage of the series is the plain difference.
pub proof fn lemma_series_stage_at_right_angle(coefficient: int, carry: int)
    ensures
        series_stage(coefficient, carry, ANGLE_ONE as int) == coefficient - carry,
{
    lemma_div_of_multiple(carry, ANGLE_ONE as int);
}

/// The sinusoid goes through zero at the start and in the middle of the
/// cycle, and reaches its peaks of `ONE` and `-ONE` a quarter and three
/// quarters of the way through.
pub proof fn lemma_sinusoid_quarter_points(period: int)
    requires
        0 < period,
        period % 4 == 0,
    ensures
        sinusoid(0, period) == 0,
        sinusoid(period / 4, period) == ONE,
        sinusoid(period / 2, period) == 0,
        sinusoid(3 * (period / 4), period) == -ONE,
{
    let s = ANGLE_ONE as int;
    let quarter = period / 4;
    assert(0 * s == 0);
    lemma_div_of_multiple(s, quarter);
    lemma_div_of_multiple(s, s);
    assert((0int * 0int) / s == 0);
    let r9 = series_stage(C9 as int, C11 as int, 0);
    let r7 = series_stage(C7 as int, r9, 0);
    let r5 = series_stage(C5 as int, r7, 0);
    let r3 = series_stage(C3 as int, r5, 0);
    let r1 = series_stage(C1 as int, r3, 0);
    assert(0 * r1 == 0);
    assert(quarter_wave(0, quarter) == 0);
    lemma_series_stage_at_right_angle(C9 as int, C11 as int);
    lemma_series_stage_at_right_angle(C7 as int, C9 - C11);
    lemma_series_stage_at_right_angle(C5 as int, C7 - (C9 - C11));
    lemma_series_stage_at_right_angle(C3 as int, C5 - (C7 - (C9 - C11)));
    lemma_series_stage_at_right_angle(C1 as int, C3 - (C5 - (C7 - (C9 - C11))));
    let top = C1 - (C3 - (C5 - (C7 - (C9 - C11))));
    assert(top == 999_999_943_741_050_870);
    lemma_div_of_multiple(top, s);
    assert(quarter_wave(quarter, quarter) == ONE);
}

/// One stage of the series.
fn stage(coefficient: u64, carry: u64, x2: u64) -> (r: u64)
    requires
        carry <= coefficient,
        x2 <= ANGLE_ONE,
    ensures
        r == series_stage(coefficient as int, carry as int, x2 as int),
        coefficient - carry <= r <= coefficient,
{
    proof {
        lemma_series_stage(coefficient as int, carry as int, x2 as int);
    }
    assert(carry * x2 <= 0xffff_ffff_ffff_ffff * 0x1_0000_0000) by (nonlinear_arith)
        requires
            0 <= carry <= 0xffff_ffff_ffff_ffff,
            0 <= x2 <= 0x1_0000_0000,
    {
    }
    let product: u128 = (carry as u128) * (x2 as u128);
    coefficient - (product / (ANGLE_ONE as u128)) as u64
}

/// The rising quarter of the sinusoid at `a` steps out of `quarter`.
fn quarter_wave_of(a: u64, quarter: u64) -> (wave: i32)
    requires
        a <= quarter,
        0 < quarter <= 0xffff_ffff * 250_000,
    ensures
        wave == quarter_wave(a as int, quarter as int),
        0 <= wave <= ONE,
{
    proof {
        lemma_angle_range(a as int, quarter as int);
        lemma_quarter_wave_range(a as int, quarter as int);
    }
    assert(a * ANGLE_ONE <= (0xffff_ffff * 250_000) * 0x1_0000_0000) by (nonlinear_arith)
        requires
            0 <= a <= 0xffff_ffff * 250_000,
            ANGLE_ONE == 0x1_0000_0000,
    {
    }
    let x: u64 = (((a as u128) * (ANGLE_ONE as u128)) / (quarter as u128)) as u64;
    assert(x * x <= 0x1_0000_0000 * 0x1_0000_0000) by (nonlinear_arith)
        requires
            0 <= x <= 0x1_0000_0000,
    {
    }
    let x2: u64 = (((x as u128) * (x as u128)) / (ANGLE_ONE as u128)) as u64;
    let r9 = stage(C9, C11, x2);
    let r7 = stage(C7, r9, x2);
    let r5 = stage(C5, r7, x2);
    let r3 = stage(C3, r5, x2);
    let r1 = stage(C1, r3, x2);
    assert(0 <= x * r1 <= 0x1_0000_0000 * 1_570_796_326_794_896_619) by (nonlinear_arith)
        requires
            0 <= x <= 0x1_0000_0000,
            0 <= r1 <= 1_570_796_326_794_896_619,
    {
    }
    let sum: u128 = ((x as u128) * (r1 as u128)) / (ANGLE_ONE as u128);
    let rounded: u128 = (sum + (SERIES_STEP / 2) as u128) / (SERIES_STEP as u128);
    if rounded > ONE as u128 {
        ONE as i32
    } else {
        rounded as i32
    }
}

/// The sinusoid at `phase` steps into a cycle of `period` steps. The period
/// has to be a multiple of four, so that the cycle has four equal quarters,
/// and at most `u32::MAX * ONE`.
pub fn sinusoid_at(phase: u64, period: u64) -> (value: i32)
    requires
        phase < period,
        period % 4 == 0,
        period <= 0xffff_ffff * 1_000_000,
    ensures
        value == sinusoid(phase as int, period as int),
        -ONE <= value <= ONE,
{
    let half: u64 = period / 2;
    let quarter: u64 = period / 4;
    let negative = phase >= half;
    let q: u64 = if negative {
        phase - half
    } else {
        phase
    };
    let a: u64 = if q <= quarter {
        q
    } else {
        half - q
    };
    let wave = quarter_wave_of(a, quarter);
    if negative {
        -wave
    } else {
        wave
    }
}

} // verus!
