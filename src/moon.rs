//! Moon phase: the day of the lunar cycle by Conway's rule, and the nearest
//! of the eight phase icons.

use vstd::prelude::*;

verus! {

/// Length of the synodic month in hundredths of a day.
pub const SYNODIC_HUNDREDTHS: u32 = 2953;

/// Rust's remainder, whose sign follows the dividend.
pub open spec fn trunc_rem(a: int, b: int) -> int {
    if a >= 0 {
        a % b
    } else {
        -((-a) % b)
    }
}

/// The day of the lunar cycle (0 to 29) by Conway's rule.
pub open spec fn moon_age_spec(year: int, month: int, day: int) -> int {
    let r0 = trunc_rem(trunc_rem(year, 100), 19);
    let r = if r0 > 9 { r0 - 19 } else { r0 };
    (r * 11 + month + day) % 30
}

/// The day of the lunar cycle (0 to 29) on a calendar date, by Conway's
/// simplified rule; the phase as a fraction is this over the synodic month.
pub fn moon_age(year: i32, month: u32, day: u32) -> (r: u32)
    requires
        month <= 12,
        day <= 31,
    ensures
        r == moon_age_spec(year as int, month as int, day as int),
        r < 30,
{
    let neg = year < 0;
    let mag: u32 = if neg { (-(year as i64)) as u32 } else { year as u32 };
    let m: u32 = (mag % 100) % 19;
    let r: i64 = if neg {
        -(m as i64)
    } else if m > 9 {
        m as i64 - 19
    } else {
        m as i64
    };
    // 210 is a multiple of 30 that keeps the sum non-negative.
    let ghost x = r * 11 + month + day;
    assert(r == if trunc_rem(trunc_rem(year as int, 100), 19) > 9 {
        trunc_rem(trunc_rem(year as int, 100), 19) - 19
    } else {
        trunc_rem(trunc_rem(year as int, 100), 19)
    });
    let shifted: u64 = (r * 11 + month as i64 + day as i64 + 210) as u64;
    assert((x + 210) % 30 == x % 30);
    (shifted % 30) as u32
}

/// Phase icons, one per eighth of the cycle from the new moon.
pub const PHASE_ICONS: usize = 8;

/// How far day `age` of the cycle lies from the phase `k` eighths, in units
/// of 1 / (8 * synodic month in hundredths of a day): `|age / 29.53 - k / 8|`
/// scaled to an integer.
pub open spec fn phase_gap(age: int, k: int) -> int {
    let d = 800 * age - SYNODIC_HUNDREDTHS * k;
    if d >= 0 {
        d
    } else {
        -d
    }
}

/// Whether `r` is the eighth of the cycle strictly nearest to day `age`.
pub open spec fn is_nearest_phase(age: int, r: int) -> bool {
    0 <= r < PHASE_ICONS && forall|k: int|
        0 <= k < PHASE_ICONS && k != r ==> phase_gap(age, r) < phase_gap(age, k)
}

/// The eighth of the cycle nearest to day `age`.
pub open spec fn nearest_phase(age: int) -> int {
    choose|r: int| is_nearest_phase(age, r)
}

proof fn lemma_no_ties(age: int, k1: int, k2: int)
    requires
        0 <= age < 30,
        0 <= k1 < 8,
        0 <= k2 < 8,
        k1 != k2,
    ensures
        phase_gap(age, k1) != phase_gap(age, k2),
{
}

/// The eighth of the cycle nearest to day `age` (0 is the new moon, 4 the
/// full moon); no two eighths are equally near.
pub fn moon_icon_index(age: u32) -> (r: usize)
    requires
        age < 30,
    ensures
        r < PHASE_ICONS,
        is_nearest_phase(age as int, r as int),
        r == nearest_phase(age as int),
{
    let target: i64 = 800 * age as i64;
    let mut closest: usize = PHASE_ICONS - 1;
    // A gap of one whole cycle, beyond every real gap.
    let mut smallest: i64 = 800 * SYNODIC_HUNDREDTHS as i64 / 100;
    let mut k: usize = PHASE_ICONS;
    while k > 0
        invariant
            k <= PHASE_ICONS,
            target == 800 * age,
            age < 30,
            closest < PHASE_ICONS,
            k == PHASE_ICONS ==> closest == PHASE_ICONS - 1 && smallest == 23624,
            k < PHASE_ICONS ==> k <= closest && smallest == phase_gap(age as int, closest as int),
            forall|j: int|
                k <= j < PHASE_ICONS && j != closest ==> phase_gap(age as int, closest as int)
                    < phase_gap(age as int, j),
        decreases k,
    {
        k -= 1;
        let step: i64 = SYNODIC_HUNDREDTHS as i64;
        let kk: i64 = k as i64;
        assert(step * kk <= 2953 * 7) by (nonlinear_arith)
            requires
                step == 2953,
                0 <= kk <= 7,
        ;
        let d0: i64 = target - step * kk;
        let d: i64 = if d0 >= 0 { d0 } else { -d0 };
        proof {
            if k < closest {
                lemma_no_ties(age as int, k as int, closest as int);
            }
        }
        if d < smallest {
            closest = k;
            smallest = d;
        }
    }
    assert(is_nearest_phase(age as int, closest as int));
    let ghost c = nearest_phase(age as int);
    assert(is_nearest_phase(age as int, c));
    closest
}

} // verus!
