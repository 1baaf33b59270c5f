//! Fixed-point angles: headings, their unit vectors and the step of one tick.
//!
//! An angle is a whole number of units, three million to the radian. A unit
//! vector is a pair of integers in the scale of `UNIT`.

use vstd::prelude::*;

use super::{
    FULL_TURN, MOVE_SPEED, MOVE_SPEED_PER_TICK, QUARTER_TURN, ROTATION_SPEED,
    ROTATION_SPEED_PER_TICK, TICKS_PER_SECOND, UNIT,
};

verus! {

/// The heading in `0 .. FULL_TURN` that points the same way as `angle`.
pub open spec fn wrap_angle(angle: int) -> int {
    angle % (FULL_TURN as int)
}

/// Whether `angle` is a heading in `0 .. FULL_TURN`.
pub open spec fn is_heading(angle: int) -> bool {
    0 <= angle < FULL_TURN
}

/// The sine of an angle of the first quarter turn, in the scale of `UNIT`:
/// the series `x - x^3/3! + x^5/5! - ... - x^15/15!` of the angle in radians,
/// evaluated from the innermost term outwards with every quotient rounded
/// down, and capped at `UNIT`.
pub open spec fn quarter_sine(angle: int) -> int {
    let x = angle * 1000;
    let y = x * x / (UNIT as int);
    let t7 = UNIT - y / 210;
    let t6 = UNIT - (y * t7 / (UNIT as int)) / 156;
    let t5 = UNIT - (y * t6 / (UNIT as int)) / 110;
    let t4 = UNIT - (y * t5 / (UNIT as int)) / 72;
    let t3 = UNIT - (y * t4 / (UNIT as int)) / 42;
    let t2 = UNIT - (y * t3 / (UNIT as int)) / 20;
    let t1 = UNIT - (y * t2 / (UNIT as int)) / 6;
    let s = x * t1 / (UNIT as int);
    if s > UNIT {
        UNIT as int
    } else {
        s
    }
}

/// The unit vector `(cos, sin)` of a heading, in the scale of `UNIT`. The
/// heading is split into a number of quarter turns and a rest; the sine of
/// the rest and of what the rest lacks to a quarter turn are looked up with
/// `quarter_sine`, and the quarter turns rotate the result.
pub open spec fn unit_vector(angle: int) -> (int, int) {
    let a = wrap_angle(angle);
    let rest = a % (QUARTER_TURN as int);
    let s = quarter_sine(rest);
    let c = quarter_sine(QUARTER_TURN - rest);
    let quarter = a / (QUARTER_TURN as int);
    if quarter == 0 {
        (c, s)
    } else if quarter == 1 {
        (-s, c)
    } else if quarter == 2 {
        (-c, -s)
    } else {
        (s, -c)
    }
}

/// `MOVE_SPEED_PER_TICK * component / UNIT`, rounded to the nearest integer,
/// halves away from zero.
pub open spec fn scale_to_step(component: int) -> int {
    if component >= 0 {
        (MOVE_SPEED_PER_TICK * component + UNIT / 2) / (UNIT as int)
    } else {
        -((MOVE_SPEED_PER_TICK * (-component) + UNIT / 2) / (UNIT as int))
    }
}

/// What one tick adds to the position of a head with this heading.
pub open spec fn tick_step(angle: int) -> (int, int) {
    let v = unit_vector(angle);
    (scale_to_step(v.0), scale_to_step(v.1))
}

/// Brings any angle into `0 .. FULL_TURN`.
pub fn normalize_angle(angle: i64) -> (heading: i32)
    ensures
        heading == wrap_angle(angle as int),
        is_heading(heading as int),
{
    let full: i64 = FULL_TURN as i64;
    if angle >= 0 {
        (angle % full) as i32
    } else if angle == i64::MIN {
        // -(2^63) leaves no room to negate; take one full turn off first.
        let lifted: i64 = angle + full;
        let back: i64 = (-lifted) % full;
        assert(wrap_angle(angle as int) == wrap_angle(lifted as int)) by {
            vstd::arithmetic::div_mod::lemma_mod_add_multiples_vanish(angle as int, full as int);
        }
        assert(wrap_angle(lifted as int) == (if back == 0 { 0 } else { full - back })) by {
            lemma_wrap_negative(lifted as int);
        }
        if back == 0 {
            0
        } else {
            (full - back) as i32
        }
    } else {
        let back: i64 = (-angle) % full;
        proof {
            lemma_wrap_negative(angle as int);
        }
        if back == 0 {
            0
        } else {
            (full - back) as i32
        }
    }
}

/// For a negative angle, the wrapped angle is what is missing from its
/// magnitude's remainder to a full turn.
proof fn lemma_wrap_negative(angle: int)
    requires
        angle < 0,
    ensures
        wrap_angle(angle) == (if (-angle) % (FULL_TURN as int) == 0 {
            0
        } else {
            FULL_TURN - (-angle) % (FULL_TURN as int)
        }),
{
    let full = FULL_TURN as int;
    let m = -angle;
    let q = m / full;
    let r = m % full;
    vstd::arithmetic::div_mod::lemma_fundamental_div_mod(m, full);
    assert(m == full * q + r);
    if r == 0 {
        assert(angle == full * (-q)) by (nonlinear_arith)
            requires
                m == full * q + r,
                r == 0,
                angle == -m,
        ;
        vstd::arithmetic::div_mod::lemma_fundamental_div_mod_converse(angle, full, -q, 0);
    } else {
        assert(angle == full * (-q - 1) + (full - r)) by (nonlinear_arith)
            requires
                m == full * q + r,
                angle == -m,
        ;
        vstd::arithmetic::div_mod::lemma_fundamental_div_mod_converse(
            angle,
            full,
            -q - 1,
            full - r,
        );
    }
}

/// Computes the sine of an angle of the first quarter turn.
fn sine_in_quarter(angle: i32) -> (s: i64)
    requires
        0 <= angle <= QUARTER_TURN,
    ensures
        s == quarter_sine(angle as int),
        0 <= s <= UNIT,
{
    let one: i128 = UNIT as i128;
    let x: i128 = angle as i128 * 1000;
    assert(0 <= x * x <= 4_712_389_000 * 4_712_389_000) by (nonlinear_arith)
        requires
            0 <= x <= 4_712_389_000,
    ;
    let y: i128 = x * x / one;
    assert(0 <= y <= 7_402_203_363);
    let t7: i128 = one - y / 210;
    let t6: i128 = one - scaled_product(y, t7) / 156;
    let t5: i128 = one - scaled_product(y, t6) / 110;
    let t4: i128 = one - scaled_product(y, t5) / 72;
    let t3: i128 = one - scaled_product(y, t4) / 42;
    let t2: i128 = one - scaled_product(y, t3) / 20;
    let t1: i128 = one - scaled_product(y, t2) / 6;
    let s: i128 = scaled_product(x, t1);
    if s > one {
        UNIT
    } else {
        s as i64
    }
}

/// `a * b / UNIT` for a non-negative `a` below eight thousand million and a
/// `b` of at most `UNIT`.
fn scaled_product(a: i128, b: i128) -> (p: i128)
    requires
        0 <= a <= 8_000_000_000,
        0 <= b <= UNIT,
    ensures
        p == a * b / (UNIT as int),
        0 <= p <= a,
{
    assert(0 <= a * b <= a * 3_000_000_000) by (nonlinear_arith)
        requires
            0 <= a,
            0 <= b <= 3_000_000_000,
    ;
    a * b / (UNIT as i128)
}

/// Computes the unit vector of a heading.
pub fn heading_vector(angle: i32) -> (v: (i64, i64))
    ensures
        v.0 == unit_vector(angle as int).0,
        v.1 == unit_vector(angle as int).1,
        -UNIT <= v.0 <= UNIT,
        -UNIT <= v.1 <= UNIT,
{
    let a: i32 = normalize_angle(angle as i64);
    let rest: i32 = a % QUARTER_TURN;
    let s: i64 = sine_in_quarter(rest);
    let c: i64 = sine_in_quarter(QUARTER_TURN - rest);
    let quarter: i32 = a / QUARTER_TURN;
    if quarter == 0 {
        (c, s)
    } else if quarter == 1 {
        (-s, c)
    } else if quarter == 2 {
        (-c, -s)
    } else {
        (s, -c)
    }
}

/// Scales one component of a unit vector to the length of a tick's step.
fn step_component(component: i64) -> (d: i32)
    requires
        -UNIT <= component <= UNIT,
    ensures
        d == scale_to_step(component as int),
        -MOVE_SPEED_PER_TICK <= d <= MOVE_SPEED_PER_TICK,
{
    let one: i128 = UNIT as i128;
    let speed: i128 = MOVE_SPEED_PER_TICK as i128;
    if component >= 0 {
        let c: i128 = component as i128;
        assert(0 <= speed * c <= 20_000_000 * 3_000_000_000) by (nonlinear_arith)
            requires
                speed == 20_000_000,
                0 <= c <= 3_000_000_000,
        ;
        ((speed * c + one / 2) / one) as i32
    } else {
        let c: i128 = -(component as i128);
        assert(0 <= speed * c <= 20_000_000 * 3_000_000_000) by (nonlinear_arith)
            requires
                speed == 20_000_000,
                0 <= c <= 3_000_000_000,
        ;
        (-((speed * c + one / 2) / one)) as i32
    }
}

/// Computes what one tick adds to the position of a head with this heading.
pub fn heading_step(angle: i32) -> (d: (i32, i32))
    ensures
        d.0 == tick_step(angle as int).0,
        d.1 == tick_step(angle as int).1,
        -MOVE_SPEED_PER_TICK <= d.0 <= MOVE_SPEED_PER_TICK,
        -MOVE_SPEED_PER_TICK <= d.1 <= MOVE_SPEED_PER_TICK,
{
    let v = heading_vector(angle);
    (step_component(v.0), step_component(v.1))
}

/// A tick's step moves neither coordinate by more than `MOVE_SPEED_PER_TICK`.
pub proof fn lemma_tick_step_bounded(angle: int)
    ensures
        -MOVE_SPEED_PER_TICK <= tick_step(angle).0 <= MOVE_SPEED_PER_TICK,
        -MOVE_SPEED_PER_TICK <= tick_step(angle).1 <= MOVE_SPEED_PER_TICK,
{
    let v = unit_vector(angle);
    lemma_unit_vector_bounded(angle);
    lemma_scale_bounded(v.0);
    lemma_scale_bounded(v.1);
}

/// Both components of a unit vector lie within `-UNIT ..= UNIT`.
pub proof fn lemma_unit_vector_bounded(angle: int)
    ensures
        -UNIT <= unit_vector(angle).0 <= UNIT,
        -UNIT <= unit_vector(angle).1 <= UNIT,
{
    let a = wrap_angle(angle);
    let rest = a % (QUARTER_TURN as int);
    lemma_quarter_sine_bounded(rest);
    lemma_quarter_sine_bounded(QUARTER_TURN - rest);
}

/// The sine of an angle of the first quarter turn lies within `0 ..= UNIT`.
pub proof fn lemma_quarter_sine_bounded(angle: int)
    requires
        0 <= angle <= QUARTER_TURN,
    ensures
        0 <= quarter_sine(angle) <= UNIT,
{
    let one = UNIT as int;
    let x = angle * 1000;
    assert(0 <= x * x <= 4_712_389_000 * 4_712_389_000) by (nonlinear_arith)
        requires
            0 <= x <= 4_712_389_000,
    ;
    let y = x * x / one;
    let t7 = one - y / 210;
    lemma_scaled(y, t7);
    let t6 = one - (y * t7 / one) / 156;
    lemma_scaled(y, t6);
    let t5 = one - (y * t6 / one) / 110;
    lemma_scaled(y, t5);
    let t4 = one - (y * t5 / one) / 72;
    lemma_scaled(y, t4);
    let t3 = one - (y * t4 / one) / 42;
    lemma_scaled(y, t3);
    let t2 = one - (y * t3 / one) / 20;
    lemma_scaled(y, t2);
    let t1 = one - (y * t2 / one) / 6;
    lemma_scaled(x, t1);
}

proof fn lemma_scaled(a: int, b: int)
    requires
        0 <= a,
        0 <= b <= UNIT,
    ensures
        0 <= a * b / (UNIT as int) <= a,
{
    assert(0 <= a * b <= a * 3_000_000_000) by (nonlinear_arith)
        requires
            0 <= a,
            0 <= b <= 3_000_000_000,
    ;
}

proof fn lemma_scale_bounded(component: int)
    requires
        -UNIT <= component <= UNIT,
    ensures
        -MOVE_SPEED_PER_TICK <= scale_to_step(component) <= MOVE_SPEED_PER_TICK,
{
    let c = if component >= 0 { component } else { -component };
    assert(0 <= 20_000_000 * c <= 20_000_000 * 3_000_000_000) by (nonlinear_arith)
        requires
            0 <= c <= 3_000_000_000,
    ;
}

/// The ticks of one second cover what one second covers: the steps of a
/// second add up to the speed, the turns of a second to the rotation speed,
/// and four quarter turns to the full turn.
pub proof fn lemma_ticks_make_a_second()
    ensures
        MOVE_SPEED_PER_TICK * TICKS_PER_SECOND == MOVE_SPEED,
        ROTATION_SPEED_PER_TICK * TICKS_PER_SECOND == ROTATION_SPEED,
        4 * QUARTER_TURN == FULL_TURN,
{
}

/// Along the axes a tick's step is the whole of `MOVE_SPEED_PER_TICK`, with
/// nothing lost to rounding.
pub proof fn lemma_step_along_axes()
    ensures
        tick_step(0) == (MOVE_SPEED_PER_TICK as int, 0int),
        tick_step(QUARTER_TURN as int) == (0int, MOVE_SPEED_PER_TICK as int),
        tick_step(2 * QUARTER_TURN) == (-MOVE_SPEED_PER_TICK as int, 0int),
        tick_step(3 * QUARTER_TURN) == (0int, -MOVE_SPEED_PER_TICK as int),
{
    lemma_sine_at_the_ends();
}

/// The sine of no angle is nothing, and the sine of a quarter turn is `UNIT`
/// less the last digit.
proof fn lemma_sine_at_the_ends()
    ensures
        quarter_sine(0) == 0,
        quarter_sine(QUARTER_TURN as int) == UNIT - 1,
{
    lemma_sine_of_nothing();
    let one = UNIT as int;
    let x: int = 4_712_389_000;
    assert(x * x == 22_206_610_087_321_000_000) by (nonlinear_arith)
        requires
            x == 4_712_389_000,
    ;
    let y = x * x / one;
    assert(y == 7_402_203_362);
    let t7 = one - y / 210;
    assert(t7 == 2_964_751_413);
    assert(y * t7 == 21_945_692_876_802_850_506) by (nonlinear_arith)
        requires
            y == 7_402_203_362,
            t7 == 2_964_751_413,
    ;
    let t6 = one - (y * t7 / one) / 156;
    assert(t6 == 2_953_107_494);
    assert(y * t6 == 21_859_502_220_434_194_828) by (nonlinear_arith)
        requires
            y == 7_402_203_362,
            t6 == 2_953_107_494,
    ;
    let t5 = one - (y * t6 / one) / 110;
    assert(t5 == 2_933_759_085);
    assert(y * t5 == 21_716_281_362_285_043_770) by (nonlinear_arith)
        requires
            y == 7_402_203_362,
            t5 == 2_933_759_085,
    ;
    let t4 = one - (y * t5 / one) / 72;
    assert(t4 == 2_899_461_661);
    assert(y * t4 == 21_462_404_855_044_304_282) by (nonlinear_arith)
        requires
            y == 7_402_203_362,
            t4 == 2_899_461_661,
    ;
    let t3 = one - (y * t4 / one) / 42;
    assert(t3 == 2_829_663_454);
    assert(y * t3 == 20_945_744_332_527_332_348) by (nonlinear_arith)
        requires
            y == 7_402_203_362,
            t3 == 2_829_663_454,
    ;
    let t2 = one - (y * t3 / one) / 20;
    assert(t2 == 2_650_904_262);
    assert(y * t2 == 19_622_532_440_516_528_844) by (nonlinear_arith)
        requires
            y == 7_402_203_362,
            t2 == 2_650_904_262,
    ;
    let t1 = one - (y * t2 / one) / 6;
    assert(t1 == 1_909_859_309);
    assert(x * t1 == 8_999_999_999_279_201_000) by (nonlinear_arith)
        requires
            x == 4_712_389_000,
            t1 == 1_909_859_309,
    ;
    assert(x * t1 / one == 2_999_999_999);
}

/// The series of no angle has no term left.
proof fn lemma_sine_of_nothing()
    ensures
        quarter_sine(0) == 0,
{
    let one = UNIT as int;
    let x: int = 0int * 1000;
    let y = x * x / one;
    assert(y == 0);
    assert(y * one == 0) by (nonlinear_arith)
        requires
            y == 0,
    ;
    assert(x * one == 0) by (nonlinear_arith)
        requires
            x == 0,
    ;
}

} // verus!
