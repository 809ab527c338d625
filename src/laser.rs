use vstd::prelude::*;
use crate::TICKS_PER_BEAT;

verus! {

/// Laser rotation speed for a padding in ticks:
/// `floor((floor(2 / padding) + 1)^2 / 4)`, padding counted in beats,
/// saturated at `i32::MAX`; a padding that is not positive saturates too.
pub open spec fn laser_speed_of(padding: int) -> int {
    if padding <= 0 {
        i32::MAX as int
    } else {
        let q = (2 * TICKS_PER_BEAT) / padding;
        let s = (q + 1) * (q + 1) / 4;
        if s > i32::MAX {
            i32::MAX as int
        } else {
            s
        }
    }
}

/// Laser colour: 7 for a fast note, 3 otherwise.
pub open spec fn laser_color_of(padding: int) -> i32 {
    if padding < TICKS_PER_BEAT {
        7
    } else {
        3
    }
}

/// Back-light value of a bomb or an any-direction note: 6 if fast, else 2.
pub open spec fn flash_value_of(padding: int) -> i32 {
    if padding < TICKS_PER_BEAT {
        6
    } else {
        2
    }
}

pub fn calculate_laser_speed(padding: i128) -> (r: i32)
    ensures
        r as int == laser_speed_of(padding as int),
{
    if padding <= 0 {
        return i32::MAX;
    }
    let p: u128 = padding as u128;
    let q: u128 = (2 * TICKS_PER_BEAT) as u128 / p;
    proof {
        vstd::arithmetic::div_mod::lemma_div_is_ordered_by_denominator(96000, 1, p as int);
        assert((q + 1) * (q + 1) <= 96001 * 96001) by (nonlinear_arith)
            requires
                q <= 96000,
        ;
    }
    let s: u128 = (q + 1) * (q + 1) / 4;
    if s > i32::MAX as u128 {
        i32::MAX
    } else {
        s as i32
    }
}

pub fn laser_color(padding: i128) -> (r: i32)
    ensures
        r == laser_color_of(padding as int),
{
    if padding < TICKS_PER_BEAT as i128 {
        7
    } else {
        3
    }
}

pub fn flash_value(padding: i128) -> (r: i32)
    ensures
        r == flash_value_of(padding as int),
{
    if padding < TICKS_PER_BEAT as i128 {
        6
    } else {
        2
    }
}

} // verus!
