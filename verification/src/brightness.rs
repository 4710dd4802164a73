//! The brightness calculator: step size and the next clamped value.

use vstd::prelude::*;

verus! {

/// Which way a single invocation nudges the brightness value.
#[derive(Clone, Copy, Debug, PartialEq, Eq, Structural)]
pub enum Direction {
    Increase,
    Decrease,
}

/// Size of one brightness step: the integer quotient of the maximum
/// brightness by the requested number of steps from 0 to the maximum.
pub open spec fn spec_step(max: u32, total_steps: u32) -> int
    recommends
        total_steps > 0,
{
    max as int / total_steps as int
}

/// The next brightness value: one step from `current` toward the bound it
/// moves toward, clamped so that an increase never passes `max` and a
/// decrease never goes below 0.
pub open spec fn spec_next(current: u32, max: u32, step: u32, direction: Direction) -> int {
    match direction {
        Direction::Increase => if current + step > max {
            max as int
        } else {
            current + step
        },
        Direction::Decrease => if current - step < 0 {
            0
        } else {
            current - step
        },
    }
}

pub fn step_size(max: u32, total_steps: u32) -> (step: u32)
    requires
        total_steps > 0,
    ensures
        step == spec_step(max, total_steps),
{
    max / total_steps
}

pub fn next_brightness(current: u32, max: u32, step: u32, direction: Direction) -> (new: u32)
    ensures
        new == spec_next(current, max, step, direction),
{
    match direction {
        Direction::Increase => {
            if current as u64 + step as u64 > max as u64 {
                max
            } else {
                current + step
            }
        }
        Direction::Decrease => {
            if (current as i64) - (step as i64) < 0 {
                0
            } else {
                current - step
            }
        }
    }
}

/// Clamping: starting from a reading within `[0, max]`, one step in either
/// direction lands within `[0, max]` again, whatever the step size.
pub proof fn lemma_next_stays_in_range(current: u32, max: u32, step: u32, direction: Direction)
    requires
        current <= max,
    ensures
        0 <= spec_next(current, max, step, direction) <= max,
{
}

/// A step count larger than the maximum brightness gives step size 0, and a
/// zero step moves nothing: such an invocation is a no-op, not an error.
pub proof fn lemma_oversized_step_count_is_noop(
    current: u32,
    max: u32,
    total_steps: u32,
    direction: Direction,
)
    requires
        current <= max,
        total_steps > max,
    ensures
        spec_step(max, total_steps) == 0,
        spec_next(current, max, 0, direction) == current,
{
    vstd::arithmetic::div_mod::lemma_basic_div(max as int, total_steps as int);
}

} // verus!
