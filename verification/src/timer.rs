//! The delay timer: a byte that counts down to zero, one step per tick.

use vstd::prelude::*;

verus! {

/// The timer value after one tick: one less, but never below zero.
pub open spec fn ticked(value: u8) -> u8 {
    if value > 0 {
        (value - 1) as u8
    } else {
        0
    }
}

/// The timer value after `count` ticks.
pub open spec fn ticked_times(value: u8, count: nat) -> u8
    decreases count,
{
    if count == 0 {
        value
    } else {
        ticked(ticked_times(value, (count - 1) as nat))
    }
}

/// After `count` ticks the timer has gone down by `count`, or has reached
/// zero and stayed there.
pub proof fn lemma_ticked_times(value: u8, count: nat)
    ensures
        ticked_times(value, count) == if count <= value {
            value - count
        } else {
            0
        },
    decreases count,
{
    if count > 0 {
        lemma_ticked_times(value, (count - 1) as nat);
    }
}

/// The delay timer. Its view is the value it holds.
pub struct Timer {
    value: u8,
}

impl View for Timer {
    type V = u8;

    closed spec fn view(&self) -> u8 {
        self.value
    }
}

impl Timer {
    /// A timer at zero.
    pub fn new() -> (timer: Timer)
        ensures
            timer@ == 0,
    {
        Timer { value: 0 }
    }

    /// Sets the timer to `value`.
    pub fn set(&mut self, value: u8)
        ensures
            final(self)@ == value,
    {
        self.value = value;
    }

    /// What the timer holds.
    pub fn get(&self) -> (value: u8)
        ensures
            value == self@,
    {
        self.value
    }

    /// Moves the timer one step towards zero, where it stays.
    pub fn tick(&mut self)
        ensures
            final(self)@ == ticked(old(self)@),
    {
        if self.value > 0 {
            self.value -= 1;
        }
    }
}

} // verus!
