//! Countdown timers. A timer holds a value and loses one at every tick; whoever owns the
//! timer lets it tick `TIMER_RATE` times a second.

use vstd::prelude::*;

verus! {

/// Number of decrements per second.
pub const TIMER_RATE: u64 = 60;

/// The value a countdown holds `ticks` decrements after it held `value`.
pub open spec fn after_ticks(value: u8, ticks: nat) -> u8 {
    if ticks >= value {
        0u8
    } else {
        (value - ticks) as u8
    }
}

/// A countdown never rises, reaches zero after exactly as many decrements as the value it
/// started from, and stays there; before that it has lost one for each decrement. Decrements
/// add up: `more` decrements after `ticks` decrements are `ticks + more` decrements.
pub proof fn lemma_countdown(start: u8, ticks: nat, more: nat)
    ensures
        after_ticks(start, ticks) <= start,
        after_ticks(start, ticks) == 0 <==> ticks >= start,
        ticks < start ==> after_ticks(start, ticks) == start - ticks,
        after_ticks(after_ticks(start, ticks), more) == after_ticks(start, ticks + more),
{
}

/// An 8-bit countdown that stops at zero.
pub struct Timer {
    pub value: u8,
}

impl View for Timer {
    type V = u8;

    open spec fn view(&self) -> u8 {
        self.value
    }
}

impl Timer {
    /// Starts a countdown from `value`, replacing whatever countdown was running.
    pub fn set(&mut self, value: u8)
        ensures
            final(self)@ == value,
    {
        self.value = value;
    }

    /// The current value of the countdown.
    pub fn get(&self) -> (value: u8)
        ensures
            value == self@,
    {
        self.value
    }

    /// A timer at rest.
    pub fn init() -> (timer: Timer)
        ensures
            timer@ == 0,
    {
        Timer { value: 0 }
    }

    /// One decrement: the countdown loses one unless it has already reached zero.
    pub fn tick(&mut self)
        ensures
            final(self)@ == after_ticks(old(self)@, 1),
            final(self)@ <= old(self)@,
    {
        if self.value > 0 {
            self.value = self.value - 1;
        }
    }
}

} // verus!
