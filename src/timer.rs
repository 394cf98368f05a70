//! Countdown timers, decremented once per tick of a 60 Hz clock.
use vstd::prelude::*;

verus! {

/// Number of ticks per second.
pub const TICKS_PER_SECOND: u64 = 60;

/// The value of a timer that held `v` after `n` ticks with no `set` between.
pub open spec fn spec_after_ticks(v: u8, n: nat) -> int {
    if n >= v {
        0
    } else {
        v - n
    }
}

/// An 8-bit counter that counts down to zero and stays there.
#[derive(Clone, Copy, Debug, PartialEq, Eq, Structural)]
pub struct Timer {
    pub val: u8,
}

impl Timer {
    /// A timer at zero.
    pub fn new() -> (r: Timer)
        ensures
            r.val == 0,
    {
        Timer { val: 0 }
    }

    /// The current value.
    pub fn get(&self) -> (r: u8)
        ensures
            r == self.val,
    {
        self.val
    }

    /// Sets the value.
    pub fn set(&mut self, v: u8)
        ensures
            final(self).val == v,
    {
        self.val = v;
    }

    /// One tick of the clock: a positive value goes down by one, zero stays.
    pub fn tick(&mut self)
        ensures
            final(self).val == spec_after_ticks(old(self).val, 1),
            old(self).val > 0 ==> final(self).val < old(self).val,
            old(self).val == 0 ==> final(self).val == 0,
    {
        if self.val > 0 {
            self.val = self.val - 1;
        }
    }

    /// `n` ticks of the clock.
    pub fn ticks(&mut self, n: u64)
        ensures
            final(self).val == spec_after_ticks(old(self).val, n as nat),
    {
        let mut k: u64 = 0;
        while k < n && self.val > 0
            invariant
                k <= n,
                self.val == spec_after_ticks(old(self).val, k as nat),
            decreases n - k,
        {
            self.tick();
            k = k + 1;
        }
    }
}

/// With no `set` between, a timer never goes up: it goes strictly down while
/// it is above zero, and once at zero it stays at zero.
pub proof fn lemma_timer_monotone(v: u8, n: nat, m: nat)
    requires
        n <= m,
    ensures
        spec_after_ticks(v, m) <= spec_after_ticks(v, n),
        n < m && spec_after_ticks(v, n) > 0 ==> spec_after_ticks(v, m) < spec_after_ticks(v, n),
        spec_after_ticks(v, n) == 0 ==> spec_after_ticks(v, m) == 0,
        spec_after_ticks(v, n) >= 0,
{
}

} // verus!
