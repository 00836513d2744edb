//! The fixed-rate clock that paces the game.

use vstd::prelude::*;

verus! {

/// How often per second the game advances.
pub const TICKS_PER_SECOND: u64 = 30;

/// Nanoseconds in one second.
pub const NANOS_PER_SECOND: u64 = 1_000_000_000;

/// Time gathered after `delta_nanos` more nanoseconds, counted in units of
/// `1 / TICKS_PER_SECOND` nanoseconds. In that unit one period is exactly
/// `NANOS_PER_SECOND`.
pub open spec fn gathered(phase: nat, delta_nanos: nat) -> nat {
    phase + TICKS_PER_SECOND as nat * delta_nanos
}

/// A repeating timer with a period of one thirtieth of a second.
///
/// It keeps the time since the last period ended and fires at most once per
/// call, however many periods the call spans.
#[derive(Debug, Clone, Copy)]
pub struct TickTimer {
    phase: u64,
}

impl View for TickTimer {
    type V = nat;

    /// The time gathered so far, in units of `1 / TICKS_PER_SECOND` nanoseconds.
    closed spec fn view(&self) -> nat {
        self.phase as nat
    }
}

impl TickTimer {
    /// A timer that has gathered no time.
    pub fn new() -> (timer: TickTimer)
        ensures
            timer@ == 0,
    {
        TickTimer { phase: 0 }
    }

    /// Adds `delta_nanos` to the gathered time. Reports whether a period ended,
    /// and keeps what is left over after the whole periods.
    pub fn tick(&mut self, delta_nanos: u64) -> (fired: bool)
        ensures
            fired == (gathered(old(self)@, delta_nanos as nat) >= NANOS_PER_SECOND),
            final(self)@ == gathered(old(self)@, delta_nanos as nat) % (NANOS_PER_SECOND as nat),
    {
        let rate: u128 = TICKS_PER_SECOND as u128;
        let delta: u128 = delta_nanos as u128;
        assert(rate * delta <= 30 * u64::MAX) by (nonlinear_arith)
            requires
                rate == 30,
                delta <= u64::MAX,
        ;
        let total: u128 = self.phase as u128 + rate * delta;
        let period: u128 = NANOS_PER_SECOND as u128;
        self.phase = (total % period) as u64;
        total >= period
    }

    /// Whole nanoseconds gathered since the last period ended.
    pub fn elapsed_nanos(&self) -> (nanos: u64)
        ensures
            nanos == self@ / (TICKS_PER_SECOND as nat),
    {
        self.phase / TICKS_PER_SECOND
    }
}

} // verus!
