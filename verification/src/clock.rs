//! The tick clock: a monotonically increasing tick counter together with a
//! retunable target rate. The clock never skips ticks; the balance controller
//! only speeds up or slows down future ticks through a bounded adjustment.

use vstd::prelude::*;

verus! {

/// The largest magnitude, in ticks per second, by which the queue-balance
/// controller may retune the clock away from its nominal rate.
pub const MAX_ADJ: i32 = 3;

/// Drives the emulation one discrete step at a time. `current_tick` is the
/// number of steps taken so far; the effective rate is
/// `nominal_tps + adjustment`, with the adjustment clamped to
/// `[-MAX_ADJ, MAX_ADJ]`.
pub struct TickClock {
    pub current_tick: u64,
    pub nominal_tps: u32,
    pub adjustment: i32,
}

impl TickClock {
    /// A clock's adjustment always stays within the clamp bounds, and its
    /// effective rate never goes negative.
    pub open spec fn wf(self) -> bool {
        &&& -MAX_ADJ <= self.adjustment <= MAX_ADJ
        &&& MAX_ADJ <= self.nominal_tps <= u32::MAX - MAX_ADJ
    }

    pub fn new(nominal_tps: u32) -> (r: Self)
        requires
            MAX_ADJ <= nominal_tps <= u32::MAX - MAX_ADJ,
        ensures
            r.wf(),
            r.current_tick == 0,
            r.nominal_tps() == nominal_tps,
            r.adjustment() == 0,
    {
        TickClock { current_tick: 0, nominal_tps, adjustment: 0 }
    }

    pub open spec fn spec_current_tick(&self) -> u64 {
        self.current_tick
    }

    #[verifier::when_used_as_spec(spec_current_tick)]
    pub fn current_tick(&self) -> (r: u64)
        ensures
            r == self.current_tick,
    {
        self.current_tick
    }

    pub open spec fn spec_nominal_tps(&self) -> u32 {
        self.nominal_tps
    }

    #[verifier::when_used_as_spec(spec_nominal_tps)]
    pub fn nominal_tps(&self) -> (r: u32)
        ensures
            r == self.nominal_tps,
    {
        self.nominal_tps
    }

    pub open spec fn spec_adjustment(&self) -> i32 {
        self.adjustment
    }

    #[verifier::when_used_as_spec(spec_adjustment)]
    pub fn adjustment(&self) -> (r: i32)
        ensures
            r == self.adjustment,
    {
        self.adjustment
    }

    /// What a requested retune becomes once clamped to `[-MAX_ADJ, MAX_ADJ]`.
    pub open spec fn clamped_adjustment(delta: i32) -> int {
        if delta < -MAX_ADJ {
            -MAX_ADJ as int
        } else if delta > MAX_ADJ {
            MAX_ADJ as int
        } else {
            delta as int
        }
    }

    /// Retunes the clock. The only externally mutable field; the request is
    /// clamped, so the effective rate never strays beyond the bounds.
    pub fn set_adjustment(&mut self, delta: i32)
        requires
            old(self).wf(),
        ensures
            final(self).wf(),
            final(self).adjustment() == Self::clamped_adjustment(delta),
            final(self).current_tick == old(self).current_tick,
            final(self).nominal_tps() == old(self).nominal_tps(),
    {
        self.adjustment = if delta < -MAX_ADJ {
            -MAX_ADJ
        } else if delta > MAX_ADJ {
            MAX_ADJ
        } else {
            delta
        };
    }

    /// The rate, in ticks per second, at which the driving loop should wait
    /// for the next tick boundary.
    pub fn effective_tps(&self) -> (r: u32)
        requires
            self.wf(),
        ensures
            r == self.nominal_tps() + self.adjustment(),
    {
        if self.adjustment >= 0 {
            self.nominal_tps + (self.adjustment as u32)
        } else {
            self.nominal_tps - ((-self.adjustment) as u32)
        }
    }

    /// Advances to the next tick and returns it. The clock only ever moves
    /// forward by exactly one: no tick is skipped and none repeats.
    pub fn advance(&mut self) -> (tick: u64)
        requires
            old(self).wf(),
            old(self).current_tick < u64::MAX,
        ensures
            final(self).wf(),
            tick == old(self).current_tick + 1,
            final(self).current_tick == old(self).current_tick + 1,
            final(self).nominal_tps() == old(self).nominal_tps(),
            final(self).adjustment() == old(self).adjustment(),
    {
        self.current_tick = self.current_tick + 1;
        self.current_tick
    }
}

} // verus!
