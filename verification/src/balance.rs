//! The queue-balance controller: a feedback loop, run once per tick, that
//! reads both input queues' depths and retunes the local tick rate so that
//! the two peers' buffering stays in equilibrium — a side running ahead slows
//! down, a side falling behind speeds up.

use vstd::prelude::*;

use crate::clock::{TickClock, MAX_ADJ};

verus! {

/// Imbalance magnitudes at or below this are left uncorrected, so single-tick
/// noise cannot make the controller chatter.
pub const DEADBAND: u32 = 1;

/// The adjustment the controller computes for a given imbalance
/// (`remote_depth - local_depth`): zero inside the deadband, else half the
/// imbalance, clamped to `[-MAX_ADJ, MAX_ADJ]`.
pub open spec fn balance_adjustment(imbalance: int) -> int {
    if -DEADBAND <= imbalance <= DEADBAND {
        0
    } else if imbalance > DEADBAND {
        if imbalance / 2 > MAX_ADJ {
            MAX_ADJ as int
        } else {
            imbalance / 2
        }
    } else {
        if (-imbalance) / 2 > MAX_ADJ {
            -MAX_ADJ as int
        } else {
            -((-imbalance) / 2)
        }
    }
}

/// Computes the bounded tick-rate adjustment for the observed queue depths.
/// A deeper remote queue means this side is falling behind and should speed
/// up; a deeper local queue means it is running ahead and should slow down.
pub fn compute_adjustment(local_depth: usize, remote_depth: usize) -> (r: i32)
    ensures
        r == balance_adjustment(remote_depth - local_depth),
        -MAX_ADJ <= r <= MAX_ADJ,
{
    if remote_depth > local_depth {
        let diff = remote_depth - local_depth;
        if diff <= DEADBAND as usize {
            0
        } else {
            let half = diff / 2;
            if half > MAX_ADJ as usize {
                MAX_ADJ
            } else {
                half as i32
            }
        }
    } else {
        let diff = local_depth - remote_depth;
        if diff <= DEADBAND as usize {
            0
        } else {
            let half = diff / 2;
            if half > MAX_ADJ as usize {
                -MAX_ADJ
            } else {
                -(half as i32)
            }
        }
    }
}

/// One controller invocation: observe both depths, compute the bounded
/// adjustment, and apply it to the clock.
pub fn balance_clock(clock: &mut TickClock, local_depth: usize, remote_depth: usize)
    requires
        old(clock).wf(),
    ensures
        final(clock).wf(),
        final(clock).adjustment() == balance_adjustment(remote_depth - local_depth),
        final(clock).current_tick == old(clock).current_tick,
        final(clock).nominal_tps() == old(clock).nominal_tps(),
{
    let adj = compute_adjustment(local_depth, remote_depth);
    clock.set_adjustment(adj);
    proof {
        assert(TickClock::clamped_adjustment(adj) == adj as int);
    }
}

/// The controller's output is always within `[-MAX_ADJ, MAX_ADJ]`, and for a
/// fixed imbalance held constant it is a single fixed point — repeated
/// invocations return the same correction rather than oscillating — whose
/// direction drives the imbalance toward zero: positive (speed up) exactly
/// when this side is behind by more than the deadband, negative (slow down)
/// exactly when it is ahead by more than the deadband, and zero inside the
/// deadband.
pub proof fn lemma_controller_converges(imbalance: int)
    ensures
        -MAX_ADJ <= balance_adjustment(imbalance) <= MAX_ADJ,
        imbalance > DEADBAND ==> 1 <= balance_adjustment(imbalance),
        imbalance < -DEADBAND ==> balance_adjustment(imbalance) <= -1,
        -DEADBAND <= imbalance <= DEADBAND ==> balance_adjustment(imbalance) == 0,
{
}

} // verus!
