//! The match: the session-level state machine above the round. It negotiates
//! settings with the remote peer, derives the shared deterministic seed,
//! constructs at most one live round at a time, and owns the cooperative
//! cancellation signal.

use vstd::prelude::*;

use crate::protocol::Settings;
use crate::queue::Input;
use crate::replay::Replay;
use crate::round::{FeedOutcome, Round, RoundPhase, StepResult};

verus! {

/// Why a match could not be established.
#[derive(Clone, Copy, Debug, PartialEq, Eq, Structural)]
pub enum MatchError {
    /// ROM identity or match type disagree between the sides; the match
    /// never starts.
    SettingsMismatch,
}

/// Two peers can play together exactly when they agree on the match type,
/// its variant and the ROM identity.
pub open spec fn spec_settings_compatible(a: Settings, b: Settings) -> bool {
    &&& a.match_type == b.match_type
    &&& a.match_subtype == b.match_subtype
    &&& a.rom_checksum == b.rom_checksum
}

/// The shared seed derived from the two contributions, the offerer's first.
/// The combination is order-dependent, so the offerer tie-break decides only
/// which side's contribution seeds first, not any authority.
pub open spec fn spec_shared_seed(first: u128, second: u128) -> u128 {
    vstd::wrapping::u128_specs::wrapping_add(
        vstd::wrapping::u128_specs::wrapping_mul(first, 3),
        second,
    )
}

/// The outcome of a successful negotiation: immutable for the life of the
/// match.
#[derive(Clone, Copy, Debug, PartialEq, Eq, Structural)]
pub struct Negotiated {
    pub local_settings: Settings,
    pub remote_settings: Settings,
    pub shared_seed: u128,
    pub is_offerer: bool,
}

/// Exchanges settings with the peer: fails with `SettingsMismatch` if and
/// only if ROM identity or match type disagree; on success derives the
/// shared deterministic seed, the offerer's contribution seeding first.
pub fn negotiate(local: &Settings, remote: &Settings, is_offerer: bool) -> (r: Result<
    Negotiated,
    MatchError,
>)
    ensures
        r.is_ok() <==> spec_settings_compatible(*local, *remote),
        r.is_err() ==> r == Err::<Negotiated, MatchError>(MatchError::SettingsMismatch),
        r.is_ok() ==> r->Ok_0 == (Negotiated {
            local_settings: *local,
            remote_settings: *remote,
            shared_seed: if is_offerer {
                spec_shared_seed(local.seed_contribution, remote.seed_contribution)
            } else {
                spec_shared_seed(remote.seed_contribution, local.seed_contribution)
            },
            is_offerer,
        }),
{
    if local.match_type != remote.match_type || local.match_subtype != remote.match_subtype
        || local.rom_checksum != remote.rom_checksum {
        return Err(MatchError::SettingsMismatch);
    }
    let (first, second) = if is_offerer {
        (local.seed_contribution, remote.seed_contribution)
    } else {
        (remote.seed_contribution, local.seed_contribution)
    };
    let shared_seed = first.wrapping_mul(3).wrapping_add(second);
    Ok(Negotiated { local_settings: *local, remote_settings: *remote, shared_seed, is_offerer })
}

/// A match: local settings, the negotiation outcome once reached, at most
/// one live round, and the cancellation signal shared with every flow.
pub struct Match {
    pub local_settings: Settings,
    pub is_offerer: bool,
    pub max_queue_depth: usize,
    pub stall_timeout: u32,
    pub nominal_tps: u32,
    pub negotiated: Option<Negotiated>,
    pub round: Option<Round>,
    pub cancel_requested: bool,
}

impl Match {
    pub open spec fn wf(self) -> bool {
        &&& match self.round {
            Some(r) => r.wf() && self.negotiated is Some,
            None => true,
        }
        &&& crate::clock::MAX_ADJ <= self.nominal_tps <= u32::MAX - crate::clock::MAX_ADJ
    }

    /// A match that has not yet heard from the peer.
    pub fn new(
        local_settings: Settings,
        is_offerer: bool,
        max_queue_depth: usize,
        stall_timeout: u32,
        nominal_tps: u32,
    ) -> (r: Match)
        requires
            crate::clock::MAX_ADJ <= nominal_tps <= u32::MAX - crate::clock::MAX_ADJ,
        ensures
            r.wf(),
            r.local_settings == local_settings,
            r.is_offerer == is_offerer,
            r.max_queue_depth == max_queue_depth,
            r.stall_timeout == stall_timeout,
            r.nominal_tps == nominal_tps,
            r.negotiated is None,
            r.round is None,
            !r.cancel_requested,
    {
        Match {
            local_settings,
            is_offerer,
            max_queue_depth,
            stall_timeout,
            nominal_tps,
            negotiated: None,
            round: None,
            cancel_requested: false,
        }
    }

    /// Handles the peer's `Init`: negotiation fails with `SettingsMismatch`
    /// — and no round is created — if and only if the two settings disagree
    /// on ROM identity or match type; on success the shared seed is derived
    /// and exactly one fresh round is constructed, awaiting its initial
    /// buffer. The offerer plays as player zero. `initial_state` is the
    /// core-state snapshot the recording starts from.
    pub fn handle_remote_init(&mut self, remote: Settings, initial_state: Vec<u8>) -> (r: Result<
        (),
        MatchError,
    >)
        requires
            old(self).wf(),
            old(self).negotiated is None,
            old(self).round is None,
        ensures
            final(self).wf(),
            r.is_ok() <==> spec_settings_compatible(old(self).local_settings, remote),
            r.is_err() ==> {
                &&& r == Err::<(), MatchError>(MatchError::SettingsMismatch)
                &&& final(self).negotiated is None
                &&& final(self).round is None
            },
            r.is_ok() ==> {
                &&& final(self).negotiated == Some(
                    Negotiated {
                        local_settings: old(self).local_settings,
                        remote_settings: remote,
                        shared_seed: if old(self).is_offerer {
                            spec_shared_seed(
                                old(self).local_settings.seed_contribution,
                                remote.seed_contribution,
                            )
                        } else {
                            spec_shared_seed(
                                remote.seed_contribution,
                                old(self).local_settings.seed_contribution,
                            )
                        },
                        is_offerer: old(self).is_offerer,
                    },
                )
                &&& final(self).round is Some
                &&& crate::round::fresh_round(final(self).round->0@)
                &&& final(self).round->0@.local_delay == old(self).local_settings.input_delay
                &&& final(self).round->0@.remote_delay == remote.input_delay
                &&& final(self).round->0@.local_queue.max_depth == old(self).max_queue_depth
                &&& final(self).round->0@.remote_queue.max_depth == old(self).max_queue_depth
                &&& final(self).round->0@.stall_timeout == old(self).stall_timeout
                &&& final(self).round->0.local_player_index == (if old(self).is_offerer {
                    0u8
                } else {
                    1u8
                })
            },
            final(self).local_settings == old(self).local_settings,
            final(self).is_offerer == old(self).is_offerer,
            final(self).cancel_requested == old(self).cancel_requested,
    {
        let negotiated = match negotiate(&self.local_settings, &remote, self.is_offerer) {
            Ok(n) => n,
            Err(e) => {
                return Err(e);
            },
        };
        let local_player_index: u8 = if self.is_offerer {
            0
        } else {
            1
        };
        let round = Round::new(
            self.max_queue_depth,
            self.local_settings.input_delay,
            remote.input_delay,
            self.stall_timeout,
            self.nominal_tps,
            local_player_index,
            initial_state,
        );
        self.negotiated = Some(negotiated);
        self.round = Some(round);
        Ok(())
    }

    /// Raises the cooperative cancellation signal. Every flow observes it at
    /// its next suspension point; the round then terminates within one tick.
    pub fn cancel(&mut self)
        requires
            old(self).wf(),
        ensures
            final(self).wf(),
            final(self).cancel_requested,
            final(self).round == old(self).round,
            final(self).negotiated == old(self).negotiated,
    {
        self.cancel_requested = true;
    }

    /// One driving-loop iteration of the live round, observing the
    /// cancellation signal.
    pub fn step(&mut self) -> (r: StepResult)
        requires
            old(self).wf(),
        ensures
            final(self).wf(),
            match old(self).round {
                None => r == StepResult::Idle && final(self).round is None,
                Some(rd) => {
                    &&& final(self).round is Some
                    &&& (final(self).round->0@, r) == crate::round::spec_step(
                        rd@,
                        old(self).cancel_requested,
                    )
                },
            },
            final(self).negotiated == old(self).negotiated,
            final(self).cancel_requested == old(self).cancel_requested,
    {
        match &mut self.round {
            None => StepResult::Idle,
            Some(rd) => rd.step(self.cancel_requested),
        }
    }

    /// Buffers one tick of this side's sampled input.
    pub fn feed_local(&mut self, tick: u64, input: Input) -> (r: Option<FeedOutcome>)
        requires
            old(self).wf(),
        ensures
            final(self).wf(),
            match old(self).round {
                None => r is None && final(self).round is None,
                Some(rd) => {
                    &&& final(self).round is Some
                    &&& r is Some
                    &&& ({
                        let (q2, m2, fr) = crate::round::spec_feed(
                            rd@.local_queue,
                            rd@,
                            tick,
                            input,
                        );
                        &&& r->0 == fr
                        &&& final(self).round->0@ == (if fr is Fatal {
                            m2
                        } else {
                            crate::round::RoundModel { local_queue: q2, ..m2 }
                        })
                    })
                },
            },
    {
        match &mut self.round {
            None => None,
            Some(rd) => Some(rd.feed_local(tick, input)),
        }
    }

    /// Buffers one tick of remote input handed over by the transport
    /// receiver.
    pub fn feed_remote(&mut self, tick: u64, input: Input) -> (r: Option<FeedOutcome>)
        requires
            old(self).wf(),
        ensures
            final(self).wf(),
            match old(self).round {
                None => r is None && final(self).round is None,
                Some(rd) => {
                    &&& final(self).round is Some
                    &&& r is Some
                    &&& ({
                        let (q2, m2, fr) = crate::round::spec_feed(
                            rd@.remote_queue,
                            rd@,
                            tick,
                            input,
                        );
                        &&& r->0 == fr
                        &&& final(self).round->0@ == (if fr is Fatal {
                            m2
                        } else {
                            crate::round::RoundModel { remote_queue: q2, ..m2 }
                        })
                    })
                },
            },
    {
        match &mut self.round {
            None => None,
            Some(rd) => Some(rd.feed_remote(tick, input)),
        }
    }

    /// Starts ticking once both queues hold their initial buffer.
    pub fn try_start(&mut self) -> (started: bool)
        requires
            old(self).wf(),
        ensures
            final(self).wf(),
            match old(self).round {
                None => !started && final(self).round is None,
                Some(rd) => {
                    &&& final(self).round is Some
                    &&& final(self).round->0@ == crate::round::spec_try_start(rd@)
                },
            },
    {
        match &mut self.round {
            None => false,
            Some(rd) => rd.try_start(),
        }
    }

    /// Takes the round out once it has ended and closes its recording.
    pub fn take_replay(&mut self) -> (r: Option<Replay>)
        requires
            old(self).wf(),
        ensures
            final(self).wf(),
            match old(self).round {
                None => r is None && final(self).round is None,
                Some(rd) => {
                    if rd@.phase is Ended {
                        &&& final(self).round is None
                        &&& r is Some
                        &&& r->0@.pairs == rd@.consumed
                        &&& r->0@.is_complete == (rd@.phase == RoundPhase::Ended(
                            crate::round::RoundOutcome::Completed,
                        ))
                    } else {
                        &&& final(self).round == old(self).round
                        &&& r is None
                    }
                },
            },
    {
        let ended = match &self.round {
            None => false,
            Some(rd) => match rd.phase {
                RoundPhase::Ended(_) => true,
                _ => false,
            },
        };
        if !ended {
            return None;
        }
        let rd = match self.round.take() {
            Some(rd) => rd,
            None => {
                return None;
            },
        };
        Some(rd.into_replay())
    }
}

} // verus!
