//! Read-only diagnostic snapshots for the UI flow: queue depths, delays and
//! the current tick-rate adjustment. No mutation path leads back in.

use vstd::prelude::*;

use crate::round::Round;

verus! {

/// A point-in-time snapshot of a live round.
#[derive(Clone, Copy, Debug, PartialEq, Eq, Structural)]
pub struct RoundDebugStats {
    pub local_player_index: u8,
    pub local_qlen: usize,
    pub remote_qlen: usize,
    pub local_delay: u32,
    pub remote_delay: u32,
    pub tps_adjustment: i32,
}

/// A point-in-time snapshot of a match: its round's snapshot, if one is
/// live.
#[derive(Clone, Copy, Debug, PartialEq, Eq, Structural)]
pub struct MatchDebugStats {
    pub round: Option<RoundDebugStats>,
}

impl Round {
    /// Samples the diagnostic snapshot of this round.
    pub fn debug_stats(&self) -> (r: RoundDebugStats)
        requires
            self.wf(),
        ensures
            r == (RoundDebugStats {
                local_player_index: self.local_player_index,
                local_qlen: self@.local_queue.entries.len() as usize,
                remote_qlen: self@.remote_queue.entries.len() as usize,
                local_delay: self@.local_delay,
                remote_delay: self@.remote_delay,
                tps_adjustment: self@.adjustment,
            }),
    {
        RoundDebugStats {
            local_player_index: self.local_player_index,
            local_qlen: self.local_queue.depth(),
            remote_qlen: self.remote_queue.depth(),
            local_delay: self.local_delay,
            remote_delay: self.remote_delay,
            tps_adjustment: self.clock.adjustment,
        }
    }
}

impl crate::battle::Match {
    /// Samples the diagnostic snapshot of this match.
    pub fn debug_stats(&self) -> (r: MatchDebugStats)
        requires
            self.wf(),
        ensures
            match self.round {
                None => r.round is None,
                Some(rd) => r.round == Some(
                    RoundDebugStats {
                        local_player_index: rd.local_player_index,
                        local_qlen: rd@.local_queue.entries.len() as usize,
                        remote_qlen: rd@.remote_queue.entries.len() as usize,
                        local_delay: rd@.local_delay,
                        remote_delay: rd@.remote_delay,
                        tps_adjustment: rd@.adjustment,
                    },
                ),
            },
    {
        match &self.round {
            None => MatchDebugStats { round: None },
            Some(rd) => MatchDebugStats { round: Some(rd.debug_stats()) },
        }
    }
}

} // verus!
