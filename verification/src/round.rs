//! The round: the unit of one played match segment. It owns both input
//! queues and the tick clock, consumes one local and one remote input per
//! tick, feeds the pair to the emulation core, runs the queue-balance
//! controller every tick, and classifies every fatal condition.

use vstd::prelude::*;

use crate::balance::{balance_adjustment, balance_clock};
use crate::clock::TickClock;
use crate::queue::{spec_pop, spec_push, Input, InputQueue, QueueError, QueueModel};
use crate::replay::{InputPair, Recorder, Replay};

verus! {

/// Why a round ended.
#[derive(Clone, Copy, Debug, PartialEq, Eq, Structural)]
pub enum RoundOutcome {
    /// The emulation core signalled normal game-logic completion.
    Completed,
    /// The cooperative cancellation signal was observed.
    Cancelled,
    /// Queue overflow, an out-of-order push, a stall past the timeout, or a
    /// checksum mismatch: the simulations can no longer agree.
    Desynced,
    /// The emulation core reported a crash.
    Faulted,
}

/// The round's lifecycle.
#[derive(Clone, Copy, Debug, PartialEq, Eq, Structural)]
pub enum RoundPhase {
    /// Both queues must accumulate at least their side's delay in entries
    /// before ticking begins.
    AwaitingInitialBuffer,
    /// Ticking: consume, feed, balance.
    Running,
    /// Terminal; both queues are released and the transport is detached.
    Ended(RoundOutcome),
}

/// What one driving-loop iteration produced.
#[derive(Clone, Copy, Debug, PartialEq, Eq, Structural)]
pub enum StepResult {
    /// A tick was taken; feed this pair to the emulation core.
    Stepped(InputPair),
    /// An input was not yet available; no tick was taken.
    Stalled,
    /// The round is not running.
    Idle,
    /// The round just ended for the given reason.
    Ended(RoundOutcome),
}

/// How a pushed input was received.
#[derive(Clone, Copy, Debug, PartialEq, Eq, Structural)]
pub enum FeedOutcome {
    /// Buffered.
    Accepted,
    /// The round has ended; the queues are detached and the input is dropped.
    Closed,
    /// A protocol or backpressure violation; the round ends desynchronized.
    Fatal(QueueError),
}

/// The mathematical state of a round.
pub struct RoundModel {
    pub phase: RoundPhase,
    pub local_queue: QueueModel,
    pub remote_queue: QueueModel,
    pub tick: u64,
    pub adjustment: i32,
    pub nominal_tps: u32,
    pub local_delay: u32,
    pub remote_delay: u32,
    pub stall_ticks: u32,
    pub stall_timeout: u32,
    pub detached: bool,
    pub consumed: Seq<InputPair>,
}

/// A terminal transition: the phase records the outcome, both queues are
/// emptied and the transport is detached. No further ticking occurs.
pub open spec fn spec_released(m: RoundModel, outcome: RoundOutcome) -> RoundModel {
    RoundModel {
        phase: RoundPhase::Ended(outcome),
        local_queue: QueueModel { entries: Seq::<Input>::empty(), ..m.local_queue },
        remote_queue: QueueModel { entries: Seq::<Input>::empty(), ..m.remote_queue },
        detached: true,
        ..m
    }
}

/// Ticking begins exactly when both queues hold at least their side's delay
/// in entries.
pub open spec fn spec_try_start(m: RoundModel) -> RoundModel {
    if m.phase == RoundPhase::AwaitingInitialBuffer && m.local_queue.entries.len()
        >= m.local_delay && m.remote_queue.entries.len() >= m.remote_delay {
        RoundModel { phase: RoundPhase::Running, ..m }
    } else {
        m
    }
}

/// What buffering one side's input does: a push failure — out-of-order or
/// overflow — is fatal and classified as a desynchronization, releasing the
/// round's resources at once.
pub open spec fn spec_feed(q: QueueModel, m: RoundModel, tick: u64, input: Input) -> (
    QueueModel,
    RoundModel,
    FeedOutcome,
) {
    if m.phase is Ended {
        (q, m, FeedOutcome::Closed)
    } else {
        let (q2, r) = spec_push(q, tick, input);
        match r {
            Ok(u) => (q2, m, FeedOutcome::Accepted),
            Err(e) => (q2, spec_released(m, RoundOutcome::Desynced), FeedOutcome::Fatal(e)),
        }
    }
}

/// One driving-loop iteration while running: observe cancellation, then
/// either stall (bounded by the timeout) or consume one input pair, advance
/// the clock, and retune it from the two queue depths.
pub open spec fn spec_step(m: RoundModel, cancelled: bool) -> (RoundModel, StepResult) {
    if !(m.phase is Running) {
        (m, StepResult::Idle)
    } else if cancelled {
        (spec_released(m, RoundOutcome::Cancelled), StepResult::Ended(RoundOutcome::Cancelled))
    } else if m.local_queue.entries.len() == 0 || m.remote_queue.entries.len() == 0 {
        if m.stall_ticks >= m.stall_timeout {
            (spec_released(m, RoundOutcome::Desynced), StepResult::Ended(RoundOutcome::Desynced))
        } else {
            (RoundModel { stall_ticks: (m.stall_ticks + 1) as u32, ..m }, StepResult::Stalled)
        }
    } else if m.tick + m.local_delay > u64::MAX || m.tick + m.remote_delay > u64::MAX {
        (spec_released(m, RoundOutcome::Desynced), StepResult::Ended(RoundOutcome::Desynced))
    } else {
        let (lq, lr) = spec_pop(m.local_queue, (m.tick + m.local_delay) as u64, m.local_delay);
        let (rq, rr) = spec_pop(m.remote_queue, (m.tick + m.remote_delay) as u64, m.remote_delay);
        let pair = InputPair { tick: m.tick, local: lr->Ok_0, remote: rr->Ok_0 };
        (
            RoundModel {
                local_queue: lq,
                remote_queue: rq,
                tick: (m.tick + 1) as u64,
                adjustment: balance_adjustment(
                    rq.entries.len() - lq.entries.len(),
                ) as i32,
                stall_ticks: 0,
                consumed: m.consumed.push(pair),
                ..m
            },
            StepResult::Stepped(pair),
        )
    }
}

/// Comparing the periodic rolling checksums: a mismatch is a detected
/// divergence and ends the round as desynchronized.
pub open spec fn spec_check(m: RoundModel, local_checksum: u32, remote_checksum: u32) -> (
    RoundModel,
    bool,
) {
    if m.phase is Running && local_checksum != remote_checksum {
        (spec_released(m, RoundOutcome::Desynced), false)
    } else {
        (m, local_checksum == remote_checksum)
    }
}

/// A round: owns the two input queues, the tick clock and the recorder for
/// its lifetime.
pub struct Round {
    pub phase: RoundPhase,
    pub local_queue: InputQueue,
    pub remote_queue: InputQueue,
    pub clock: TickClock,
    pub local_delay: u32,
    pub remote_delay: u32,
    pub stall_ticks: u32,
    pub stall_timeout: u32,
    pub local_player_index: u8,
    pub detached: bool,
    pub recorder: Recorder,
}

impl View for Round {
    type V = RoundModel;

    open spec fn view(&self) -> RoundModel {
        RoundModel {
            phase: self.phase,
            local_queue: self.local_queue@,
            remote_queue: self.remote_queue@,
            tick: self.clock.current_tick,
            adjustment: self.clock.adjustment,
            nominal_tps: self.clock.nominal_tps,
            local_delay: self.local_delay,
            remote_delay: self.remote_delay,
            stall_ticks: self.stall_ticks,
            stall_timeout: self.stall_timeout,
            detached: self.detached,
            consumed: self.recorder.pairs@,
        }
    }
}

impl Round {
    pub open spec fn wf(self) -> bool {
        &&& self.local_queue.wf()
        &&& self.remote_queue.wf()
        &&& self.clock.wf()
        &&& self.recorder.wf()
        &&& self.recorder.pairs@.len() == self.clock.current_tick
        &&& self.recorder.pairs@.len() > 0 ==> self.recorder.pairs@[0].tick == 0
        &&& self.phase is Running ==> {
            &&& self.local_queue.front_tick == self.clock.current_tick
            &&& self.remote_queue.front_tick == self.clock.current_tick
        }
        &&& self.phase is AwaitingInitialBuffer ==> {
            &&& self.clock.current_tick == 0
            &&& self.local_queue.front_tick == 0
            &&& self.remote_queue.front_tick == 0
        }
    }

    /// A fresh round awaiting its initial buffer. `max_queue_depth` is the
    /// backpressure ceiling of each queue; `initial_state` is the core-state
    /// snapshot captured before the first tick, kept for the recording.
    pub fn new(
        max_queue_depth: usize,
        local_delay: u32,
        remote_delay: u32,
        stall_timeout: u32,
        nominal_tps: u32,
        local_player_index: u8,
        initial_state: Vec<u8>,
    ) -> (r: Round)
        requires
            crate::clock::MAX_ADJ <= nominal_tps <= u32::MAX - crate::clock::MAX_ADJ,
        ensures
            r.wf(),
            r@.phase == RoundPhase::AwaitingInitialBuffer,
            r@.tick == 0,
            r@.adjustment == 0,
            r@.nominal_tps == nominal_tps,
            r@.local_queue.entries.len() == 0,
            r@.remote_queue.entries.len() == 0,
            r@.local_queue.max_depth == max_queue_depth,
            r@.remote_queue.max_depth == max_queue_depth,
            r@.local_delay == local_delay,
            r@.remote_delay == remote_delay,
            r@.stall_ticks == 0,
            r@.stall_timeout == stall_timeout,
            !r@.detached,
            r@.consumed == Seq::<InputPair>::empty(),
            r.local_player_index == local_player_index,
            r.recorder.initial_state@ == initial_state@,
    {
        Round {
            phase: RoundPhase::AwaitingInitialBuffer,
            local_queue: InputQueue::new(max_queue_depth),
            remote_queue: InputQueue::new(max_queue_depth),
            clock: TickClock::new(nominal_tps),
            local_delay,
            remote_delay,
            stall_ticks: 0,
            stall_timeout,
            local_player_index,
            detached: false,
            recorder: Recorder::new(initial_state, local_player_index),
        }
    }

    /// Ends the round: records the outcome, releases both queues and
    /// detaches from the transport.
    fn end(&mut self, outcome: RoundOutcome)
        requires
            old(self).wf(),
        ensures
            final(self).wf(),
            final(self)@ == spec_released(old(self)@, outcome),
            final(self).recorder.initial_state@ == old(self).recorder.initial_state@,
            final(self).local_player_index == old(self).local_player_index,
    {
        self.local_queue.release();
        self.remote_queue.release();
        self.detached = true;
        self.phase = RoundPhase::Ended(outcome);
    }

    /// Buffers one tick of local input.
    pub fn feed_local(&mut self, tick: u64, input: Input) -> (r: FeedOutcome)
        requires
            old(self).wf(),
        ensures
            final(self).wf(),
            final(self).recorder.initial_state@ == old(self).recorder.initial_state@,
            final(self).local_player_index == old(self).local_player_index,
            ({
                let (q2, m2, fr) = spec_feed(
                    old(self)@.local_queue,
                    old(self)@,
                    tick,
                    input,
                );
                &&& r == fr
                &&& final(self)@ == (if fr is Fatal {
                    m2
                } else {
                    RoundModel { local_queue: q2, ..m2 }
                })
            }),
    {
        match self.phase {
            RoundPhase::Ended(_) => FeedOutcome::Closed,
            _ => {
                match self.local_queue.push(tick, input) {
                    Ok(_) => FeedOutcome::Accepted,
                    Err(e) => {
                        self.end(RoundOutcome::Desynced);
                        FeedOutcome::Fatal(e)
                    },
                }
            },
        }
    }

    /// Buffers one tick of remote input, handed over by the transport
    /// receiver.
    pub fn feed_remote(&mut self, tick: u64, input: Input) -> (r: FeedOutcome)
        requires
            old(self).wf(),
        ensures
            final(self).wf(),
            final(self).recorder.initial_state@ == old(self).recorder.initial_state@,
            final(self).local_player_index == old(self).local_player_index,
            ({
                let (q2, m2, fr) = spec_feed(
                    old(self)@.remote_queue,
                    old(self)@,
                    tick,
                    input,
                );
                &&& r == fr
                &&& final(self)@ == (if fr is Fatal {
                    m2
                } else {
                    RoundModel { remote_queue: q2, ..m2 }
                })
            }),
    {
        match self.phase {
            RoundPhase::Ended(_) => FeedOutcome::Closed,
            _ => {
                match self.remote_queue.push(tick, input) {
                    Ok(_) => FeedOutcome::Accepted,
                    Err(e) => {
                        self.end(RoundOutcome::Desynced);
                        FeedOutcome::Fatal(e)
                    },
                }
            },
        }
    }

    /// Moves from buffering to running once — and only once — both queues
    /// hold at least their side's configured delay in entries, so ticking
    /// can never start into immediate starvation.
    pub fn try_start(&mut self) -> (started: bool)
        requires
            old(self).wf(),
        ensures
            final(self).wf(),
            final(self)@ == spec_try_start(old(self)@),
            started <==> (old(self)@.phase == RoundPhase::AwaitingInitialBuffer && old(
                self,
            )@.local_queue.entries.len() >= old(self)@.local_delay && old(
                self,
            )@.remote_queue.entries.len() >= old(self)@.remote_delay),
            final(self).recorder.initial_state@ == old(self).recorder.initial_state@,
            final(self).local_player_index == old(self).local_player_index,
    {
        match self.phase {
            RoundPhase::AwaitingInitialBuffer => {
                if self.local_queue.depth() >= self.local_delay as usize
                    && self.remote_queue.depth() >= self.remote_delay as usize {
                    self.phase = RoundPhase::Running;
                    true
                } else {
                    false
                }
            },
            _ => false,
        }
    }

    /// One driving-loop iteration. Observes the cooperative cancellation
    /// signal first — a cancelled round ends within this very tick — then
    /// either stalls (fatal past the stall timeout) or consumes one input
    /// pair from each queue, records it, advances the clock and retunes it
    /// from the two queue depths.
    pub fn step(&mut self, cancelled: bool) -> (r: StepResult)
        requires
            old(self).wf(),
        ensures
            final(self).wf(),
            (final(self)@, r) == spec_step(old(self)@, cancelled),
            final(self).recorder.initial_state@ == old(self).recorder.initial_state@,
            final(self).local_player_index == old(self).local_player_index,
    {
        match self.phase {
            RoundPhase::Running => {},
            _ => {
                return StepResult::Idle;
            },
        }
        if cancelled {
            self.end(RoundOutcome::Cancelled);
            return StepResult::Ended(RoundOutcome::Cancelled);
        }
        if self.local_queue.depth() == 0 || self.remote_queue.depth() == 0 {
            if self.stall_ticks >= self.stall_timeout {
                self.end(RoundOutcome::Desynced);
                return StepResult::Ended(RoundOutcome::Desynced);
            }
            self.stall_ticks = self.stall_ticks + 1;
            return StepResult::Stalled;
        }
        let s = self.clock.current_tick();
        if s > u64::MAX - self.local_delay as u64 || s > u64::MAX - self.remote_delay as u64 {
            self.end(RoundOutcome::Desynced);
            return StepResult::Ended(RoundOutcome::Desynced);
        }
        let local = match self.local_queue.pop_ready(s + self.local_delay as u64, self.local_delay)
            {
            Ok(v) => v,
            Err(_) => unreached(),
        };
        let remote = match self.remote_queue.pop_ready(
            s + self.remote_delay as u64,
            self.remote_delay,
        ) {
            Ok(v) => v,
            Err(_) => unreached(),
        };
        let pair = InputPair { tick: s, local, remote };
        proof {
            assert(self.recorder.pairs@.len() > 0 ==> pair.tick == self.recorder.pairs@.last().tick
                + 1);
        }
        self.recorder.record(pair);
        let tick = self.clock.advance();
        self.stall_ticks = 0;
        balance_clock(&mut self.clock, self.local_queue.depth(), self.remote_queue.depth());
        StepResult::Stepped(pair)
    }

    /// Compares this side's rolling state checksum with the remote's
    /// piggybacked one; a mismatch is a detected divergence and ends the
    /// round as desynchronized. Returns whether the checksums agreed.
    pub fn check_state(&mut self, local_checksum: u32, remote_checksum: u32) -> (r: bool)
        requires
            old(self).wf(),
        ensures
            final(self).wf(),
            (final(self)@, r) == spec_check(old(self)@, local_checksum, remote_checksum),
            final(self).recorder.initial_state@ == old(self).recorder.initial_state@,
            final(self).local_player_index == old(self).local_player_index,
    {
        let running = match self.phase {
            RoundPhase::Running => true,
            _ => false,
        };
        if running && local_checksum != remote_checksum {
            self.end(RoundOutcome::Desynced);
            false
        } else {
            local_checksum == remote_checksum
        }
    }

    /// The emulation core signalled normal game-logic completion.
    pub fn on_completed(&mut self)
        requires
            old(self).wf(),
        ensures
            final(self).wf(),
            final(self)@ == (if old(self)@.phase is Running {
                spec_released(old(self)@, RoundOutcome::Completed)
            } else {
                old(self)@
            }),
            final(self).recorder.initial_state@ == old(self).recorder.initial_state@,
            final(self).local_player_index == old(self).local_player_index,
    {
        match self.phase {
            RoundPhase::Running => {
                self.end(RoundOutcome::Completed);
            },
            _ => {},
        }
    }

    /// The emulation core reported a crash.
    pub fn on_fault(&mut self)
        requires
            old(self).wf(),
        ensures
            final(self).wf(),
            final(self)@ == (if old(self)@.phase is Running {
                spec_released(old(self)@, RoundOutcome::Faulted)
            } else {
                old(self)@
            }),
            final(self).recorder.initial_state@ == old(self).recorder.initial_state@,
            final(self).local_player_index == old(self).local_player_index,
    {
        match self.phase {
            RoundPhase::Running => {
                self.end(RoundOutcome::Faulted);
            },
            _ => {},
        }
    }

    /// Closes the recording once the round has ended: the log holds exactly
    /// the consumed pairs, marked complete only on normal completion.
    pub fn into_replay(self) -> (r: Replay)
        requires
            self.wf(),
            self@.phase is Ended,
        ensures
            r@.pairs == self@.consumed,
            r@.is_complete == (self@.phase == RoundPhase::Ended(RoundOutcome::Completed)),
            r@.initial_state == self.recorder.initial_state@,
            r@.local_player_index == self.recorder.local_player_index,
    {
        let is_complete = match self.phase {
            RoundPhase::Ended(RoundOutcome::Completed) => true,
            _ => false,
        };
        self.recorder.finalize(is_complete)
    }
}

/// The round after `n` driving-loop iterations with no cancellation.
pub open spec fn step_n(m: RoundModel, n: nat) -> RoundModel
    decreases n,
{
    if n == 0 {
        m
    } else {
        step_n(spec_step(m, false).0, (n - 1) as nat)
    }
}

/// The pair sequence a lockstep round feeds to the emulation core when both
/// sides' inputs are `locals` and `remotes`: at tick `i`, exactly
/// `(locals[i], remotes[i])`.
pub open spec fn expected_pairs(locals: Seq<Input>, remotes: Seq<Input>, n: nat) -> Seq<InputPair> {
    Seq::new(n, |i: int| InputPair { tick: i as u64, local: locals[i], remote: remotes[i] })
}

/// A running round part-way through consuming `locals` and `remotes`.
pub open spec fn mid_run(m: RoundModel, locals: Seq<Input>, remotes: Seq<Input>, i: nat) -> bool {
    &&& m.phase is Running
    &&& locals.len() == remotes.len()
    &&& i <= locals.len()
    &&& locals.len() + m.local_delay <= u64::MAX
    &&& locals.len() + m.remote_delay <= u64::MAX
    &&& m.tick == i
    &&& m.local_queue.front_tick == i
    &&& m.local_queue.entries == locals.skip(i as int)
    &&& m.remote_queue.front_tick == i
    &&& m.remote_queue.entries == remotes.skip(i as int)
    &&& m.consumed == expected_pairs(locals, remotes, i)
}

proof fn lemma_one_step(m: RoundModel, locals: Seq<Input>, remotes: Seq<Input>, i: nat)
    requires
        mid_run(m, locals, remotes, i),
        i < locals.len(),
    ensures
        spec_step(m, false).1 == StepResult::Stepped(
            InputPair { tick: i as u64, local: locals[i as int], remote: remotes[i as int] },
        ),
        mid_run(spec_step(m, false).0, locals, remotes, i + 1),
    decreases locals.len() - i,
{
    let m2 = spec_step(m, false).0;
    assert(m.local_queue.entries[0] == locals[i as int]);
    assert(m2.local_queue.entries =~= locals.skip(i as int + 1));
    assert(m2.remote_queue.entries =~= remotes.skip(i as int + 1));
    assert(m2.consumed =~= expected_pairs(locals, remotes, i + 1));
}

proof fn lemma_run_from(m: RoundModel, locals: Seq<Input>, remotes: Seq<Input>, i: nat)
    requires
        mid_run(m, locals, remotes, i),
    ensures
        step_n(m, (locals.len() - i) as nat).consumed == expected_pairs(
            locals,
            remotes,
            locals.len(),
        ),
    decreases locals.len() - i,
{
    if i == locals.len() {
        assert(step_n(m, 0) == m);
    } else {
        lemma_one_step(m, locals, remotes, i);
        lemma_run_from(spec_step(m, false).0, locals, remotes, i + 1);
        assert(step_n(m, (locals.len() - i) as nat) == step_n(
            spec_step(m, false).0,
            (locals.len() - i - 1) as nat,
        ));
    }
}

/// A fresh round still awaiting its initial buffer.
pub open spec fn fresh_round(m: RoundModel) -> bool {
    &&& m.phase == RoundPhase::AwaitingInitialBuffer
    &&& m.tick == 0
    &&& m.local_queue.entries.len() == 0
    &&& m.local_queue.front_tick == 0
    &&& m.remote_queue.entries.len() == 0
    &&& m.remote_queue.front_tick == 0
    &&& m.consumed == Seq::<InputPair>::empty()
}

/// The round a fresh one becomes after both input sequences are pushed and
/// ticking starts.
pub open spec fn started_round(m: RoundModel, locals: Seq<Input>, remotes: Seq<Input>)
    -> RoundModel {
    spec_try_start(
        RoundModel {
            local_queue: crate::queue::push_all(m.local_queue, locals),
            remote_queue: crate::queue::push_all(m.remote_queue, remotes),
            ..m
        },
    )
}

/// Lockstep determinism: the pair sequence a round feeds to the emulation
/// core is a function of the two pushed input sequences alone — for a fresh
/// round fed `locals` and `remotes` and stepped to the end, the consumed log
/// is exactly `(locals[i], remotes[i])` at tick `i`. Two rounds given
/// identical input sequences therefore consume identical pair sequences, so
/// a deterministic core reaches identical state at every tick.
pub proof fn lemma_round_deterministic(m: RoundModel, locals: Seq<Input>, remotes: Seq<Input>)
    requires
        fresh_round(m),
        locals.len() == remotes.len(),
        m.local_delay <= locals.len() <= m.local_queue.max_depth,
        m.remote_delay <= remotes.len() <= m.remote_queue.max_depth,
        locals.len() + m.local_delay <= u64::MAX,
        locals.len() + m.remote_delay <= u64::MAX,
    ensures
        step_n(started_round(m, locals, remotes), locals.len()).consumed == expected_pairs(
            locals,
            remotes,
            locals.len(),
        ),
{
    crate::queue::lemma_push_all_entries(m.local_queue, locals);
    crate::queue::lemma_push_all_entries(m.remote_queue, remotes);
    let started = started_round(m, locals, remotes);
    assert(started.phase is Running);
    assert(started.local_queue.entries =~= locals.skip(0));
    assert(started.remote_queue.entries =~= remotes.skip(0));
    assert(started.consumed =~= expected_pairs(locals, remotes, 0));
    lemma_run_from(started, locals, remotes, 0);
}

/// A round never reaches `Running` before both queues hold at least their
/// side's delay in entries: `try_start` is the only transition into
/// `Running`, and it fires only with both buffers filled; feeding, stepping
/// and checksum comparison never move a round into `Running`.
pub proof fn lemma_no_early_running(
    m: RoundModel,
    q: QueueModel,
    cancelled: bool,
    tick: u64,
    input: Input,
    a: u32,
    b: u32,
)
    ensures
        spec_try_start(m).phase is Running && !(m.phase is Running) ==> {
            &&& m.local_queue.entries.len() >= m.local_delay
            &&& m.remote_queue.entries.len() >= m.remote_delay
        },
        !(m.phase is Running) ==> !(spec_step(m, cancelled).0.phase is Running),
        !(m.phase is Running) ==> !(spec_feed(q, m, tick, input).1.phase is Running),
        !(m.phase is Running) ==> !(spec_check(m, a, b).0.phase is Running),
{
}

/// Exceeding the configured maximum queue depth deterministically ends the
/// round as desynchronized within that very push: the phase becomes
/// `Ended(Desynced)`, both queues are emptied and the transport is detached.
pub proof fn lemma_overflow_desyncs(q: QueueModel, m: RoundModel, tick: u64, input: Input)
    requires
        !(m.phase is Ended),
        tick == q.next_tick(),
        q.entries.len() >= q.max_depth || tick == u64::MAX,
    ensures
        spec_feed(q, m, tick, input).2 == FeedOutcome::Fatal(QueueError::QueueOverflow),
        spec_feed(q, m, tick, input).1 == spec_released(m, RoundOutcome::Desynced),
        spec_feed(q, m, tick, input).1.phase == RoundPhase::Ended(RoundOutcome::Desynced),
        spec_feed(q, m, tick, input).1.local_queue.entries.len() == 0,
        spec_feed(q, m, tick, input).1.remote_queue.entries.len() == 0,
        spec_feed(q, m, tick, input).1.detached,
{
}

/// Cancellation observed at the tick boundary ends the round within that
/// very tick: no further ticking occurs, both queues are released and the
/// transport is detached — no suspended flow lingers.
pub proof fn lemma_cancel_immediate(m: RoundModel)
    requires
        m.phase is Running,
    ensures
        spec_step(m, true).0 == spec_released(m, RoundOutcome::Cancelled),
        spec_step(m, true).1 == StepResult::Ended(RoundOutcome::Cancelled),
        spec_step(m, true).0.local_queue.entries.len() == 0,
        spec_step(m, true).0.remote_queue.entries.len() == 0,
        spec_step(m, true).0.detached,
        spec_step(spec_step(m, true).0, false).0 == spec_step(m, true).0,
{
}

} // verus!
