//! The input queue: an ordered, tick-indexed buffer of one side's controller
//! state. Ticks are contiguous and strictly increasing — no gaps, no
//! duplicates — and consumption is first-in, first-out and exactly-once.

use vstd::prelude::*;

verus! {

/// A single side's controller state for one tick: a fixed-width bitfield of
/// button and direction state, immutable once recorded.
pub type Input = u32;

/// Why a queue operation could not be completed.
#[derive(Clone, Copy, Debug, PartialEq, Eq, Structural)]
pub enum QueueError {
    /// The pushed tick is not exactly one greater than the last pushed tick.
    OutOfOrder,
    /// The input for the requested tick is not buffered; normal during
    /// startup or while the remote side stalls.
    NotYetAvailable,
    /// The queue has hit its backpressure ceiling; the round treats this as a
    /// fatal desynchronization.
    QueueOverflow,
}

/// The mathematical state of an input queue: `entries[i]` is the input for
/// tick `front_tick + i`, and the next push must carry tick
/// `front_tick + entries.len()`.
pub struct QueueModel {
    pub entries: Seq<Input>,
    pub front_tick: u64,
    pub max_depth: nat,
}

impl QueueModel {
    pub open spec fn wf(self) -> bool {
        &&& self.entries.len() <= self.max_depth
        &&& self.front_tick + self.entries.len() <= u64::MAX
    }

    /// The tick the next successful push must carry.
    pub open spec fn next_tick(self) -> int {
        self.front_tick + self.entries.len()
    }

    /// The input buffered for tick `t`, if it has been pushed and not yet
    /// consumed.
    pub open spec fn input_at(self, t: u64) -> Option<Input> {
        if self.front_tick <= t < self.next_tick() {
            Some(self.entries[t - self.front_tick])
        } else {
            None
        }
    }
}

/// What a push does: the tick must be exactly the next expected one and the
/// queue must be below its ceiling, else the queue is left unchanged. The
/// last representable tick counts as the ceiling, so the tick counter itself
/// can never overflow.
pub open spec fn spec_push(q: QueueModel, tick: u64, input: Input) -> (QueueModel, Result<
    (),
    QueueError,
>) {
    if tick != q.next_tick() {
        (q, Err(QueueError::OutOfOrder))
    } else if q.entries.len() >= q.max_depth || tick == u64::MAX {
        (q, Err(QueueError::QueueOverflow))
    } else {
        (QueueModel { entries: q.entries.push(input), ..q }, Ok(()))
    }
}

/// What a pop does: the entry for `current_tick - delay` is returned and
/// removed exactly when that tick has reached the front of the queue.
pub open spec fn spec_pop(q: QueueModel, current_tick: u64, delay: u32) -> (QueueModel, Result<
    Input,
    QueueError,
>) {
    if current_tick >= delay && q.entries.len() > 0 && current_tick - delay == q.front_tick {
        (
            QueueModel {
                entries: q.entries.drop_first(),
                front_tick: (q.front_tick + 1) as u64,
                ..q
            },
            Ok(q.entries[0]),
        )
    } else {
        (q, Err(QueueError::NotYetAvailable))
    }
}

/// An ordered sequence of inputs keyed by tick, owned exclusively by one
/// side; the local queue is written by local input sampling, the remote one
/// by the transport receiver.
pub struct InputQueue {
    pub entries: Vec<Input>,
    pub front_tick: u64,
    pub max_depth: usize,
}

impl View for InputQueue {
    type V = QueueModel;

    open spec fn view(&self) -> QueueModel {
        QueueModel {
            entries: self.entries@,
            front_tick: self.front_tick,
            max_depth: self.max_depth as nat,
        }
    }
}

impl InputQueue {
    pub open spec fn wf(self) -> bool {
        self@.wf()
    }

    /// Number of buffered-but-unconsumed entries.
    pub open spec fn spec_depth(&self) -> nat {
        self@.entries.len()
    }

    pub fn new(max_depth: usize) -> (r: Self)
        ensures
            r.wf(),
            r@.entries == Seq::<Input>::empty(),
            r@.front_tick == 0,
            r@.max_depth == max_depth,
    {
        InputQueue { entries: Vec::new(), front_tick: 0, max_depth }
    }

    pub fn depth(&self) -> (r: usize)
        ensures
            r == self.spec_depth(),
    {
        self.entries.len()
    }

    /// Appends the input for `tick` to the tail. Fails with `OutOfOrder` if
    /// `tick` is not exactly one greater than the last pushed tick, whatever
    /// the rest of the queue state; fails with `QueueOverflow` at the
    /// backpressure ceiling. On failure the queue is unchanged.
    pub fn push(&mut self, tick: u64, input: Input) -> (r: Result<(), QueueError>)
        requires
            old(self).wf(),
        ensures
            final(self).wf(),
            (final(self)@, r) == spec_push(old(self)@, tick, input),
    {
        proof {
            assert(self.front_tick + self.entries@.len() <= u64::MAX);
        }
        if tick != self.front_tick + self.entries.len() as u64 {
            return Err(QueueError::OutOfOrder);
        }
        if self.entries.len() >= self.max_depth || tick == u64::MAX {
            return Err(QueueError::QueueOverflow);
        }
        self.entries.push(input);
        Ok(())
    }

    /// Returns the input at `current_tick - delay` when that tick has reached
    /// the front of the queue, removing it: consumption is FIFO and
    /// exactly-once. Otherwise signals `NotYetAvailable` and leaves the queue
    /// unchanged.
    pub fn pop_ready(&mut self, current_tick: u64, delay: u32) -> (r: Result<Input, QueueError>)
        requires
            old(self).wf(),
        ensures
            final(self).wf(),
            (final(self)@, r) == spec_pop(old(self)@, current_tick, delay),
    {
        if current_tick < delay as u64 {
            return Err(QueueError::NotYetAvailable);
        }
        let target = current_tick - delay as u64;
        if self.entries.len() == 0 || target != self.front_tick {
            return Err(QueueError::NotYetAvailable);
        }
        let input = self.entries.remove(0);
        self.front_tick = self.front_tick + 1;
        proof {
            assert(final(self)@.entries =~= spec_pop(old(self)@, current_tick, delay).0.entries);
        }
        Ok(input)
    }

    /// Releases every buffered entry; used when a round ends.
    pub fn release(&mut self)
        requires
            old(self).wf(),
        ensures
            final(self).wf(),
            final(self)@ == (QueueModel { entries: Seq::<Input>::empty(), ..old(self)@ }),
    {
        self.entries.clear();
    }
}

/// The queue that results from pushing `inputs` one after the other, each at
/// exactly the next expected tick.
pub open spec fn push_all(q: QueueModel, inputs: Seq<Input>) -> QueueModel
    decreases inputs.len(),
{
    if inputs.len() == 0 {
        q
    } else {
        push_all(spec_push(q, q.next_tick() as u64, inputs[0]).0, inputs.drop_first())
    }
}

/// The inputs handed out by `n` successive pops, each made at the first tick
/// at which its entry becomes eligible (`current_tick == front_tick + delay`).
pub open spec fn pop_n(q: QueueModel, delay: u32, n: nat) -> (QueueModel, Seq<Input>)
    decreases n,
{
    if n == 0 {
        (q, Seq::empty())
    } else {
        let (q1, r) = spec_pop(q, (q.front_tick + delay) as u64, delay);
        let (q2, rest) = pop_n(q1, delay, (n - 1) as nat);
        (q2, seq![r->Ok_0] + rest)
    }
}

pub proof fn lemma_push_all_entries(q: QueueModel, inputs: Seq<Input>)
    requires
        q.wf(),
        q.entries.len() + inputs.len() <= q.max_depth,
        q.front_tick + q.entries.len() + inputs.len() <= u64::MAX,
    ensures
        push_all(q, inputs).entries == q.entries + inputs,
        push_all(q, inputs).front_tick == q.front_tick,
        push_all(q, inputs).max_depth == q.max_depth,
        push_all(q, inputs).wf(),
    decreases inputs.len(),
{
    if inputs.len() == 0 {
        assert(push_all(q, inputs).entries =~= q.entries + inputs);
    } else {
        let q1 = spec_push(q, q.next_tick() as u64, inputs[0]).0;
        assert(q1.entries =~= q.entries.push(inputs[0]));
        lemma_push_all_entries(q1, inputs.drop_first());
        assert(q1.entries + inputs.drop_first() =~= q.entries + inputs);
    }
}

pub proof fn lemma_pop_n_yields(q: QueueModel, delay: u32, n: nat)
    requires
        q.wf(),
        n <= q.entries.len(),
        q.front_tick + delay + q.entries.len() <= u64::MAX,
    ensures
        pop_n(q, delay, n).1 == q.entries.take(n as int),
        pop_n(q, delay, n).0.entries == q.entries.skip(n as int),
        pop_n(q, delay, n).0.front_tick == q.front_tick + n,
        pop_n(q, delay, n).0.max_depth == q.max_depth,
        pop_n(q, delay, n).0.wf(),
    decreases n,
{
    if n == 0 {
        assert(pop_n(q, delay, n).1 =~= q.entries.take(0));
        assert(pop_n(q, delay, n).0.entries =~= q.entries.skip(0));
    } else {
        let current = (q.front_tick + delay) as u64;
        let (q1, r) = spec_pop(q, current, delay);
        assert(r == Ok::<Input, QueueError>(q.entries[0]));
        lemma_pop_n_yields(q1, delay, (n - 1) as nat);
        assert(q1.entries.take(n - 1) =~= q.entries.take(n as int).drop_first());
        assert(seq![q.entries[0]] + q.entries.take(n as int).drop_first() =~= q.entries.take(
            n as int,
        ));
        assert(q1.entries.skip(n - 1) =~= q.entries.skip(n as int));
    }
}

/// For any sequence of pushes to an empty queue with strictly increasing
/// contiguous ticks, popping each tick at `tick + delay` — the first moment
/// `pop_ready(current_tick, delay)` can reach it — returns exactly the input
/// pushed for that tick, exactly once and in order, leaving the queue empty,
/// so no input can ever be handed out a second time.
pub proof fn lemma_queue_exactly_once(q: QueueModel, inputs: Seq<Input>, delay: u32)
    requires
        q.wf(),
        q.entries.len() == 0,
        inputs.len() <= q.max_depth,
        q.front_tick + delay + inputs.len() <= u64::MAX,
    ensures
        pop_n(push_all(q, inputs), delay, inputs.len()).1 == inputs,
        pop_n(push_all(q, inputs), delay, inputs.len()).0.entries.len() == 0,
{
    lemma_push_all_entries(q, inputs);
    let qf = push_all(q, inputs);
    assert(qf.entries =~= inputs);
    lemma_pop_n_yields(qf, delay, inputs.len());
    assert(qf.entries.take(inputs.len() as int) =~= inputs);
}

/// Pushing a tick that is not exactly one greater than the last pushed tick
/// always fails with `OutOfOrder` and leaves the queue unchanged, whatever
/// the rest of the queue state.
pub proof fn lemma_out_of_order_always_fails(q: QueueModel, tick: u64, input: Input)
    requires
        tick != q.next_tick(),
    ensures
        spec_push(q, tick, input) == (q, Err::<(), QueueError>(QueueError::OutOfOrder)),
{
}

/// Once the entry for a tick has been consumed, no later pop can return it:
/// a pop aimed at any tick before the queue front fails with
/// `NotYetAvailable` and leaves the queue unchanged.
pub proof fn lemma_no_second_delivery(q: QueueModel, current_tick: u64, delay: u32)
    requires
        current_tick < delay || current_tick - delay < q.front_tick,
    ensures
        spec_pop(q, current_tick, delay) == (q, Err::<Input, QueueError>(
            QueueError::NotYetAvailable,
        )),
{
}

} // verus!
