//! Recording and playback: a recorder appends every consumed input pair of a
//! live round to an append-only log; a replayer later sources both inputs
//! directly from that log, with no transport and nothing to balance. The
//! persisted format is internal and guarantees round-trip fidelity.

use vstd::prelude::*;

use crate::bytes::{
    le32, le32_bytes, le64, le64_bytes, push_u32_le, push_u64_le, read_u32_le, read_u64_le,
    lemma_le32_round_trip, lemma_le64_round_trip,
};

verus! {

/// The two sides' inputs consumed by the emulation core for one tick.
#[derive(Clone, Copy, Debug, PartialEq, Eq, Structural)]
pub struct InputPair {
    pub tick: u64,
    pub local: u32,
    pub remote: u32,
}

/// The mathematical content of a replay: an initial core-state snapshot, the
/// ordered tick-indexed input pairs, a completion flag and which player the
/// recording side was.
pub struct ReplayModel {
    pub initial_state: Seq<u8>,
    pub pairs: Seq<InputPair>,
    pub is_complete: bool,
    pub local_player_index: u8,
}

/// A recorded round: append-only while live, read-only during playback.
pub struct Replay {
    pub initial_state: Vec<u8>,
    pub pairs: Vec<InputPair>,
    pub is_complete: bool,
    pub local_player_index: u8,
}

impl View for Replay {
    type V = ReplayModel;

    open spec fn view(&self) -> ReplayModel {
        ReplayModel {
            initial_state: self.initial_state@,
            pairs: self.pairs@,
            is_complete: self.is_complete,
            local_player_index: self.local_player_index,
        }
    }
}

/// Appends every consumed input pair of a live round, in tick order, to an
/// in-memory log; finalized with the completion flag when the round ends.
pub struct Recorder {
    pub initial_state: Vec<u8>,
    pub pairs: Vec<InputPair>,
    pub local_player_index: u8,
}

impl Recorder {
    /// Ticks in the log are contiguous and strictly increasing.
    pub open spec fn wf(self) -> bool {
        forall|i: int|
            0 <= i < self.pairs@.len() ==> #[trigger] self.pairs@[i].tick == self.pairs@[0].tick
                + i
    }

    /// Starts a log from the core-state snapshot captured before the first
    /// tick.
    pub fn new(initial_state: Vec<u8>, local_player_index: u8) -> (r: Self)
        ensures
            r.wf(),
            r.pairs@ == Seq::<InputPair>::empty(),
            r.initial_state@ == initial_state@,
            r.local_player_index == local_player_index,
    {
        Recorder { initial_state, pairs: Vec::new(), local_player_index }
    }

    /// Appends one consumed pair. The log stays tick-contiguous.
    pub fn record(&mut self, pair: InputPair)
        requires
            old(self).wf(),
            old(self).pairs@.len() > 0 ==> pair.tick == old(self).pairs@.last().tick + 1,
        ensures
            final(self).wf(),
            final(self).pairs@ == old(self).pairs@.push(pair),
            final(self).initial_state@ == old(self).initial_state@,
            final(self).local_player_index == old(self).local_player_index,
    {
        self.pairs.push(pair);
    }

    /// Closes the log with the round's completion flag.
    pub fn finalize(self, is_complete: bool) -> (r: Replay)
        ensures
            r@.pairs == self.pairs@,
            r@.initial_state == self.initial_state@,
            r@.is_complete == is_complete,
            r@.local_player_index == self.local_player_index,
    {
        Replay {
            initial_state: self.initial_state,
            pairs: self.pairs,
            is_complete,
            local_player_index: self.local_player_index,
        }
    }
}

/// What one playback poll yields.
#[derive(Clone, Copy, Debug, PartialEq, Eq, Structural)]
pub enum ReplayPoll {
    /// The next recorded pair, to be fed to the core exactly as a live round
    /// would.
    Pair(InputPair),
    /// Nothing to do this tick: paused, or idling at the last available tick
    /// of a mid-capture log.
    Idle,
    /// The log's final tick was consumed and the original session was marked
    /// complete.
    Done,
}

/// What a poll does to a replayer: deliver the next pair, idle, or report
/// completion.
pub open spec fn spec_poll(pairs: Seq<InputPair>, pos: nat, paused: bool, is_complete: bool) -> (
    nat,
    ReplayPoll,
) {
    if paused {
        (pos, ReplayPoll::Idle)
    } else if pos < pairs.len() {
        (pos + 1, ReplayPoll::Pair(pairs[pos as int]))
    } else if is_complete {
        (pos, ReplayPoll::Done)
    } else {
        (pos, ReplayPoll::Idle)
    }
}

/// Drives the tick clock and emulation core exactly as a live round does,
/// but sources both inputs from the log. Supports pause and single-tick
/// stepping between ticks.
pub struct Replayer {
    pub replay: Replay,
    pub pos: usize,
    pub paused: bool,
}

impl Replayer {
    pub open spec fn wf(self) -> bool {
        self.pos <= self.replay@.pairs.len()
    }

    pub fn new(replay: Replay) -> (r: Self)
        ensures
            r.wf(),
            r.replay@ == replay@,
            r.pos == 0,
            !r.paused,
    {
        Replayer { replay, pos: 0, paused: false }
    }

    /// One tick of playback.
    pub fn poll(&mut self) -> (r: ReplayPoll)
        requires
            old(self).wf(),
        ensures
            final(self).wf(),
            final(self).replay@ == old(self).replay@,
            final(self).paused == old(self).paused,
            (final(self).pos as nat, r) == spec_poll(
                old(self).replay@.pairs,
                old(self).pos as nat,
                old(self).paused,
                old(self).replay@.is_complete,
            ),
    {
        if self.paused {
            ReplayPoll::Idle
        } else if self.pos < self.replay.pairs.len() {
            let pair = self.replay.pairs[self.pos];
            self.pos = self.pos + 1;
            ReplayPoll::Pair(pair)
        } else if self.replay.is_complete {
            ReplayPoll::Done
        } else {
            ReplayPoll::Idle
        }
    }

    /// Suspends the driving loop between ticks.
    pub fn pause(&mut self)
        requires
            old(self).wf(),
        ensures
            final(self).wf(),
            final(self).paused,
            final(self).pos == old(self).pos,
            final(self).replay@ == old(self).replay@,
    {
        self.paused = true;
    }

    pub fn unpause(&mut self)
        requires
            old(self).wf(),
        ensures
            final(self).wf(),
            !final(self).paused,
            final(self).pos == old(self).pos,
            final(self).replay@ == old(self).replay@,
    {
        self.paused = false;
    }

    /// Delivers exactly one tick while staying paused.
    pub fn single_step(&mut self) -> (r: ReplayPoll)
        requires
            old(self).wf(),
        ensures
            final(self).wf(),
            final(self).replay@ == old(self).replay@,
            final(self).paused == old(self).paused,
            (final(self).pos as nat, r) == spec_poll(
                old(self).replay@.pairs,
                old(self).pos as nat,
                false,
                old(self).replay@.is_complete,
            ),
    {
        if self.pos < self.replay.pairs.len() {
            let pair = self.replay.pairs[self.pos];
            self.pos = self.pos + 1;
            ReplayPoll::Pair(pair)
        } else if self.replay.is_complete {
            ReplayPoll::Done
        } else {
            ReplayPoll::Idle
        }
    }
}

/// The pairs handed out by `n` successive unpaused polls starting at `pos`.
pub open spec fn poll_n(pairs: Seq<InputPair>, pos: nat, is_complete: bool, n: nat) -> Seq<
    ReplayPoll,
>
    decreases n,
{
    if n == 0 {
        Seq::empty()
    } else {
        let (pos1, r) = spec_poll(pairs, pos, false, is_complete);
        seq![r] + poll_n(pairs, pos1, is_complete, (n - 1) as nat)
    }
}

/// Playback reproduces the log: polling a fresh replayer over a recorded log
/// hands out exactly the recorded input pairs, in recording order, so a
/// replayed session feeds the emulation core the same input sequence the
/// live round did.
pub proof fn lemma_playback_reproduces_log(pairs: Seq<InputPair>, is_complete: bool)
    ensures
        poll_n(pairs, 0, is_complete, pairs.len()) == pairs.map_values(
            |p: InputPair| ReplayPoll::Pair(p),
        ),
{
    lemma_poll_n_from(pairs, 0, is_complete);
}

proof fn lemma_poll_n_from(pairs: Seq<InputPair>, pos: nat, is_complete: bool)
    requires
        pos <= pairs.len(),
    ensures
        poll_n(pairs, pos, is_complete, (pairs.len() - pos) as nat) == pairs.skip(
            pos as int,
        ).map_values(|p: InputPair| ReplayPoll::Pair(p)),
    decreases pairs.len() - pos,
{
    let f = |p: InputPair| ReplayPoll::Pair(p);
    if pos == pairs.len() {
        assert(poll_n(pairs, pos, is_complete, 0) =~= pairs.skip(pos as int).map_values(f));
    } else {
        lemma_poll_n_from(pairs, pos + 1, is_complete);
        assert(poll_n(pairs, pos, is_complete, (pairs.len() - pos) as nat) =~= pairs.skip(
            pos as int,
        ).map_values(f));
    }
}

/// The sixteen bytes of one logged pair.
pub open spec fn pair_bytes(p: InputPair) -> Seq<u8> {
    le64_bytes(p.tick) + le32_bytes(p.local) + le32_bytes(p.remote)
}

/// The pair sixteen bytes encode.
pub open spec fn pair_of_bytes(s: Seq<u8>) -> InputPair
    recommends
        s.len() == 16,
{
    InputPair {
        tick: le64(s.subrange(0, 8)),
        local: le32(s.subrange(8, 12)),
        remote: le32(s.subrange(12, 16)),
    }
}

/// The concatenated bytes of a whole log.
pub open spec fn pairs_bytes(ps: Seq<InputPair>) -> Seq<u8>
    decreases ps.len(),
{
    if ps.len() == 0 {
        Seq::empty()
    } else {
        pair_bytes(ps[0]) + pairs_bytes(ps.drop_first())
    }
}

/// Parsing `n` pairs consumes the sequence exactly.
pub open spec fn spec_parse_pairs(s: Seq<u8>, n: nat) -> Option<Seq<InputPair>>
    decreases n,
{
    if n == 0 {
        if s.len() == 0 {
            Some(Seq::empty())
        } else {
            None
        }
    } else if s.len() < 16 {
        None
    } else {
        match spec_parse_pairs(s.skip(16), (n - 1) as nat) {
            Some(rest) => Some(seq![pair_of_bytes(s.subrange(0, 16))] + rest),
            None => None,
        }
    }
}

/// A parse already known for a suffix extends over a prefix of parsed pairs.
pub open spec fn opt_prepend(p: Seq<InputPair>, o: Option<Seq<InputPair>>) -> Option<
    Seq<InputPair>,
> {
    match o {
        Some(t) => Some(p + t),
        None => None,
    }
}

/// The on-disk layout: completion flag, recording side, length-prefixed
/// snapshot, then the length-prefixed pair log.
pub open spec fn spec_encode_replay(r: ReplayModel) -> Seq<u8> {
    seq![if r.is_complete { 1u8 } else { 0u8 }, r.local_player_index] + le32_bytes(
        r.initial_state.len() as u32,
    ) + r.initial_state + le32_bytes(r.pairs.len() as u32) + pairs_bytes(r.pairs)
}

/// The replay a byte sequence encodes, if any.
pub open spec fn spec_parse_replay(s: Seq<u8>) -> Option<ReplayModel> {
    if s.len() < 6 || s[0] > 1 {
        None
    } else {
        let sl = le32(s.subrange(2, 6)) as int;
        if s.len() < 6 + sl + 4 {
            None
        } else {
            let state = s.subrange(6, 6 + sl);
            let n = le32(s.subrange(6 + sl, 6 + sl + 4)) as nat;
            match spec_parse_pairs(s.skip(6 + sl + 4), n) {
                Some(ps) => Some(
                    ReplayModel {
                        initial_state: state,
                        pairs: ps,
                        is_complete: s[0] == 1,
                        local_player_index: s[1],
                    },
                ),
                None => None,
            }
        }
    }
}

/// A replay that fits the on-disk length prefixes.
pub open spec fn replay_fits(r: ReplayModel) -> bool {
    &&& r.initial_state.len() <= u32::MAX
    &&& r.pairs.len() <= u32::MAX
}

proof fn lemma_pairs_bytes_len(ps: Seq<InputPair>)
    ensures
        pairs_bytes(ps).len() == 16 * ps.len(),
    decreases ps.len(),
{
    if ps.len() > 0 {
        lemma_pairs_bytes_len(ps.drop_first());
    }
}

proof fn lemma_pair_round_trip(p: InputPair)
    ensures
        pair_of_bytes(pair_bytes(p)) == p,
{
    let s = pair_bytes(p);
    assert(s.subrange(0, 8) =~= le64_bytes(p.tick));
    assert(s.subrange(8, 12) =~= le32_bytes(p.local));
    assert(s.subrange(12, 16) =~= le32_bytes(p.remote));
    lemma_le64_round_trip(p.tick);
    lemma_le32_round_trip(p.local);
    lemma_le32_round_trip(p.remote);
}

proof fn lemma_parse_pairs_round_trip(ps: Seq<InputPair>)
    ensures
        spec_parse_pairs(pairs_bytes(ps), ps.len()) == Some(ps),
    decreases ps.len(),
{
    lemma_pairs_bytes_len(ps);
    if ps.len() == 0 {
        assert(pairs_bytes(ps).len() == 0);
    } else {
        let s = pairs_bytes(ps);
        lemma_pairs_bytes_len(ps.drop_first());
        assert(s.len() >= 16);
        assert(s.subrange(0, 16) =~= pair_bytes(ps[0]));
        assert(s.skip(16) =~= pairs_bytes(ps.drop_first()));
        lemma_pair_round_trip(ps[0]);
        lemma_parse_pairs_round_trip(ps.drop_first());
        assert(seq![ps[0]] + ps.drop_first() =~= ps);
    }
}

/// Writing a replay to bytes and parsing it back yields the same replay: the
/// persisted format loses nothing.
pub proof fn lemma_replay_round_trip(r: ReplayModel)
    requires
        replay_fits(r),
    ensures
        spec_parse_replay(spec_encode_replay(r)) == Some(r),
{
    let s = spec_encode_replay(r);
    let sl = r.initial_state.len() as int;
    lemma_pairs_bytes_len(r.pairs);
    assert(s.subrange(2, 6) =~= le32_bytes(sl as u32));
    lemma_le32_round_trip(sl as u32);
    assert(s.subrange(6, 6 + sl) =~= r.initial_state);
    assert(s.subrange(6 + sl, 6 + sl + 4) =~= le32_bytes(r.pairs.len() as u32));
    lemma_le32_round_trip(r.pairs.len() as u32);
    assert(s.skip(6 + sl + 4) =~= pairs_bytes(r.pairs));
    lemma_parse_pairs_round_trip(r.pairs);
}

/// Serializes a replay for persistence.
pub fn serialize_replay(r: &Replay) -> (out: Vec<u8>)
    requires
        r@.initial_state.len() <= u32::MAX,
        r@.pairs.len() <= u32::MAX,
    ensures
        out@ == spec_encode_replay(r@),
{
    let mut out: Vec<u8> = Vec::new();
    out.push(if r.is_complete { 1u8 } else { 0u8 });
    out.push(r.local_player_index);
    push_u32_le(&mut out, r.initial_state.len() as u32);
    let ghost header = out@;
    let mut i: usize = 0;
    while i < r.initial_state.len()
        invariant
            i <= r.initial_state@.len(),
            out@ == header + r.initial_state@.take(i as int),
        decreases r.initial_state@.len() - i,
    {
        let byte = r.initial_state[i];
        out.push(byte);
        proof {
            assert(out@ =~= header + r.initial_state@.take(i + 1));
        }
        i = i + 1;
    }
    proof {
        assert(r.initial_state@.take(r.initial_state@.len() as int) =~= r.initial_state@);
    }
    push_u32_le(&mut out, r.pairs.len() as u32);
    let ghost mid = out@;
    let mut j: usize = 0;
    while j < r.pairs.len()
        invariant
            j <= r.pairs@.len(),
            out@ == mid + pairs_bytes(r.pairs@.take(j as int)),
        decreases r.pairs@.len() - j,
    {
        let p = r.pairs[j];
        push_u64_le(&mut out, p.tick);
        push_u32_le(&mut out, p.local);
        push_u32_le(&mut out, p.remote);
        proof {
            lemma_pairs_bytes_snoc(r.pairs@.take(j as int), p);
            assert(r.pairs@.take(j as int).push(p) =~= r.pairs@.take(j + 1));
            assert(out@ =~= mid + pairs_bytes(r.pairs@.take(j + 1)));
        }
        j = j + 1;
    }
    proof {
        assert(r.pairs@.take(r.pairs@.len() as int) =~= r.pairs@);
        assert(out@ =~= spec_encode_replay(r@));
    }
    out
}

proof fn lemma_pairs_bytes_snoc(ps: Seq<InputPair>, p: InputPair)
    ensures
        pairs_bytes(ps.push(p)) == pairs_bytes(ps) + pair_bytes(p),
    decreases ps.len(),
{
    if ps.len() == 0 {
        let s = ps.push(p);
        assert(s[0] == p);
        assert(s.drop_first() =~= Seq::<InputPair>::empty());
        assert(pairs_bytes(s.drop_first()) == Seq::<u8>::empty());
        assert(pairs_bytes(s) == pair_bytes(p) + Seq::<u8>::empty());
        assert(pairs_bytes(ps) == Seq::<u8>::empty());
        assert(pair_bytes(p) + Seq::<u8>::empty() =~= Seq::<u8>::empty() + pair_bytes(p));
    } else {
        assert(ps.push(p).drop_first() =~= ps.drop_first().push(p));
        assert(ps.push(p)[0] == ps[0]);
        lemma_pairs_bytes_snoc(ps.drop_first(), p);
        assert(pairs_bytes(ps.push(p)) == pair_bytes(ps[0]) + pairs_bytes(
            ps.drop_first().push(p),
        ));
        assert(pairs_bytes(ps.push(p)) =~= pairs_bytes(ps) + pair_bytes(p));
    }
}

/// Parses a persisted replay; `None` on any malformed layout.
pub fn parse_replay(b: &[u8]) -> (r: Option<Replay>)
    ensures
        match r {
            Some(rep) => spec_parse_replay(b@) == Some(rep@),
            None => spec_parse_replay(b@) == None::<ReplayModel>,
        },
{
    if b.len() < 6 || b[0] > 1 {
        return None;
    }
    let sl = read_u32_le(b, 2) as usize;
    if b.len() - 6 < sl || b.len() - 6 - sl < 4 {
        return None;
    }
    let mut state: Vec<u8> = Vec::new();
    let mut i: usize = 0;
    while i < sl
        invariant
            i <= sl,
            6 + sl <= b@.len(),
            b@.len() <= usize::MAX,
            state@ == b@.subrange(6, 6 + i),
        decreases sl - i,
    {
        let byte = b[6 + i];
        state.push(byte);
        proof {
            assert(state@ =~= b@.subrange(6, 6 + i + 1));
        }
        i = i + 1;
    }
    let n = read_u32_le(b, 6 + sl) as usize;
    let body_start = 6 + sl + 4;
    let body_len = b.len() - body_start;
    if body_len / 16 != n || body_len % 16 != 0 {
        proof {
            lemma_body_len_mismatch(b@.skip(body_start as int), n as nat);
        }
        return None;
    }
    let mut pairs: Vec<InputPair> = Vec::new();
    let ghost body = b@.skip(body_start as int);
    proof {
        assert(body.skip(0) =~= body);
        match spec_parse_pairs(body, n as nat) {
            Some(t) => {
                assert(Seq::<InputPair>::empty() + t =~= t);
            },
            None => {},
        }
    }
    let mut j: usize = 0;
    while j < n
        invariant
            j <= n,
            body_start == 6 + sl + 4,
            body_start + 16 * n <= b@.len(),
            b@.len() <= usize::MAX,
            body == b@.skip(body_start as int),
            body.len() == 16 * n,
            pairs@.len() == j,
            spec_parse_pairs(body, n as nat) == opt_prepend(
                pairs@,
                spec_parse_pairs(body.skip(16 * j), (n - j) as nat),
            ),
        decreases n - j,
    {
        let off = body_start + 16 * j;
        let tick = read_u64_le(b, off);
        let local = read_u32_le(b, off + 8);
        let remote = read_u32_le(b, off + 12);
        let p = InputPair { tick, local, remote };
        proof {
            let rem = body.skip(16 * j);
            assert(rem.len() == 16 * (n - j)) by {
                assert(body.len() == 16 * n);
            }
            assert(rem.subrange(0, 16) =~= b@.subrange(off as int, off + 16));
            assert(b@.subrange(off as int, off + 16).subrange(0, 8) =~= b@.subrange(
                off as int,
                off + 8,
            ));
            assert(b@.subrange(off as int, off + 16).subrange(8, 12) =~= b@.subrange(
                off + 8,
                off + 12,
            ));
            assert(b@.subrange(off as int, off + 16).subrange(12, 16) =~= b@.subrange(
                off + 12,
                off + 16,
            ));
            assert(p == pair_of_bytes(rem.subrange(0, 16)));
            assert(rem.skip(16) =~= body.skip(16 * (j + 1)));
            assert(spec_parse_pairs(rem, (n - j) as nat) == opt_prepend(
                seq![p],
                spec_parse_pairs(body.skip(16 * (j + 1)), (n - j - 1) as nat),
            ));
            lemma_opt_prepend_assoc(
                pairs@,
                seq![p],
                spec_parse_pairs(body.skip(16 * (j + 1)), (n - j - 1) as nat),
            );
            assert(pairs@ + seq![p] =~= pairs@.push(p));
        }
        pairs.push(p);
        j = j + 1;
    }
    proof {
        assert(body.skip(16 * n as int).len() == 0);
        assert(spec_parse_pairs(body.skip(16 * n as int), 0) == Some(Seq::<InputPair>::empty()));
        assert(pairs@ + Seq::<InputPair>::empty() =~= pairs@);
        assert(spec_parse_pairs(body, n as nat) == Some(pairs@));
        assert(b@.subrange(2, 6) =~= b@.subrange(2, 6));
        assert(state@ =~= b@.subrange(6, 6 + sl as int));
    }
    let is_complete = b[0] == 1;
    let local_player_index = b[1];
    Some(Replay { initial_state: state, pairs, is_complete, local_player_index })
}

proof fn lemma_opt_prepend_assoc(a: Seq<InputPair>, p: Seq<InputPair>, o: Option<Seq<InputPair>>)
    ensures
        opt_prepend(a, opt_prepend(p, o)) == opt_prepend(a + p, o),
{
    match o {
        Some(t) => {
            assert(a + (p + t) =~= (a + p) + t);
        },
        None => {},
    }
}

/// A pair section whose length is not exactly sixteen bytes per pair cannot
/// parse.
proof fn lemma_body_len_mismatch(s: Seq<u8>, n: nat)
    requires
        s.len() != 16 * n,
    ensures
        spec_parse_pairs(s, n) == None::<Seq<InputPair>>,
    decreases n,
{
    if n > 0 && s.len() >= 16 {
        lemma_body_len_mismatch(s.skip(16), (n - 1) as nat);
    }
}

} // verus!
