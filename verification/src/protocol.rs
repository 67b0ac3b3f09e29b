//! The transport wire contract: two message kinds — `Init`, carrying the
//! negotiated settings and a seed contribution, and `InputMsg`, carrying one
//! tick's input with an optional periodic state checksum — framed onto an
//! ordered, reliable byte stream with a length prefix.

use vstd::prelude::*;

use crate::bytes::{
    le32, le32_bytes, le64, le64_bytes, push_u32_le, push_u64_le, read_u32_le, read_u64_le,
    u128_hi, u128_join, u128_lo, lemma_le32_round_trip, lemma_le64_round_trip,
    lemma_u128_split_join, split_hi, split_lo, join_u128,
};

verus! {

/// Match parameters negotiated once before any input flows. Immutable after
/// negotiation completes.
#[derive(Clone, Copy, Debug, PartialEq, Eq, Structural)]
pub struct Settings {
    /// The match type identifier both sides must agree on.
    pub match_type: u8,
    /// The match variant within the type.
    pub match_subtype: u8,
    /// How many ticks of input this side buffers before consumption.
    pub input_delay: u32,
    /// The expected ROM identity; both sides must report the same one.
    pub rom_checksum: u32,
    /// This side's contribution to the shared deterministic seed.
    pub seed_contribution: u128,
}

/// One framed message of the wire protocol.
#[derive(Clone, Copy, Debug, PartialEq, Eq, Structural)]
pub enum Message {
    /// Sent once, bidirectionally, before any input message.
    Init { settings: Settings },
    /// One side's input for one tick, sent in strictly increasing tick order,
    /// with an optional rolling checksum of core state for desync detection.
    InputMsg { tick: u64, input: u32, checksum: Option<u32> },
}

/// A transport failure: the round treats either as fatal.
#[derive(Clone, Copy, Debug, PartialEq, Eq, Structural)]
pub enum TransportError {
    /// A frame or message that the protocol cannot have produced.
    Malformed,
    /// The underlying stream ended.
    Closed,
}

/// Wire tag of an `Init` message.
pub const INIT_TAG: u8 = 1;

/// Wire tag of an `InputMsg` message.
pub const INPUT_TAG: u8 = 2;

/// Byte length of an encoded `Init` message.
pub const INIT_LEN: usize = 27;

/// Byte length of an encoded `InputMsg` without a checksum.
pub const INPUT_LEN: usize = 14;

/// Byte length of an encoded `InputMsg` with a checksum.
pub const INPUT_CK_LEN: usize = 18;

/// The bytes of a message: a tag, then the fields in little-endian order.
pub open spec fn spec_encode_message(m: Message) -> Seq<u8> {
    match m {
        Message::Init { settings } => seq![INIT_TAG, settings.match_type, settings.match_subtype]
            + le32_bytes(settings.input_delay) + le32_bytes(settings.rom_checksum) + le64_bytes(
            u128_lo(settings.seed_contribution),
        ) + le64_bytes(u128_hi(settings.seed_contribution)),
        Message::InputMsg { tick, input, checksum } => match checksum {
            None => seq![INPUT_TAG] + le64_bytes(tick) + le32_bytes(input) + seq![0u8],
            Some(c) => seq![INPUT_TAG] + le64_bytes(tick) + le32_bytes(input) + seq![1u8]
                + le32_bytes(c),
        },
    }
}

/// The message a byte sequence encodes, if any.
pub open spec fn spec_decode_message(s: Seq<u8>) -> Option<Message> {
    if s.len() == INIT_LEN && s[0] == INIT_TAG {
        Some(
            Message::Init {
                settings: Settings {
                    match_type: s[1],
                    match_subtype: s[2],
                    input_delay: le32(s.subrange(3, 7)),
                    rom_checksum: le32(s.subrange(7, 11)),
                    seed_contribution: u128_join(le64(s.subrange(11, 19)), le64(s.subrange(19, 27))),
                },
            },
        )
    } else if s.len() == INPUT_LEN && s[0] == INPUT_TAG && s[13] == 0 {
        Some(
            Message::InputMsg {
                tick: le64(s.subrange(1, 9)),
                input: le32(s.subrange(9, 13)),
                checksum: None,
            },
        )
    } else if s.len() == INPUT_CK_LEN && s[0] == INPUT_TAG && s[13] == 1 {
        Some(
            Message::InputMsg {
                tick: le64(s.subrange(1, 9)),
                input: le32(s.subrange(9, 13)),
                checksum: Some(le32(s.subrange(14, 18))),
            },
        )
    } else {
        None
    }
}

/// Decoding an encoded message yields the message back: the wire format loses
/// nothing.
pub proof fn lemma_message_round_trip(m: Message)
    ensures
        spec_decode_message(spec_encode_message(m)) == Some(m),
{
    let s = spec_encode_message(m);
    match m {
        Message::Init { settings } => {
            assert(s.len() == INIT_LEN);
            assert(s.subrange(3, 7) =~= le32_bytes(settings.input_delay));
            assert(s.subrange(7, 11) =~= le32_bytes(settings.rom_checksum));
            assert(s.subrange(11, 19) =~= le64_bytes(u128_lo(settings.seed_contribution)));
            assert(s.subrange(19, 27) =~= le64_bytes(u128_hi(settings.seed_contribution)));
            lemma_le32_round_trip(settings.input_delay);
            lemma_le32_round_trip(settings.rom_checksum);
            lemma_le64_round_trip(u128_lo(settings.seed_contribution));
            lemma_le64_round_trip(u128_hi(settings.seed_contribution));
            lemma_u128_split_join(settings.seed_contribution);
        },
        Message::InputMsg { tick, input, checksum } => {
            match checksum {
                None => {
                    assert(s.len() == INPUT_LEN);
                    assert(s.subrange(1, 9) =~= le64_bytes(tick));
                    assert(s.subrange(9, 13) =~= le32_bytes(input));
                    assert(s[13] == 0);
                },
                Some(c) => {
                    assert(s.len() == INPUT_CK_LEN);
                    assert(s.subrange(1, 9) =~= le64_bytes(tick));
                    assert(s.subrange(9, 13) =~= le32_bytes(input));
                    assert(s[13] == 1);
                    assert(s.subrange(14, 18) =~= le32_bytes(c));
                    lemma_le32_round_trip(c);
                },
            }
            lemma_le64_round_trip(tick);
            lemma_le32_round_trip(input);
        },
    }
}

/// Encodes a message into its wire bytes.
pub fn encode_message(m: &Message) -> (r: Vec<u8>)
    ensures
        r@ == spec_encode_message(*m),
{
    let mut out: Vec<u8> = Vec::new();
    match m {
        Message::Init { settings } => {
            out.push(INIT_TAG);
            out.push(settings.match_type);
            out.push(settings.match_subtype);
            push_u32_le(&mut out, settings.input_delay);
            push_u32_le(&mut out, settings.rom_checksum);
            push_u64_le(&mut out, split_lo(settings.seed_contribution));
            push_u64_le(&mut out, split_hi(settings.seed_contribution));
            proof {
                assert(out@ =~= spec_encode_message(*m));
            }
        },
        Message::InputMsg { tick, input, checksum } => {
            out.push(INPUT_TAG);
            push_u64_le(&mut out, *tick);
            push_u32_le(&mut out, *input);
            match checksum {
                None => {
                    out.push(0u8);
                },
                Some(c) => {
                    out.push(1u8);
                    push_u32_le(&mut out, *c);
                },
            }
            proof {
                assert(out@ =~= spec_encode_message(*m));
            }
        },
    }
    out
}

/// Parses the wire bytes of one message.
pub fn decode_message(b: &[u8]) -> (r: Option<Message>)
    ensures
        r == spec_decode_message(b@),
{
    if b.len() == INIT_LEN && b[0] == INIT_TAG {
        let lo = read_u64_le(b, 11);
        let hi = read_u64_le(b, 19);
        Some(
            Message::Init {
                settings: Settings {
                    match_type: b[1],
                    match_subtype: b[2],
                    input_delay: read_u32_le(b, 3),
                    rom_checksum: read_u32_le(b, 7),
                    seed_contribution: join_u128(lo, hi),
                },
            },
        )
    } else if b.len() == INPUT_LEN && b[0] == INPUT_TAG && b[13] == 0 {
        Some(
            Message::InputMsg {
                tick: read_u64_le(b, 1),
                input: read_u32_le(b, 9),
                checksum: None,
            },
        )
    } else if b.len() == INPUT_CK_LEN && b[0] == INPUT_TAG && b[13] == 1 {
        Some(
            Message::InputMsg {
                tick: read_u64_le(b, 1),
                input: read_u32_le(b, 9),
                checksum: Some(read_u32_le(b, 14)),
            },
        )
    } else {
        None
    }
}

/// A frame on the stream: a four-byte little-endian payload length, then the
/// payload.
pub open spec fn spec_encode_frame(m: Message) -> Seq<u8> {
    le32_bytes(spec_encode_message(m).len() as u32) + spec_encode_message(m)
}

/// Frames a message for the stream.
pub fn encode_frame(m: &Message) -> (r: Vec<u8>)
    ensures
        r@ == spec_encode_frame(*m),
{
    let payload = encode_message(m);
    let mut out: Vec<u8> = Vec::new();
    push_u32_le(&mut out, payload.len() as u32);
    let mut i: usize = 0;
    while i < payload.len()
        invariant
            i <= payload@.len(),
            out@ == le32_bytes(payload@.len() as u32) + payload@.take(i as int),
        decreases payload@.len() - i,
    {
        let byte = payload[i];
        out.push(byte);
        proof {
            assert(out@ =~= le32_bytes(payload@.len() as u32) + payload@.take(i + 1));
        }
        i = i + 1;
    }
    proof {
        assert(payload@.take(payload@.len() as int) =~= payload@);
    }
    out
}

/// No message's payload is longer than this; a frame that claims more is
/// malformed and the transport is torn down.
pub const MAX_FRAME_LEN: u32 = 64;

/// What reading one frame from the head of the receive buffer yields:
/// nothing yet (`Ok(None)`), a message and the bytes consumed, or a fatal
/// malformation.
pub open spec fn spec_take_frame(s: Seq<u8>) -> Result<Option<(Message, int)>, TransportError> {
    if s.len() < 4 {
        Ok(None)
    } else {
        let n = le32(s.subrange(0, 4));
        if n > MAX_FRAME_LEN {
            Err(TransportError::Malformed)
        } else if s.len() < 4 + n {
            Ok(None)
        } else {
            match spec_decode_message(s.subrange(4, 4 + n)) {
                Some(m) => Ok(Some((m, 4 + n))),
                None => Err(TransportError::Malformed),
            }
        }
    }
}

/// Reads one frame from the head of the receive buffer. `Ok(None)` means the
/// buffer does not yet hold a whole frame; `Ok(Some((m, consumed)))` hands
/// the message out together with how many bytes to drop from the buffer; a
/// length over `MAX_FRAME_LEN` or an undecodable payload is malformed and
/// fatal.
pub fn take_frame(b: &[u8]) -> (r: Result<Option<(Message, usize)>, TransportError>)
    ensures
        match r {
            Ok(None) => spec_take_frame(b@) == Ok::<Option<(Message, int)>, TransportError>(
                None,
            ),
            Ok(Some((m, consumed))) => spec_take_frame(b@) == Ok::<
                Option<(Message, int)>,
                TransportError,
            >(Some((m, consumed as int))),
            Err(e) => spec_take_frame(b@) == Err::<Option<(Message, int)>, TransportError>(e),
        },
{
    if b.len() < 4 {
        return Ok(None);
    }
    let n = read_u32_le(b, 0);
    if n > MAX_FRAME_LEN {
        return Err(TransportError::Malformed);
    }
    let n = n as usize;
    if b.len() < 4 + n {
        return Ok(None);
    }
    let mut payload: Vec<u8> = Vec::new();
    let mut i: usize = 0;
    while i < n
        invariant
            i <= n,
            n <= MAX_FRAME_LEN,
            4 + n <= b@.len(),
            payload@ == b@.subrange(4, 4 + i),
        decreases n - i,
    {
        let byte = b[4 + i];
        payload.push(byte);
        proof {
            assert(payload@ =~= b@.subrange(4, 4 + i + 1));
        }
        i = i + 1;
    }
    match decode_message(payload.as_slice()) {
        Some(m) => Ok(Some((m, 4 + n))),
        None => Err(TransportError::Malformed),
    }
}

/// How the ingress filter judges one received input tick.
#[derive(Clone, Copy, Debug, PartialEq, Eq, Structural)]
pub enum IngressVerdict {
    /// The next expected tick: hand it to the input queue.
    Accept,
    /// Already seen: drop it before it reaches the queue.
    Duplicate,
    /// A tick from the future: the sender skipped one, which the ordered
    /// stream contract rules out. Fatal.
    Gap,
}

/// The receive-side tick filter: inbound input messages must carry strictly
/// increasing contiguous ticks, so duplicates are dropped and gaps rejected
/// at the framing layer, before anything reaches the input queue.
pub struct InputIngress {
    pub next_tick: u64,
}

impl InputIngress {
    pub fn new() -> (r: InputIngress)
        ensures
            r.next_tick == 0,
    {
        InputIngress { next_tick: 0 }
    }

    /// Judges one received tick: accepted exactly when it is the next
    /// expected one, which then moves forward; a duplicate or a gap leaves
    /// the filter unchanged.
    pub fn accept(&mut self, tick: u64) -> (r: IngressVerdict)
        ensures
            r == IngressVerdict::Accept <==> (tick == old(self).next_tick && tick < u64::MAX),
            r == IngressVerdict::Duplicate <==> tick < old(self).next_tick,
            r == IngressVerdict::Accept ==> final(self).next_tick == tick + 1,
            r != IngressVerdict::Accept ==> final(self).next_tick == old(self).next_tick,
    {
        if tick < self.next_tick {
            IngressVerdict::Duplicate
        } else if tick == self.next_tick && tick < u64::MAX {
            self.next_tick = tick + 1;
            IngressVerdict::Accept
        } else {
            IngressVerdict::Gap
        }
    }
}

/// Framing a message and reading it back from the stream yields the message
/// and consumes exactly the frame.
pub proof fn lemma_frame_round_trip(m: Message)
    ensures
        spec_take_frame(spec_encode_frame(m)) == Ok::<Option<(Message, int)>, TransportError>(
            Some((m, spec_encode_frame(m).len() as int)),
        ),
{
    let payload = spec_encode_message(m);
    let s = spec_encode_frame(m);
    assert(payload.len() <= 27);
    assert(s.subrange(0, 4) =~= le32_bytes(payload.len() as u32));
    lemma_le32_round_trip(payload.len() as u32);
    assert(s.subrange(4, 4 + payload.len() as u32) =~= payload);
    lemma_message_round_trip(m);
}

} // verus!
