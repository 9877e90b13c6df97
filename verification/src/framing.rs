//! Length-prefixed framing for the host/guest byte-stream transport.
//!
//! A frame on the wire is a little-endian 32-bit payload length followed by
//! exactly that many payload bytes. The receiver assembles a frame from an
//! unbounded number of underlying reads and must stop exactly when the
//! announced number of payload bytes has arrived.

use vstd::bytes::{lemma_auto_spec_u32_to_from_le_bytes, spec_u32_from_le_bytes,
    spec_u32_to_le_bytes, u32_from_le_bytes, u32_to_le_bytes};
use vstd::prelude::*;

verus! {

/// Largest payload the transport carries: the size of the coverage map.
pub const MAX_FRAME_PAYLOAD: u32 = 1048576;

/// The bytes that a payload occupies on the wire: a little-endian 32-bit
/// length prefix followed by the payload itself.
pub open spec fn spec_frame_bytes(payload: Seq<u8>) -> Seq<u8> {
    spec_u32_to_le_bytes(payload.len() as u32) + payload
}

/// What a prefix of the wire stream amounts to: not yet a whole frame, a
/// whole frame with its payload, or more bytes than the announced length.
pub open spec fn spec_frame_state(wire: Seq<u8>) -> SpecFrameState {
    if wire.len() < 4 {
        SpecFrameState::Incomplete
    } else {
        let announced = spec_u32_from_le_bytes(wire.subrange(0, 4)) as int;
        if wire.len() - 4 < announced {
            SpecFrameState::Incomplete
        } else if wire.len() - 4 == announced {
            SpecFrameState::Complete(wire.subrange(4, wire.len() as int))
        } else {
            SpecFrameState::Overrun
        }
    }
}

/// Ghost description of the receiver's progress on one frame.
pub enum SpecFrameState {
    /// More bytes are needed before the frame is whole.
    Incomplete,
    /// Exactly the announced number of payload bytes has arrived.
    Complete(Seq<u8>),
    /// More bytes arrived than the announced length allows.
    Overrun,
}

/// Encoding then decoding returns the payload: the wire bytes of any payload
/// of at most `MAX_FRAME_PAYLOAD` bytes parse back to exactly that payload.
pub proof fn lemma_frame_round_trip(payload: Seq<u8>)
    requires
        payload.len() <= MAX_FRAME_PAYLOAD,
    ensures
        spec_frame_state(spec_frame_bytes(payload)) == SpecFrameState::Complete(payload),
{
    lemma_auto_spec_u32_to_from_le_bytes();
    let wire = spec_frame_bytes(payload);
    assert(wire.subrange(0, 4) =~= spec_u32_to_le_bytes(payload.len() as u32));
    assert(wire.subrange(4, wire.len() as int) =~= payload);
}

/// Encode one payload as a wire frame.
pub fn encode_frame(payload: &Vec<u8>) -> (frame: Vec<u8>)
    requires
        payload@.len() <= u32::MAX,
    ensures
        frame@ == spec_frame_bytes(payload@),
        frame@.len() == payload@.len() + 4,
{
    let len: u32 = payload.len() as u32;
    let mut frame: Vec<u8> = u32_to_le_bytes(len);
    let mut i: usize = 0;
    while i < payload.len()
        invariant
            i <= payload@.len(),
            payload@.len() <= u32::MAX,
            frame@ == spec_u32_to_le_bytes(payload@.len() as u32) + payload@.subrange(0, i as int),
        decreases payload@.len() - i,
    {
        frame.push(payload[i]);
        i = i + 1;
        proof {
            assert(frame@ =~= spec_u32_to_le_bytes(payload@.len() as u32) + payload@.subrange(
                0,
                i as int,
            ));
        }
    }
    proof {
        assert(payload@.subrange(0, payload@.len() as int) =~= payload@);
    }
    frame
}

/// Assembles one frame from successive reads off the underlying stream.
///
/// The view is the sequence of wire bytes taken in so far, length prefix
/// included; `state()` reports whether those bytes are short of, exactly, or
/// past one whole frame.
pub struct FrameAssembler {
    wire: Vec<u8>,
}

/// Executable mirror of `SpecFrameState`, without the payload.
#[derive(PartialEq, Eq, Structural, Clone, Copy, Debug)]
pub enum FrameProgress {
    /// More bytes are needed before the frame is whole.
    NeedMore,
    /// Exactly the announced number of payload bytes has arrived.
    Done,
    /// More bytes arrived than the announced length allows.
    Overrun,
}

impl FrameAssembler {
    /// All wire bytes taken in so far.
    pub closed spec fn view(&self) -> Seq<u8> {
        self.wire@
    }

    pub fn new() -> (r: Self)
        ensures
            r@ == Seq::<u8>::empty(),
    {
        FrameAssembler { wire: Vec::new() }
    }

    /// Take in the bytes of one underlying read and report progress.
    pub fn feed(&mut self, chunk: &[u8]) -> (progress: FrameProgress)
        requires
            old(self)@.len() + chunk@.len() <= usize::MAX,
        ensures
            final(self)@ == old(self)@ + chunk@,
            progress == Self::spec_progress_of(spec_frame_state(final(self)@)),
    {
        let mut i: usize = 0;
        while i < chunk.len()
            invariant
                i <= chunk@.len(),
                old(self)@.len() + chunk@.len() <= usize::MAX,
                self.wire@ == old(self)@ + chunk@.subrange(0, i as int),
            decreases chunk@.len() - i,
        {
            let b = chunk[i];
            self.wire.push(b);
            i = i + 1;
            proof {
                assert(self.wire@ =~= old(self)@ + chunk@.subrange(0, i as int));
            }
        }
        proof {
            assert(self.wire@ =~= old(self)@ + chunk@);
        }
        self.progress()
    }

    /// How `FrameProgress` reports a ghost frame state.
    pub open spec fn spec_progress_of(s: SpecFrameState) -> FrameProgress {
        match s {
            SpecFrameState::Incomplete => FrameProgress::NeedMore,
            SpecFrameState::Complete(_) => FrameProgress::Done,
            SpecFrameState::Overrun => FrameProgress::Overrun,
        }
    }

    /// Report progress on the bytes taken in so far.
    pub fn progress(&self) -> (progress: FrameProgress)
        ensures
            progress == Self::spec_progress_of(spec_frame_state(self@)),
    {
        if self.wire.len() < 4 {
            FrameProgress::NeedMore
        } else {
            let mut prefix: Vec<u8> = Vec::new();
            prefix.push(self.wire[0]);
            prefix.push(self.wire[1]);
            prefix.push(self.wire[2]);
            prefix.push(self.wire[3]);
            proof {
                assert(prefix@ =~= self@.subrange(0, 4));
            }
            let announced = u32_from_le_bytes(prefix.as_slice());
            let body = self.wire.len() - 4;
            if announced as usize > body {
                FrameProgress::NeedMore
            } else if announced as usize == body {
                FrameProgress::Done
            } else {
                FrameProgress::Overrun
            }
        }
    }

    /// Whether no byte at all has arrived yet.
    pub fn is_empty(&self) -> (r: bool)
        ensures
            r == (self@.len() == 0),
    {
        self.wire.len() == 0
    }

    /// How many wire bytes have arrived so far.
    pub fn len(&self) -> (r: usize)
        ensures
            r == self@.len(),
    {
        self.wire.len()
    }

    /// The payload of the completed frame.
    pub fn into_payload(self) -> (payload: Vec<u8>)
        requires
            spec_frame_state(self@) is Complete,
        ensures
            spec_frame_state(self@) == SpecFrameState::Complete(payload@),
    {
        let mut wire = self.wire;
        let mut payload: Vec<u8> = Vec::new();
        let mut i: usize = 4;
        while i < wire.len()
            invariant
                4 <= i <= wire@.len(),
                wire@.len() >= 4,
                payload@ == wire@.subrange(4, i as int),
            decreases wire@.len() - i,
        {
            let b = wire[i];
            payload.push(b);
            i = i + 1;
            proof {
                assert(payload@ =~= wire@.subrange(4, i as int));
            }
        }
        payload
    }
}

/// One completed underlying read, as the I/O layer hands it to the receiver.
pub enum ReadEvent {
    /// The read returned these bytes (possibly splitting a frame anywhere).
    Data(Vec<u8>),
    /// The read blocked past the configured deadline.
    DeadlineExpired,
    /// The read returned zero bytes: the stream is closed.
    Closed,
}

/// What receiving one frame amounted to.
pub enum RecvOutcome {
    /// A whole frame arrived; this is its payload.
    Frame(Vec<u8>),
    /// The deadline passed before a whole frame had arrived.
    NoData,
    /// The stream closed before the length prefix was complete.
    EndOfStream,
    /// More bytes arrived for the frame than its length prefix announced,
    /// or the stream closed after the length prefix but before the
    /// announced payload was complete.
    Malformed,
}

/// Ghost mirror of `RecvOutcome`.
pub enum SpecRecvOutcome {
    Frame(Seq<u8>),
    NoData,
    EndOfStream,
    Malformed,
}

impl View for RecvOutcome {
    type V = SpecRecvOutcome;

    open spec fn view(&self) -> SpecRecvOutcome {
        match self {
            RecvOutcome::Frame(p) => SpecRecvOutcome::Frame(p@),
            RecvOutcome::NoData => SpecRecvOutcome::NoData,
            RecvOutcome::EndOfStream => SpecRecvOutcome::EndOfStream,
            RecvOutcome::Malformed => SpecRecvOutcome::Malformed,
        }
    }
}

/// What receiving one frame returns, given the bytes already assembled and
/// the underlying reads still to come. A read past the deadline yields the
/// "no data" outcome whatever has arrived; a complete frame that arrives
/// before the deadline is returned whole; a close before the length prefix
/// is the end of the stream.
pub open spec fn spec_recv(assembled: Seq<u8>, events: Seq<ReadEvent>) -> SpecRecvOutcome
    decreases events.len(),
{
    match spec_frame_state(assembled) {
        SpecFrameState::Complete(payload) => SpecRecvOutcome::Frame(payload),
        SpecFrameState::Overrun => SpecRecvOutcome::Malformed,
        SpecFrameState::Incomplete => if events.len() == 0 {
            SpecRecvOutcome::NoData
        } else {
            match events[0] {
                ReadEvent::Data(chunk) => spec_recv(assembled + chunk@, events.drop_first()),
                ReadEvent::DeadlineExpired => SpecRecvOutcome::NoData,
                ReadEvent::Closed => if assembled.len() < 4 {
                    SpecRecvOutcome::EndOfStream
                } else {
                    SpecRecvOutcome::Malformed
                },
            }
        },
    }
}

/// Receive one frame from a sequence of underlying reads.
///
/// The caller performs the reads under its deadline and hands their results
/// over in order; this settles what the exchange amounted to. The outcome is
/// exactly `spec_recv` of the events: in particular, if the first read blocks
/// past the deadline the outcome is `NoData`, and a delayed but complete
/// frame is returned whole.
pub fn recv_frame(events: Vec<ReadEvent>) -> (outcome: RecvOutcome)
    requires
        spec_total_len(events@) <= usize::MAX,
    ensures
        outcome@ == spec_recv(Seq::<u8>::empty(), events@),
{
    let mut assembler = FrameAssembler::new();
    let mut i: usize = 0;
    let events_len = events.len();
    proof {
        assert(events@.subrange(0, events@.len() as int) =~= events@);
        assert(events@.subrange(0, 0) =~= Seq::<ReadEvent>::empty());
    }
    while i < events_len
        invariant
            i <= events@.len(),
            events_len == events@.len(),
            spec_total_len(events@) <= usize::MAX,
            assembler@.len() <= spec_total_len(events@.subrange(0, i as int)),
            spec_frame_state(assembler@) is Incomplete,
            spec_recv(Seq::<u8>::empty(), events@) == spec_recv(
                assembler@,
                events@.subrange(i as int, events@.len() as int),
            ),
        decreases events@.len() - i,
    {
        proof {
            assert(events@.subrange(i as int, events@.len() as int)[0] == events@[i as int]);
            lemma_total_len_parts(events@, i as int);
        }
        let ghost rest = events@.subrange(i as int, events@.len() as int);
        let event = &events[i];
        match event {
            ReadEvent::Data(chunk) => {
                proof {
                    lemma_total_len_bound(events@, i as int);
                }
                let ghost prev = assembler@;
                let progress = assembler.feed(chunk.as_slice());
                proof {
                    assert(rest.drop_first() =~= events@.subrange(
                        i + 1 as int,
                        events@.len() as int,
                    ));
                    assert(spec_recv(prev, rest) == spec_recv(assembler@, rest.drop_first()));
                }
                match progress {
                    FrameProgress::NeedMore => {
                    },
                    FrameProgress::Done => {
                        return RecvOutcome::Frame(assembler.into_payload());
                    },
                    FrameProgress::Overrun => {
                        return RecvOutcome::Malformed;
                    },
                }
            },
            ReadEvent::DeadlineExpired => {
                return RecvOutcome::NoData;
            },
            ReadEvent::Closed => {
                if assembler.len() < 4 {
                    return RecvOutcome::EndOfStream;
                } else {
                    return RecvOutcome::Malformed;
                }
            },
        }
        i = i + 1;
    }
    proof {
        assert(events@.subrange(i as int, events@.len() as int) =~= Seq::<ReadEvent>::empty());
    }
    RecvOutcome::NoData
}


/// All payload bytes carried by a sequence of read events, in order.
pub open spec fn spec_data_concat(events: Seq<ReadEvent>) -> Seq<u8>
    decreases events.len(),
{
    if events.len() == 0 {
        Seq::empty()
    } else {
        (match events[0] {
            ReadEvent::Data(chunk) => chunk@,
            _ => Seq::empty(),
        }) + spec_data_concat(events.drop_first())
    }
}

/// A proper prefix of a frame's wire bytes is never a whole frame: more
/// bytes are still needed.
proof fn lemma_frame_prefix_incomplete(payload: Seq<u8>, k: int)
    requires
        payload.len() <= MAX_FRAME_PAYLOAD,
        0 <= k < spec_frame_bytes(payload).len(),
    ensures
        spec_frame_state(spec_frame_bytes(payload).take(k)) is Incomplete,
{
    lemma_auto_spec_u32_to_from_le_bytes();
    let wire = spec_frame_bytes(payload);
    let prefix = wire.take(k);
    if k >= 4 {
        assert(prefix.subrange(0, 4) =~= spec_u32_to_le_bytes(payload.len() as u32));
    }
}

/// Underlying reads that together carry exactly one frame assemble to that
/// frame's payload, wherever the reads split it.
proof fn lemma_recv_within_frame(payload: Seq<u8>, consumed: int, events: Seq<ReadEvent>)
    requires
        payload.len() <= MAX_FRAME_PAYLOAD,
        0 <= consumed <= spec_frame_bytes(payload).len(),
        forall|i: int| 0 <= i < events.len() ==> events[i] is Data,
        spec_data_concat(events) == spec_frame_bytes(payload).subrange(
            consumed,
            spec_frame_bytes(payload).len() as int,
        ),
    ensures
        spec_recv(spec_frame_bytes(payload).take(consumed), events) == SpecRecvOutcome::Frame(
            payload,
        ),
    decreases events.len(),
{
    let wire = spec_frame_bytes(payload);
    if consumed == wire.len() {
        assert(wire.take(consumed) =~= wire);
        lemma_frame_round_trip(payload);
    } else {
        lemma_frame_prefix_incomplete(payload, consumed);
        if events.len() == 0 {
            assert(wire.subrange(consumed, wire.len() as int).len() > 0);
            assert(false);
        } else {
            let chunk = events[0]->Data_0;
            assert(spec_data_concat(events) == chunk@ + spec_data_concat(events.drop_first()));
            assert(chunk@.len() <= wire.len() - consumed);
            assert forall|t: int| 0 <= t < chunk@.len() implies chunk@[t] == wire[consumed
                + t] by {
                assert(chunk@[t] == spec_data_concat(events)[t]);
                assert(spec_data_concat(events)[t] == wire.subrange(
                    consumed,
                    wire.len() as int,
                )[t]);
            }
            assert(wire.take(consumed) + chunk@ =~= wire.take(consumed + chunk@.len()));
            assert(spec_data_concat(events.drop_first()) =~= wire.subrange(
                consumed + chunk@.len(),
                wire.len() as int,
            )) by {
                assert(forall|t: int|
                    0 <= t < spec_data_concat(events.drop_first()).len()
                        ==> spec_data_concat(events)[chunk@.len() + t] == #[trigger] spec_data_concat(
                        events.drop_first(),
                    )[t]);
            }
            lemma_recv_within_frame(payload, consumed + chunk@.len(), events.drop_first());
        }
    }
}

/// The deadline law: when the underlying stream produces no bytes before
/// the deadline, receiving reports "no data".
pub proof fn lemma_no_bytes_is_no_data(events: Seq<ReadEvent>)
    requires
        events.len() > 0,
        events[0] is DeadlineExpired,
    ensures
        spec_recv(Seq::<u8>::empty(), events) == SpecRecvOutcome::NoData,
{
}

/// The delayed-frame law: a complete frame that arrives within the
/// deadline is returned whole, however the underlying reads split it.
pub proof fn lemma_delayed_frame_returned_whole(payload: Seq<u8>, events: Seq<ReadEvent>)
    requires
        payload.len() <= MAX_FRAME_PAYLOAD,
        forall|i: int| 0 <= i < events.len() ==> events[i] is Data,
        spec_data_concat(events) == spec_frame_bytes(payload),
    ensures
        spec_recv(Seq::<u8>::empty(), events) == SpecRecvOutcome::Frame(payload),
{
    let wire = spec_frame_bytes(payload);
    assert(wire.subrange(0, wire.len() as int) =~= wire);
    assert(wire.take(0) =~= Seq::<u8>::empty());
    lemma_recv_within_frame(payload, 0, events);
}

/// Total number of bytes carried by a sequence of read events.
pub open spec fn spec_total_len(events: Seq<ReadEvent>) -> nat
    decreases events.len(),
{
    if events.len() == 0 {
        0
    } else {
        spec_total_len(events.drop_last()) + match events.last() {
            ReadEvent::Data(chunk) => chunk@.len(),
            _ => 0,
        }
    }
}

proof fn lemma_total_len_parts(events: Seq<ReadEvent>, i: int)
    requires
        0 <= i < events.len(),
    ensures
        spec_total_len(events.subrange(0, i + 1)) == spec_total_len(events.subrange(0, i))
            + match events[i] {
            ReadEvent::Data(chunk) => chunk@.len(),
            _ => 0,
        },
{
    let front = events.subrange(0, i + 1);
    assert(front.drop_last() =~= events.subrange(0, i));
    assert(front.last() == events[i]);
}

proof fn lemma_total_len_bound(events: Seq<ReadEvent>, i: int)
    requires
        0 <= i < events.len(),
    ensures
        spec_total_len(events.subrange(0, i)) + match events[i] {
            ReadEvent::Data(chunk) => chunk@.len(),
            _ => 0,
        } <= spec_total_len(events),
{
    lemma_total_len_parts(events, i);
    lemma_total_len_mono(events, i + 1);
}

proof fn lemma_total_len_mono(events: Seq<ReadEvent>, i: int)
    requires
        0 <= i <= events.len(),
    ensures
        spec_total_len(events.subrange(0, i)) <= spec_total_len(events),
    decreases events.len() - i,
{
    if i == events.len() {
        assert(events.subrange(0, i) =~= events);
    } else {
        lemma_total_len_parts(events, i);
        lemma_total_len_mono(events, i + 1);
    }
}

} // verus!
