//! Reading one RFC 4571 frame from a byte stream.
//!
//! A frame is a sixteen bit length in network order and as many bytes of
//! payload. [`FrameReader`] says how many bytes to ask the stream for and is
//! told what the read brought.

use vstd::prelude::*;

verus! {

/// The length of the length field in front of a frame's payload.
pub const RFC4571_HEADER_LEN: usize = 2;

/// What reading one more time has led to.
pub enum FrameProgress {
    /// More bytes of the frame are to come.
    Pending,
    /// The frame is there; this is its payload.
    Complete(Vec<u8>),
    /// The stream failed or ended, or the frame is empty: there will be no frame.
    Rejected,
}

/// What a stream that has delivered `received` so far amounts to.
pub enum FrameState {
    Pending,
    Complete(Seq<u8>),
    Rejected,
}

impl View for FrameProgress {
    type V = FrameState;

    open spec fn view(&self) -> FrameState {
        match self {
            FrameProgress::Pending => FrameState::Pending,
            FrameProgress::Complete(payload) => FrameState::Complete(payload@),
            FrameProgress::Rejected => FrameState::Rejected,
        }
    }
}

/// The payload length that the first two bytes of a frame announce.
pub open spec fn announced_len(received: Seq<u8>) -> int {
    crate::peer_connection::stun::be16(received[0], received[1])
}

/// The state of a frame of which exactly `received` has arrived.
pub open spec fn frame_state(received: Seq<u8>) -> FrameState {
    if received.len() < RFC4571_HEADER_LEN {
        FrameState::Pending
    } else if announced_len(received) == 0 {
        FrameState::Rejected
    } else if received.len() < RFC4571_HEADER_LEN + announced_len(received) {
        FrameState::Pending
    } else {
        FrameState::Complete(received.skip(RFC4571_HEADER_LEN as int))
    }
}

/// How many bytes the part of a frame that is being read still lacks: first of
/// its length field, and once that is there of its payload.
pub open spec fn missing_len(received: Seq<u8>) -> int {
    if received.len() < RFC4571_HEADER_LEN {
        RFC4571_HEADER_LEN - received.len()
    } else {
        RFC4571_HEADER_LEN + announced_len(received) - received.len()
    }
}

/// The reading of one frame.
pub struct FrameReader {
    received: Vec<u8>,
}

impl View for FrameReader {
    type V = Seq<u8>;

    /// All bytes that have arrived.
    closed spec fn view(&self) -> Seq<u8> {
        self.received@
    }
}

impl FrameReader {
    /// A reader to which nothing has arrived yet.
    pub fn new() -> (reader: Self)
        ensures
            reader@ == Seq::<u8>::empty(),
    {
        FrameReader { received: Vec::new() }
    }

    fn announced(&self) -> (len: usize)
        requires
            self@.len() >= RFC4571_HEADER_LEN,
        ensures
            len == announced_len(self@),
    {
        self.received[0] as usize * 256 + self.received[1] as usize
    }

    /// The number of bytes to ask the stream for at most.
    pub fn missing(&self) -> (len: usize)
        requires
            frame_state(self@) is Pending,
        ensures
            len == missing_len(self@),
            len > 0,
            self@.len() < 2 ==> self@.len() + len == 2,
            self@.len() >= 2 ==> self@.len() + len == 2 + self@[0] * 256 + self@[1],
    {
        if self.received.len() < RFC4571_HEADER_LEN {
            RFC4571_HEADER_LEN - self.received.len()
        } else {
            RFC4571_HEADER_LEN + self.announced() - self.received.len()
        }
    }

    /// Takes what a read has brought: the bytes, none at the end of the stream,
    /// or `None` where the read failed.
    pub fn accept(&mut self, read: Option<&[u8]>) -> (progress: FrameProgress)
        requires
            frame_state(old(self)@) is Pending,
            read matches Some(bytes) ==> bytes@.len() <= missing_len(old(self)@),
        ensures
            match read {
                Some(bytes) if bytes@.len() > 0 => {
                    &&& final(self)@ == old(self)@ + bytes@
                    &&& progress@ == frame_state(old(self)@ + bytes@)
                },
                _ => {
                    &&& final(self)@ == old(self)@
                    &&& progress@ == FrameState::Rejected
                },
            },
    {
        let bytes = match read {
            Some(bytes) => bytes,
            None => {
                return FrameProgress::Rejected;
            },
        };
        if bytes.len() == 0 {
            return FrameProgress::Rejected;
        }
        let ghost before = self.received@;
        self.received.extend_from_slice(bytes);
        assert(self.received@ =~= before + bytes@);
        if self.received.len() < RFC4571_HEADER_LEN {
            return FrameProgress::Pending;
        }
        let len = self.announced();
        if len == 0 {
            FrameProgress::Rejected
        } else if self.received.len() < RFC4571_HEADER_LEN + len {
            FrameProgress::Pending
        } else {
            let payload = vstd::slice::slice_to_vec(
                vstd::slice::slice_subrange(
                    self.received.as_slice(),
                    RFC4571_HEADER_LEN,
                    self.received.len(),
                ),
            );
            assert(payload@ =~= self.received@.skip(RFC4571_HEADER_LEN as int));
            FrameProgress::Complete(payload)
        }
    }
}

/// The frame that carries `payload`.
pub open spec fn encode_frame(payload: Seq<u8>) -> Seq<u8> {
    crate::peer_connection::stun::be16_bytes(payload.len() as int) + payload
}

/// A frame yields its payload once it is complete, and nothing before.
pub proof fn law_frame_yields_its_payload(payload: Seq<u8>, arrived: int)
    requires
        0 < payload.len() <= crate::peer_connection::stun::MAX_LENGTH,
        0 <= arrived <= encode_frame(payload).len(),
    ensures
        arrived < encode_frame(payload).len() ==> frame_state(encode_frame(payload).take(arrived))
            is Pending,
        frame_state(encode_frame(payload)) == FrameState::Complete(payload),
{
    let frame = encode_frame(payload);
    let part = frame.take(arrived);
    let header = crate::peer_connection::stun::be16_bytes(payload.len() as int);
    assert(frame[0] == header[0] && frame[1] == header[1]);
    assert(announced_len(frame) == payload.len());
    if arrived >= RFC4571_HEADER_LEN {
        assert(part[0] == frame[0] && part[1] == frame[1]);
    }
    assert(frame.skip(RFC4571_HEADER_LEN as int) =~= payload);
}

/// An empty frame is rejected as soon as its length field has arrived, whatever
/// comes behind it.
pub proof fn law_empty_frame_is_rejected(rest: Seq<u8>)
    ensures
        frame_state(encode_frame(Seq::empty()) + rest) is Rejected,
{
    let frame = encode_frame(Seq::empty()) + rest;
    assert(frame[0] == 0 && frame[1] == 0);
}

/// A frame is its payload's length, high byte first, and the payload. Of every
/// part of it that has arrived, the reader asks for at least one byte more and for
/// no byte behind the frame: for what lacks of the length field until that is there,
/// and for all that lacks of the payload from then on.
pub proof fn law_reads_stay_within_the_frame(high: u8, low: u8, payload: Seq<u8>, arrived: int)
    requires
        payload.len() == high * 256 + low,
        payload.len() > 0,
        0 <= arrived < 2 + payload.len(),
    ensures
        frame_state((seq![high, low] + payload).take(arrived)) is Pending,
        1 <= missing_len((seq![high, low] + payload).take(arrived)) <= 2 + payload.len() - arrived,
        arrived < 2 ==> missing_len((seq![high, low] + payload).take(arrived)) == 2 - arrived,
        arrived >= 2 ==> missing_len((seq![high, low] + payload).take(arrived)) == 2
            + payload.len() - arrived,
        frame_state(seq![high, low] + payload) == FrameState::Complete(payload),
        encode_frame(payload) == seq![high, low] + payload,
{
    let frame = seq![high, low] + payload;
    let part = frame.take(arrived);
    assert(frame[0] == high && frame[1] == low);
    if arrived >= 2 {
        assert(part[0] == high && part[1] == low);
    }
    assert(frame.skip(2) =~= payload);
    assert(encode_frame(payload) =~= frame);
}

/// A reader that never gets more than it asks for completes a frame with a payload
/// of exactly the announced length, made up of the bytes behind the length field,
/// and does so with the very read that brings the last of them.
pub proof fn law_completed_payload_is_as_announced(received: Seq<u8>, read: Seq<u8>)
    requires
        frame_state(received) is Pending,
        0 < read.len() <= missing_len(received),
    ensures
        ({
            let all = received + read;
            match frame_state(all) {
                FrameState::Complete(payload) => {
                    &&& all.len() > 2
                    &&& payload.len() == all[0] * 256 + all[1]
                    &&& all == seq![all[0], all[1]] + payload
                },
                FrameState::Rejected => all.len() == 2 && all[0] == 0 && all[1] == 0,
                FrameState::Pending => all.len() >= 2 ==> all.len() < 2 + all[0] * 256 + all[1],
            }
        }),
{
    let all = received + read;
    if received.len() >= 2 {
        assert(all[0] == received[0] && all[1] == received[1]);
    }
    if let FrameState::Complete(payload) = frame_state(all) {
        assert(all =~= seq![all[0], all[1]] + payload);
    }
}

/// What is said of a read tells its outcome, and a completed payload in full.
pub proof fn law_progress_shows_its_payload(progress: FrameProgress)
    ensures
        match progress {
            FrameProgress::Pending => progress@ is Pending,
            FrameProgress::Complete(payload) => progress@ matches FrameState::Complete(told) && told
                == payload@,
            FrameProgress::Rejected => progress@ is Rejected,
        },
{
}

/// A length field of zero is refused as soon as it has arrived, whatever comes
/// behind it, and no other length field is.
pub proof fn law_zero_length_alone_is_rejected(received: Seq<u8>)
    ensures
        frame_state(received) is Rejected <==> received.len() >= 2 && received[0] == 0
            && received[1] == 0,
{
}

/// The bytes that `chunks` bring, one behind the other.
pub open spec fn joined(chunks: Seq<Seq<u8>>) -> Seq<u8>
    decreases chunks.len(),
{
    if chunks.len() == 0 {
        Seq::empty()
    } else {
        joined(chunks.drop_last()) + chunks.last()
    }
}

proof fn lemma_joined_prefix(chunks: Seq<Seq<u8>>, count: int)
    requires
        0 <= count <= chunks.len(),
        forall|i: int| 0 <= i < chunks.len() ==> (#[trigger] chunks[i]).len() > 0,
    ensures
        joined(chunks.take(count)).len() <= joined(chunks).len(),
        joined(chunks.take(count)) == joined(chunks).take(joined(chunks.take(count)).len() as int),
        count < chunks.len() ==> joined(chunks.take(count)).len() < joined(chunks).len(),
    decreases chunks.len() - count,
{
    if count == chunks.len() {
        assert(chunks.take(count) =~= chunks);
        assert(joined(chunks).take(joined(chunks).len() as int) =~= joined(chunks));
    } else {
        lemma_joined_prefix(chunks, count + 1);
        let longer = chunks.take(count + 1);
        assert(longer.drop_last() =~= chunks.take(count));
        assert(longer.last() == chunks[count]);
        let shorter = joined(chunks.take(count));
        assert(joined(longer) == shorter + chunks[count]);
        assert(shorter =~= joined(longer).take(shorter.len() as int));
        assert(joined(chunks).take(shorter.len() as int) =~= joined(longer).take(
            shorter.len() as int,
        ));
    }
}

/// It does not matter how a stream cuts a frame into reads: every read but the
/// last leaves the frame pending, the last one completes it.
pub proof fn law_cuts_do_not_matter(payload: Seq<u8>, chunks: Seq<Seq<u8>>, count: int)
    requires
        0 < payload.len() <= crate::peer_connection::stun::MAX_LENGTH,
        joined(chunks) == encode_frame(payload),
        forall|i: int| 0 <= i < chunks.len() ==> (#[trigger] chunks[i]).len() > 0,
        0 <= count < chunks.len(),
    ensures
        frame_state(joined(chunks.take(count))) is Pending,
        frame_state(joined(chunks)) == FrameState::Complete(payload),
{
    lemma_joined_prefix(chunks, count);
    law_frame_yields_its_payload(payload, joined(chunks.take(count)).len() as int);
}

} // verus!
