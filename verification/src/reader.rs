//! The stream synchronizer: discards noise until a start marker appears,
//! accumulates one candidate frame, and hands it to the validator.
//!
//! Each extraction performs its own full resynchronize-then-accumulate
//! cycle, so a malformed frame never corrupts later reads. A run of
//! [`crate::MAX_PACKET_LENGTH`] bytes without an end marker is abandoned
//! and synchronization starts over on the bytes that follow it.

use vstd::prelude::*;

use crate::packet::packet_from;
use crate::packet::validate_spec;
use crate::packet::Packet;
use crate::packet::PacketValidationError;
use crate::MAX_PACKET_LENGTH;
use crate::PACKET_END_BYTE;
use crate::PACKET_START_BYTE;

verus! {

/// Continues an accumulation whose buffer so far is `buf` over the
/// remaining stream bytes `rest`: the frame ends at the next end marker,
/// a full-length buffer without one is abandoned and synchronization
/// starts over, and a stream that runs out first yields nothing.
pub open spec fn accumulate_spec(buf: Seq<u8>, rest: Seq<u8>) -> Option<Seq<u8>>
    decreases rest.len(),
{
    if rest.len() == 0 {
        None
    } else if rest[0] == PACKET_END_BYTE {
        Some(buf.push(PACKET_END_BYTE))
    } else if buf.len() + 1 >= MAX_PACKET_LENGTH {
        extract_frame(rest.skip(1))
    } else {
        accumulate_spec(buf.push(rest[0]), rest.skip(1))
    }
}

/// The candidate frame the synchronizer extracts from `stream`: bytes up
/// to the first start marker are discarded, then the frame runs to the
/// next end marker; `None` when the stream ends before a frame completes.
pub open spec fn extract_frame(stream: Seq<u8>) -> Option<Seq<u8>>
    decreases stream.len(),
{
    if stream.len() == 0 {
        None
    } else if stream[0] == PACKET_START_BYTE {
        accumulate_spec(seq![PACKET_START_BYTE], stream.skip(1))
    } else {
        extract_frame(stream.skip(1))
    }
}

/// Resynchronization: bytes ahead of the first start marker have no say
/// in what the synchronizer extracts: a stream with marker-free noise in
/// front yields exactly the frame of the stream with the noise stripped.
pub proof fn lemma_resync_skips_noise(noise: Seq<u8>, rest: Seq<u8>)
    requires
        forall|i: int| 0 <= i < noise.len() ==> #[trigger] noise[i] != PACKET_START_BYTE,
    ensures
        extract_frame(noise + rest) == extract_frame(rest),
    decreases noise.len(),
{
    if noise.len() == 0 {
        assert(noise + rest =~= rest);
    } else {
        assert((noise + rest)[0] == noise[0]);
        assert((noise + rest).skip(1) =~= noise.skip(1) + rest);
        lemma_resync_skips_noise(noise.skip(1), rest);
    }
}

/// Byte-at-a-time synchronizer state: before the start marker it discards
/// input, after it it accumulates one candidate frame.
pub struct StreamReader {
    pub buffer: Vec<u8>,
    pub synced: bool,
}

impl StreamReader {
    /// Between calls the reader is either still seeking (empty buffer) or
    /// mid-frame: a start marker followed by bytes none of which is the
    /// end marker, with room left to grow.
    pub open spec fn wf(self) -> bool {
        if self.synced {
            &&& 1 <= self.buffer@.len() < MAX_PACKET_LENGTH
            &&& self.buffer@[0] == PACKET_START_BYTE
            &&& forall|i: int| 0 <= i < self.buffer@.len() ==> self.buffer@[i] != PACKET_END_BYTE
        } else {
            self.buffer@.len() == 0
        }
    }

    /// A finished accumulation: start marker first, end marker last,
    /// within the size bound.
    pub open spec fn complete_frame(self) -> bool {
        &&& 2 <= self.buffer@.len() <= MAX_PACKET_LENGTH
        &&& self.buffer@[0] == PACKET_START_BYTE
        &&& self.buffer@.last() == PACKET_END_BYTE
    }

    /// A reader that has seen nothing yet.
    pub fn new() -> (r: StreamReader)
        ensures
            r.wf(),
            !r.synced,
            r.buffer@.len() == 0,
    {
        StreamReader { buffer: Vec::new(), synced: false }
    }

    /// Feeds one stream byte to the synchronizer. Returns true exactly
    /// when the byte completed a candidate frame, which then waits in the
    /// buffer for [`StreamReader::finish`].
    pub fn push_byte(&mut self, byte: u8) -> (complete: bool)
        requires
            old(self).wf(),
        ensures
            !old(self).synced && byte == PACKET_START_BYTE ==> !complete && final(self).synced
                && final(self).buffer@ == seq![PACKET_START_BYTE],
            !old(self).synced && byte != PACKET_START_BYTE ==> !complete && !final(self).synced
                && final(self).buffer@ == Seq::<u8>::empty(),
            old(self).synced && byte == PACKET_END_BYTE ==> complete && final(self).buffer@ == old(
                self,
            ).buffer@.push(byte),
            old(self).synced && byte != PACKET_END_BYTE && old(self).buffer@.len() + 1
                >= MAX_PACKET_LENGTH ==> !complete && !final(self).synced && final(self).buffer@
                == Seq::<u8>::empty(),
            old(self).synced && byte != PACKET_END_BYTE && old(self).buffer@.len() + 1
                < MAX_PACKET_LENGTH ==> !complete && final(self).synced && final(self).buffer@
                == old(self).buffer@.push(byte),
            complete ==> final(self).complete_frame(),
            !complete ==> final(self).wf(),
    {
        if !self.synced {
            if byte == PACKET_START_BYTE {
                self.buffer.push(byte);
                self.synced = true;
                proof {
                    assert(self.buffer@ =~= seq![PACKET_START_BYTE]);
                }
            }
            false
        } else {
            self.buffer.push(byte);
            if byte == PACKET_END_BYTE {
                true
            } else {
                if self.buffer.len() >= MAX_PACKET_LENGTH {
                    self.buffer.clear();
                    self.synced = false;
                }
                false
            }
        }
    }

    /// Hands the accumulated buffer to the validator and builds the packet
    /// from it, as [`Packet::from_buffer`] does.
    pub fn finish(self) -> (r: Result<Packet, PacketValidationError>)
        ensures
            match r {
                Ok(p) => validate_spec(self.buffer@) == Ok::<(), PacketValidationError>(())
                    && packet_from(p, self.buffer@),
                Err(e) => validate_spec(self.buffer@) == Err::<(), PacketValidationError>(e),
            },
    {
        Packet::from_buffer(self.buffer)
    }
}

/// Extracts one frame from an in-memory byte stream and validates it:
/// leading noise is discarded, the frame the synchronizer settles on is
/// validated and decoded, and a stream that ends before a frame completes
/// is a schema violation.
pub fn read_one_packet(stream: &[u8]) -> (r: Result<Packet, PacketValidationError>)
    ensures
        extract_frame(stream@) is None ==> r == Err::<Packet, PacketValidationError>(
            PacketValidationError::SchemaError,
        ),
        extract_frame(stream@) matches Some(f) ==> (match r {
            Ok(p) => validate_spec(f) == Ok::<(), PacketValidationError>(()) && packet_from(p, f),
            Err(e) => validate_spec(f) == Err::<(), PacketValidationError>(e),
        }),
{
    let mut reader = StreamReader::new();
    let mut k: usize = 0;

    proof {
        assert(stream@.skip(0) =~= stream@);
    }

    while k < stream.len()
        invariant
            k <= stream@.len(),
            reader.wf(),
            reader.synced ==> extract_frame(stream@) == accumulate_spec(
                reader.buffer@,
                stream@.skip(k as int),
            ),
            !reader.synced ==> extract_frame(stream@) == extract_frame(stream@.skip(k as int)),
        decreases stream@.len() - k,
    {
        let ghost k0 = k as int;
        let ghost before = reader;
        let byte = stream[k];
        let complete = reader.push_byte(byte);
        k = k + 1;

        proof {
            assert(stream@.skip(k0)[0] == stream@[k0]);
            assert(stream@.skip(k0).skip(1) =~= stream@.skip(k0 + 1));
        }

        if complete {
            proof {
                assert(extract_frame(stream@) == Some(reader.buffer@));
            }
            return reader.finish();
        }
    }

    proof {
        assert(stream@.skip(stream@.len() as int) =~= Seq::<u8>::empty());
        assert(extract_frame(stream@) is None);
    }
    Err(PacketValidationError::SchemaError)
}

} // verus!
