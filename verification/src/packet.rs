//! The frame layout, the validator state machine, and the packet compiler.

use vstd::prelude::*;

use crate::crc::crc16;
use crate::crc::crc16_push;
use crate::crc::crc16_steps;
use crate::CRC_LENGTH;
use crate::MAX_PACKET_LENGTH;
use crate::MIN_PACKET_LENGTH;
use crate::PACKET_CRC_POLYNOMIAL;
use crate::PACKET_END_BYTE;
use crate::PACKET_FOOTER_SIZE;
use crate::PACKET_HEADER_SIZE;
use crate::PACKET_START_BYTE;

verus! {

/// Offsets of the fixed header fields inside a frame.
#[derive(Clone, Copy, Debug)]
pub enum PacketByteLocations {
    PacketIdentifierLoc,
    PacketLengthLoc,
    PacketPayloadStartLoc,
}

impl PacketByteLocations {
    /// The byte offset this location names.
    pub open spec fn spec_offset(self) -> usize {
        match self {
            PacketByteLocations::PacketIdentifierLoc => 1,
            PacketByteLocations::PacketLengthLoc => 2,
            PacketByteLocations::PacketPayloadStartLoc => 3,
        }
    }

    /// The byte offset this location names.
    pub fn offset(self) -> (r: usize)
        ensures
            r == self.spec_offset(),
    {
        match self {
            PacketByteLocations::PacketIdentifierLoc => 1,
            PacketByteLocations::PacketLengthLoc => 2,
            PacketByteLocations::PacketPayloadStartLoc => 3,
        }
    }
}

/// How a candidate buffer failed validation.
///
/// `SchemaError` is a structural violation, `LengthError` a declared length
/// inconsistent with the bytes at hand (or a reserved byte inside the
/// payload), and `CrcError` a well-formed frame whose checksum disagrees.
#[derive(Clone, Copy, Debug, PartialEq, Eq, Structural)]
pub enum PacketValidationError {
    SchemaError,
    LengthError,
    CrcError,
}

/// The states of the validator, in the strict linear order it walks them.
#[derive(Clone, Copy, Debug, PartialEq, Eq, Structural)]
pub enum PacketState {
    StartByte,
    CmdByte,
    PacketLengthByte,
    PacketDataBytes,
    CrcBytes,
    EndByte,
    PacketComplete,
}

/// One validated (or to-be-compiled) frame together with its on-wire bytes.
#[derive(Clone, Debug, PartialEq, Eq)]
pub struct Packet {
    pub buffer: Vec<u8>,
    pub packet_ident: u8,
    pub payload_length: u8,
    pub payload: Vec<u8>,
    pub packet_buffer: Vec<u8>,
}

/// Receives validated packets for one identifier; implemented by the
/// application, outside the codec.
pub trait PacketHandler {
    fn handle_packet(&mut self, packet: &Packet) -> Result<(), String>;

    fn get_packet_id(&self) -> u8;
}

/// The payload bytes of a frame: everything between the header and the CRC.
pub open spec fn payload_of(b: Seq<u8>) -> Seq<u8> {
    b.subrange(3, 3 + b[2] as int)
}

/// What the validator returns on a candidate buffer, stated as one
/// condition per state of the machine. Trailing bytes after the end marker
/// are never inspected.
pub open spec fn validate_spec(b: Seq<u8>) -> Result<(), PacketValidationError> {
    if b.len() < MIN_PACKET_LENGTH {
        Err(PacketValidationError::SchemaError)
    } else if b[0] != PACKET_START_BYTE {
        Err(PacketValidationError::SchemaError)
    } else if b[1] == PACKET_START_BYTE || b[1] == PACKET_END_BYTE {
        Err(PacketValidationError::SchemaError)
    } else if b[2] as int + PACKET_HEADER_SIZE + CRC_LENGTH + PACKET_FOOTER_SIZE > b.len()
        || b[2] as int + PACKET_HEADER_SIZE + CRC_LENGTH + PACKET_FOOTER_SIZE
            > MAX_PACKET_LENGTH {
        Err(PacketValidationError::LengthError)
    } else if exists|i: int|
        0 <= i < b[2] as int && (#[trigger] b[3 + i] == PACKET_START_BYTE || b[3 + i]
            == PACKET_END_BYTE) {
        Err(PacketValidationError::LengthError)
    } else if crc16(payload_of(b)) != (((b[3 + b[2] as int] as u16) << 8) | (b[4 + b[2] as int]
        as u16)) {
        Err(PacketValidationError::CrcError)
    } else if b[5 + b[2] as int] != PACKET_END_BYTE {
        Err(PacketValidationError::SchemaError)
    } else {
        Ok(())
    }
}

/// The exact on-wire bytes of a frame with the given identifier and
/// payload: header, payload, big-endian CRC of the payload, end marker.
pub open spec fn frame_bytes(ident: u8, payload: Seq<u8>) -> Seq<u8> {
    seq![PACKET_START_BYTE, ident, payload.len() as u8] + payload + seq![
        (crc16(payload) >> 8) as u8,
        (crc16(payload) & 0xFF) as u8,
        PACKET_END_BYTE,
    ]
}

/// A packet whose fields were read off the frame `b` at the fixed offsets.
pub open spec fn packet_from(p: Packet, b: Seq<u8>) -> bool {
    &&& p.buffer@ == b
    &&& p.packet_ident == b[1]
    &&& p.payload_length == b[2]
    &&& p.payload@ == payload_of(b)
    &&& p.packet_buffer@ == b
}

impl Packet {
    /// The structural agreement between the fields that [`Packet::new`]
    /// establishes and [`Packet::compile`] relies on: the payload length
    /// field counts the payload bytes, and the transmit buffer has exactly
    /// one frame's room.
    pub open spec fn wf(self) -> bool {
        &&& self.payload@.len() == self.payload_length as int
        &&& self.buffer@.len() == PACKET_HEADER_SIZE + self.payload_length as int + CRC_LENGTH
            + PACKET_FOOTER_SIZE
    }

    /// CRC-16 of `payload`, equal to the specification-level [`crc16`].
    pub fn calculate_crc16(payload: &[u8]) -> (r: u16)
        ensures
            r == crc16(payload@),
    {
        let mut crc: u16 = 0xFFFF;
        let polynomial: u16 = PACKET_CRC_POLYNOMIAL;

        let mut i: usize = 0;
        while i < payload.len()
            invariant
                i <= payload@.len(),
                polynomial == PACKET_CRC_POLYNOMIAL,
                crc == crc16(payload@.take(i as int)),
            decreases payload@.len() - i,
        {
            let byte = payload[i];
            crc = crc ^ ((byte as u16) << 8);
            let ghost folded = crc;

            let mut round: usize = 0;
            while round < 8
                invariant
                    round <= 8,
                    polynomial == PACKET_CRC_POLYNOMIAL,
                    crc == crc16_steps(folded, round as nat),
                decreases 8 - round,
            {
                if crc & 0x8000 != 0 {
                    crc = (crc << 1) ^ polynomial;
                } else {
                    crc = crc << 1;
                }
                round = round + 1;
            }

            proof {
                assert(payload@.take(i + 1).drop_last() =~= payload@.take(i as int));
                assert(payload@.take(i + 1).last() == payload@[i as int]);
                assert(crc == crc16_push(crc16(payload@.take(i as int)), payload@[i as int]));
            }
            i = i + 1;
        }
        proof {
            assert(payload@.take(payload@.len() as int) =~= payload@);
        }
        crc
    }

    /// Walks the candidate `buffer` through the validator state machine and
    /// returns `Ok` exactly when it is a well-formed frame, with the error
    /// kind of the first violation otherwise.
    pub fn validate_packet(buffer: &[u8]) -> (r: Result<(), PacketValidationError>)
        ensures
            r == validate_spec(buffer@),
    {
        if buffer.len() < MIN_PACKET_LENGTH {
            return Err(PacketValidationError::SchemaError);
        }

        let ghost n = buffer@[2] as int;
        let mut current_byte: usize = 0;
        let mut state: PacketState = PacketState::StartByte;

        while current_byte < buffer.len() && state != PacketState::PacketComplete
            invariant
                buffer@.len() >= MIN_PACKET_LENGTH,
                n == buffer@[2] as int,
                state == PacketState::StartByte ==> current_byte == 0,
                state == PacketState::CmdByte ==> current_byte == 1 && buffer@[0]
                    == PACKET_START_BYTE,
                state == PacketState::PacketLengthByte ==> current_byte == 2 && buffer@[0]
                    == PACKET_START_BYTE && buffer@[1] != PACKET_START_BYTE && buffer@[1]
                    != PACKET_END_BYTE,
                state == PacketState::PacketDataBytes ==> current_byte == 3 && buffer@[0]
                    == PACKET_START_BYTE && buffer@[1] != PACKET_START_BYTE && buffer@[1]
                    != PACKET_END_BYTE && n + 6 <= buffer@.len(),
                state == PacketState::CrcBytes ==> current_byte == 3 + n && buffer@[0]
                    == PACKET_START_BYTE && buffer@[1] != PACKET_START_BYTE && buffer@[1]
                    != PACKET_END_BYTE && n + 6 <= buffer@.len() && (forall|j: int|
                    0 <= j < n ==> #[trigger] buffer@[3 + j] != PACKET_START_BYTE && buffer@[3
                        + j] != PACKET_END_BYTE),
                state == PacketState::EndByte ==> current_byte == 5 + n && buffer@[0]
                    == PACKET_START_BYTE && buffer@[1] != PACKET_START_BYTE && buffer@[1]
                    != PACKET_END_BYTE && n + 6 <= buffer@.len() && (forall|j: int|
                    0 <= j < n ==> #[trigger] buffer@[3 + j] != PACKET_START_BYTE && buffer@[3
                        + j] != PACKET_END_BYTE) && crc16(payload_of(buffer@)) == (((buffer@[3
                    + n] as u16) << 8) | (buffer@[4 + n] as u16)),
                state == PacketState::PacketComplete ==> validate_spec(buffer@) == Ok::<
                    (),
                    PacketValidationError,
                >(()),
            decreases state.rank(),
        {
            let byte = buffer[current_byte];

            match state {
                PacketState::StartByte => {
                    if byte != PACKET_START_BYTE || current_byte != 0 {
                        return Err(PacketValidationError::SchemaError);
                    }
                    state = PacketState::CmdByte;
                    current_byte = current_byte + 1;
                },
                PacketState::CmdByte => {
                    if byte == PACKET_START_BYTE || byte == PACKET_END_BYTE || current_byte != 1 {
                        return Err(PacketValidationError::SchemaError);
                    }
                    state = PacketState::PacketLengthByte;
                    current_byte = current_byte + 1;
                },
                PacketState::PacketLengthByte => {
                    if current_byte != 2 {
                        return Err(PacketValidationError::SchemaError);
                    }
                    let payload_length = byte as usize;
                    if payload_length + PACKET_HEADER_SIZE + CRC_LENGTH + PACKET_FOOTER_SIZE
                        > buffer.len() || payload_length + PACKET_HEADER_SIZE + CRC_LENGTH
                        + PACKET_FOOTER_SIZE > MAX_PACKET_LENGTH {
                        return Err(PacketValidationError::LengthError);
                    }
                    state = PacketState::PacketDataBytes;
                    current_byte = current_byte + 1;
                },
                PacketState::PacketDataBytes => {
                    let payload_length = buffer[2] as usize;
                    let mut i: usize = 0;
                    while i < payload_length
                        invariant
                            i <= payload_length,
                            payload_length == n,
                            n == buffer@[2] as int,
                            current_byte == 3,
                            buffer@.len() >= MIN_PACKET_LENGTH,
                            n + 6 <= buffer@.len(),
                            buffer@[0] == PACKET_START_BYTE,
                            buffer@[1] != PACKET_START_BYTE,
                            buffer@[1] != PACKET_END_BYTE,
                            forall|j: int|
                                0 <= j < i ==> #[trigger] buffer@[3 + j] != PACKET_START_BYTE
                                    && buffer@[3 + j] != PACKET_END_BYTE,
                        decreases payload_length - i,
                    {
                        if buffer[current_byte + i] == PACKET_START_BYTE || buffer[current_byte + i]
                            == PACKET_END_BYTE {
                            return Err(PacketValidationError::LengthError);
                        }
                        i = i + 1;
                    }
                    current_byte = current_byte + payload_length;
                    state = PacketState::CrcBytes;
                },
                PacketState::CrcBytes => {
                    if current_byte + 2 > buffer.len() {
                        return Err(PacketValidationError::SchemaError);
                    }
                    let payload_length = buffer[2] as usize;
                    let crc16_val = Packet::calculate_crc16(&buffer[3..3 + payload_length]);
                    let received_crc16 = ((buffer[current_byte] as u16) << 8) | (buffer[current_byte
                        + 1] as u16);
                    if crc16_val != received_crc16 {
                        return Err(PacketValidationError::CrcError);
                    }
                    current_byte = current_byte + 2;
                    state = PacketState::EndByte;
                },
                PacketState::EndByte => {
                    if byte != PACKET_END_BYTE {
                        return Err(PacketValidationError::SchemaError);
                    }
                    state = PacketState::PacketComplete;
                    current_byte = current_byte + 1;
                },
                PacketState::PacketComplete => {},
            }
        }

        if state == PacketState::PacketComplete {
            Ok(())
        } else {
            Err(PacketValidationError::SchemaError)
        }
    }

    /// Builds a packet around `payload`, with a zeroed transmit buffer of
    /// exactly one frame's size, ready for [`Packet::compile`].
    pub fn new(packet_ident: u8, payload: Vec<u8>, packet_buffer: Vec<u8>) -> (p: Packet)
        requires
            payload@.len() <= 255,
        ensures
            p.wf(),
            p.packet_ident == packet_ident,
            p.payload_length as int == payload@.len(),
            p.payload == payload,
            p.packet_buffer == packet_buffer,
            forall|i: int| 0 <= i < p.buffer@.len() ==> p.buffer@[i] == 0u8,
    {
        let payload_length: u8 = payload.len() as u8;
        let total: usize = PACKET_HEADER_SIZE + payload_length as usize + CRC_LENGTH
            + PACKET_FOOTER_SIZE;
        let mut buffer: Vec<u8> = Vec::new();
        while buffer.len() < total
            invariant
                buffer@.len() <= total,
                forall|i: int| 0 <= i < buffer@.len() ==> buffer@[i] == 0u8,
            decreases total - buffer@.len(),
        {
            buffer.push(0);
        }

        Packet { buffer, packet_ident, payload_length, payload, packet_buffer }
    }

    /// Serializes the packet into its transmit buffer: start marker,
    /// identifier, length, payload, big-endian CRC of the payload, end
    /// marker. Returns the number of bytes written, always the whole
    /// buffer.
    pub fn compile(&mut self) -> (written: usize)
        requires
            old(self).wf(),
        ensures
            final(self).wf(),
            final(self).buffer@ == frame_bytes(old(self).packet_ident, old(self).payload@),
            final(self).packet_ident == old(self).packet_ident,
            final(self).payload_length == old(self).payload_length,
            final(self).payload == old(self).payload,
            final(self).packet_buffer == old(self).packet_buffer,
            written == final(self).buffer@.len(),
    {
        let ghost orig = *self;
        let payload_start: usize = PacketByteLocations::PacketPayloadStartLoc.offset();
        let payload_length: usize = self.payload_length as usize;

        self.buffer[0] = PACKET_START_BYTE;
        self.buffer[1] = self.packet_ident;
        self.buffer[2] = self.payload_length;

        let mut i: usize = 0;
        while i < payload_length
            invariant
                i <= payload_length,
                payload_start == 3,
                payload_length == orig.payload_length as int,
                orig.wf(),
                self.packet_ident == orig.packet_ident,
                self.payload_length == orig.payload_length,
                self.payload == orig.payload,
                self.packet_buffer == orig.packet_buffer,
                self.buffer@.len() == orig.buffer@.len(),
                self.buffer@[0] == PACKET_START_BYTE,
                self.buffer@[1] == orig.packet_ident,
                self.buffer@[2] == orig.payload_length,
                forall|j: int| 0 <= j < i ==> #[trigger] self.buffer@[3 + j] == orig.payload@[j],
            decreases payload_length - i,
        {
            self.buffer[payload_start + i] = self.payload[i];
            i = i + 1;
        }

        let crc16_val: u16 = Packet::calculate_crc16(self.payload.as_slice());

        self.buffer[payload_start + payload_length] = (crc16_val >> 8) as u8;
        self.buffer[payload_start + payload_length + 1] = (crc16_val & 0xFF) as u8;
        self.buffer[payload_start + payload_length + 2] = PACKET_END_BYTE;

        proof {
            let fb = frame_bytes(orig.packet_ident, orig.payload@);
            let n = orig.payload_length as int;
            assert(orig.payload@.len() == n);
            assert(fb.len() == n + 6);
            assert(self.buffer@.len() == n + 6);
            assert(fb[0] == PACKET_START_BYTE);
            assert(fb[1] == orig.packet_ident);
            assert(fb[2] == orig.payload_length);
            assert(forall|j: int| 0 <= j < n ==> fb[3 + j] == orig.payload@[j]);
            assert(fb[3 + n] == (crc16(orig.payload@) >> 8) as u8);
            assert(fb[4 + n] == (crc16(orig.payload@) & 0xFF) as u8);
            assert(fb[5 + n] == PACKET_END_BYTE);
            assert(self.buffer@ =~= fb);
        }

        PACKET_HEADER_SIZE + payload_length + CRC_LENGTH + PACKET_FOOTER_SIZE
    }

    /// Validates `buffer` and, on success, reads the packet fields off the
    /// fixed frame offsets; the validation error passes through otherwise.
    pub fn from_buffer(buffer: Vec<u8>) -> (r: Result<Packet, PacketValidationError>)
        ensures
            match r {
                Ok(p) => validate_spec(buffer@) == Ok::<(), PacketValidationError>(())
                    && packet_from(p, buffer@),
                Err(e) => validate_spec(buffer@) == Err::<(), PacketValidationError>(e),
            },
    {
        match Packet::validate_packet(buffer.as_slice()) {
            Ok(()) => {
                let payload_length: usize = buffer[PacketByteLocations::PacketLengthLoc.offset()]
                    as usize;
                let payload_start: usize = PacketByteLocations::PacketPayloadStartLoc.offset();
                let payload: Vec<u8> = vstd::slice::slice_to_vec(
                    &buffer.as_slice()[payload_start..payload_start + payload_length],
                );
                let packet_buffer: Vec<u8> = vstd::slice::slice_to_vec(buffer.as_slice());
                let p = Packet {
                    packet_ident: buffer[PacketByteLocations::PacketIdentifierLoc.offset()],
                    payload_length: buffer[PacketByteLocations::PacketLengthLoc.offset()],
                    payload,
                    packet_buffer,
                    buffer,
                };
                Ok(p)
            },
            Err(e) => Err(e),
        }
    }
}

/// Round trip: a frame compiled from an identifier that collides with
/// neither marker and a payload of at most 251 marker-free bytes always
/// validates, and the identifier and payload can be read back off it
/// exactly.
pub proof fn lemma_round_trip(ident: u8, payload: Seq<u8>)
    requires
        ident != PACKET_START_BYTE,
        ident != PACKET_END_BYTE,
        payload.len() <= 251,
        forall|i: int|
            0 <= i < payload.len() ==> #[trigger] payload[i] != PACKET_START_BYTE && payload[i]
                != PACKET_END_BYTE,
    ensures
        validate_spec(frame_bytes(ident, payload)) == Ok::<(), PacketValidationError>(()),
        frame_bytes(ident, payload)[1] == ident,
        payload_of(frame_bytes(ident, payload)) == payload,
{
    let b = frame_bytes(ident, payload);
    let n = payload.len() as int;
    assert(b.len() == n + 6);
    assert(b[0] == PACKET_START_BYTE);
    assert(b[1] == ident);
    assert(b[2] == n as u8);
    assert(b[2] as int == n);
    assert(forall|j: int| 0 <= j < n ==> b[3 + j] == #[trigger] payload[j]);
    assert(payload_of(b) =~= payload);
    let c = crc16(payload);
    assert(b[3 + n] == (c >> 8) as u8);
    assert(b[4 + n] == (c & 0xFF) as u8);
    assert(((((c >> 8) as u8) as u16) << 8) | (((c & 0xFF) as u8) as u16) == c) by (bit_vector);
    assert(b[5 + n] == PACKET_END_BYTE);
}

/// Truncation: cutting a compiled frame anywhere before its end marker
/// leaves a buffer the validator rejects as a schema or length violation,
/// never accepts.
pub proof fn lemma_truncation(ident: u8, payload: Seq<u8>, k: int)
    requires
        ident != PACKET_START_BYTE,
        ident != PACKET_END_BYTE,
        payload.len() <= 251,
        forall|i: int|
            0 <= i < payload.len() ==> #[trigger] payload[i] != PACKET_START_BYTE && payload[i]
                != PACKET_END_BYTE,
        0 <= k < frame_bytes(ident, payload).len(),
    ensures
        validate_spec(frame_bytes(ident, payload).subrange(0, k)) == Err::<
            (),
            PacketValidationError,
        >(PacketValidationError::SchemaError) || validate_spec(
            frame_bytes(ident, payload).subrange(0, k),
        ) == Err::<(), PacketValidationError>(PacketValidationError::LengthError),
{
    let b = frame_bytes(ident, payload);
    let n = payload.len() as int;
    let t = b.subrange(0, k);
    assert(t.len() == k);
    if k < MIN_PACKET_LENGTH {
        assert(validate_spec(t) == Err::<(), PacketValidationError>(
            PacketValidationError::SchemaError,
        ));
    } else {
        assert(t[0] == PACKET_START_BYTE);
        assert(t[1] == ident);
        assert(t[2] as int == n);
        assert(t[2] as int + PACKET_HEADER_SIZE + CRC_LENGTH + PACKET_FOOTER_SIZE > t.len());
        assert(validate_spec(t) == Err::<(), PacketValidationError>(
            PacketValidationError::LengthError,
        ));
    }
}

/// The inverse of the round trip: a buffer the validator accepts that has
/// no bytes after its end marker is, byte for byte, the frame compiled
/// from the identifier and payload read off it: validation pins the
/// whole frame, so a packet's raw buffer can be retransmitted without
/// recompilation.
pub proof fn lemma_validated_frame_is_compiled(b: Seq<u8>)
    requires
        validate_spec(b) == Ok::<(), PacketValidationError>(()),
        b.len() == b[2] as int + PACKET_HEADER_SIZE + CRC_LENGTH + PACKET_FOOTER_SIZE,
    ensures
        b == frame_bytes(b[1], payload_of(b)),
{
    let n = b[2] as int;
    let p = payload_of(b);
    assert(p.len() == n);
    assert(p.len() as u8 == b[2]);
    let c = crc16(p);
    let hi = b[3 + n];
    let lo = b[4 + n];
    assert(c == (((hi as u16) << 8) | (lo as u16)));
    assert(((((((hi as u16) << 8) | (lo as u16))) >> 8) as u8 == hi) && (((((hi as u16) << 8) | (
    lo as u16)) & 0xFF) as u8 == lo)) by (bit_vector);
    assert(forall|j: int| 0 <= j < n ==> #[trigger] p[j] == b[3 + j]);
    assert(b =~= frame_bytes(b[1], p));
}

/// A buffer whose declared payload length, summed with the header, CRC and
/// footer sizes, exceeds the buffer's own length is rejected as a length
/// violation, provided the bytes ahead of the length field pass their
/// checks.
pub proof fn lemma_declared_length_overrun(b: Seq<u8>)
    requires
        b.len() >= MIN_PACKET_LENGTH,
        b[0] == PACKET_START_BYTE,
        b[1] != PACKET_START_BYTE,
        b[1] != PACKET_END_BYTE,
        b[2] as int + PACKET_HEADER_SIZE + CRC_LENGTH + PACKET_FOOTER_SIZE > b.len(),
    ensures
        validate_spec(b) == Err::<(), PacketValidationError>(PacketValidationError::LengthError),
{
}

impl PacketState {
    /// How many states are still ahead of this one; the validator's loop
    /// measure.
    pub open spec fn rank(self) -> int {
        match self {
            PacketState::StartByte => 6,
            PacketState::CmdByte => 5,
            PacketState::PacketLengthByte => 4,
            PacketState::PacketDataBytes => 3,
            PacketState::CrcBytes => 2,
            PacketState::EndByte => 1,
            PacketState::PacketComplete => 0,
        }
    }
}

} // verus!
