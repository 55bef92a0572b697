//! A point-to-point binary packet framing codec for byte-oriented transports.
//!
//! A frame is laid out as: start marker, identifier, payload length, payload,
//! CRC-16 (big-endian, over the payload only), end marker. Payload bytes may
//! not equal either marker value; there is no escaping mechanism, so frames
//! holding such bytes are rejected rather than re-encoded.

use vstd::prelude::*;

pub mod crc;
pub mod packet;
pub mod reader;

pub use crc::crc16;
pub use packet::Packet;
pub use packet::PacketByteLocations;
pub use packet::PacketHandler;
pub use packet::PacketState;
pub use packet::PacketValidationError;
pub use reader::read_one_packet;
pub use reader::StreamReader;

verus! {

/// First byte of every frame.
pub const PACKET_START_BYTE: u8 = 0x7E;

/// Last byte of every frame.
pub const PACKET_END_BYTE: u8 = 0x7F;

/// Smallest possible frame: header, empty payload, CRC, footer.
pub const MIN_PACKET_LENGTH: usize = 6;

/// Largest buffer the stream reader will accumulate before resynchronizing.
pub const MAX_PACKET_LENGTH: usize = 1024;

/// Start marker, identifier and payload length bytes.
pub const PACKET_HEADER_SIZE: usize = 3;

/// The end marker byte.
pub const PACKET_FOOTER_SIZE: usize = 1;

/// The two CRC bytes that follow the payload.
pub const CRC_LENGTH: usize = 2;

/// Polynomial of the CRC-16 variant used by the codec.
pub const PACKET_CRC_POLYNOMIAL: u16 = 0x1021;

/// Identifier reserved for protocol packets rather than data packets.
pub const PROTOCOL_PACKET_IDENTIFIER: u8 = 0xFF;

/// The maximum number of identifiers equals the highest possible identifier.
pub const MAX_NUM_IDENTIFIERS: u8 = 0xFF;

} // verus!
