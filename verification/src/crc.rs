//! Mathematical model of the CRC-16 engine: initial register `0xFFFF`,
//! polynomial `0x1021`, no finalization step. The executable computation
//! lives in [`crate::packet::Packet::calculate_crc16`] and is proved equal
//! to [`crc16`].

use vstd::prelude::*;

use crate::PACKET_CRC_POLYNOMIAL;

verus! {

/// One register step: shift left, folding the polynomial in when the high
/// bit was set.
pub open spec fn crc16_step(crc: u16) -> u16 {
    if crc & 0x8000 != 0 {
        (crc << 1) ^ PACKET_CRC_POLYNOMIAL
    } else {
        crc << 1
    }
}

/// The register after `k` steps.
pub open spec fn crc16_steps(crc: u16, k: nat) -> u16
    decreases k,
{
    if k == 0 {
        crc
    } else {
        crc16_step(crc16_steps(crc, (k - 1) as nat))
    }
}

/// Folding one input byte into the register: xor it into the high half,
/// then run eight steps.
pub open spec fn crc16_push(crc: u16, byte: u8) -> u16 {
    crc16_steps(crc ^ ((byte as u16) << 8), 8)
}

/// The CRC-16 of a byte sequence, one byte at a time from the front.
pub open spec fn crc16(data: Seq<u8>) -> u16
    decreases data.len(),
{
    if data.len() == 0 {
        0xFFFF
    } else {
        crc16_push(crc16(data.drop_last()), data.last())
    }
}

/// On an empty input the register is never touched, so the CRC equals the
/// initial value.
pub proof fn lemma_crc16_empty()
    ensures
        crc16(Seq::<u8>::empty()) == 0xFFFF,
{
}

} // verus!
