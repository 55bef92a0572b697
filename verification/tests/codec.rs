use packet_rust::Packet;
use packet_rust::PacketByteLocations;
use packet_rust::PacketValidationError;
use packet_rust::MAX_NUM_IDENTIFIERS;
use packet_rust::MAX_PACKET_LENGTH;
use packet_rust::MIN_PACKET_LENGTH;
use packet_rust::PACKET_END_BYTE;
use packet_rust::PACKET_START_BYTE;
use packet_rust::PROTOCOL_PACKET_IDENTIFIER;

fn compile_frame(ident: u8, payload: Vec<u8>) -> Vec<u8> {
    let mut packet = Packet::new(ident, payload, Vec::new());
    let written = packet.compile();
    assert_eq!(written, packet.buffer.len());
    packet.buffer
}

#[test]
fn constants_describe_the_layout() {
    assert_eq!(PACKET_START_BYTE, 0x7E);
    assert_eq!(PACKET_END_BYTE, 0x7F);
    assert_eq!(MIN_PACKET_LENGTH, 6);
    assert_eq!(MAX_PACKET_LENGTH, 1024);
    assert_eq!(PROTOCOL_PACKET_IDENTIFIER, 0xFF);
    assert_eq!(MAX_NUM_IDENTIFIERS, 0xFF);
}

#[test]
fn byte_locations_name_the_fixed_offsets() {
    assert_eq!(PacketByteLocations::PacketIdentifierLoc.offset(), 1);
    assert_eq!(PacketByteLocations::PacketLengthLoc.offset(), 2);
    assert_eq!(PacketByteLocations::PacketPayloadStartLoc.offset(), 3);
}

#[test]
fn crc16_of_empty_input_is_initial_value() {
    assert_eq!(Packet::calculate_crc16(&[]), 0xFFFF);
}

#[test]
fn crc16_exact_values() {
    assert_eq!(Packet::calculate_crc16(&[0x42]), 0x8976);
    assert_eq!(Packet::calculate_crc16(&[0xAB, 0xCD]), 0xD46A);
    assert_eq!(Packet::calculate_crc16(&[0x01, 0x02, 0x03]), 0xADAD);
}

#[test]
fn crc16_repeated_calls_agree() {
    let data = [0xDE, 0xAD, 0xBE, 0xEF];
    assert_eq!(Packet::calculate_crc16(&data), Packet::calculate_crc16(&data));
    assert_eq!(Packet::calculate_crc16(&[]), Packet::calculate_crc16(&[]));
}

#[test]
fn compile_example_frame() {
    let buffer = compile_frame(0x01, vec![0xAB, 0xCD]);
    let crc = Packet::calculate_crc16(&[0xAB, 0xCD]);
    assert_eq!(crc, 0xD46A);
    assert_eq!(
        buffer,
        vec![0x7E, 0x01, 0x02, 0xAB, 0xCD, 0xD4, 0x6A, 0x7F],
    );
    assert_eq!(buffer.len(), 8);
    assert!(Packet::validate_packet(&buffer).is_ok());
}

#[test]
fn new_records_the_fields() {
    let packet = Packet::new(0x20, vec![0x10, 0x11, 0x12], vec![0xAA]);
    assert_eq!(packet.packet_ident, 0x20);
    assert_eq!(packet.payload_length, 3);
    assert_eq!(packet.payload, vec![0x10, 0x11, 0x12]);
    assert_eq!(packet.packet_buffer, vec![0xAA]);
    assert_eq!(packet.buffer, vec![0; 9]);
}

#[test]
fn round_trip_simple_payload() {
    let buffer = compile_frame(0x07, vec![0x01, 0x02, 0x03]);
    assert_eq!(Packet::validate_packet(&buffer), Ok(()));
    let packet = Packet::from_buffer(buffer.clone()).unwrap();
    assert_eq!(packet.packet_ident, 0x07);
    assert_eq!(packet.payload_length, 3);
    assert_eq!(packet.payload, vec![0x01, 0x02, 0x03]);
    assert_eq!(packet.buffer, buffer);
    assert_eq!(packet.packet_buffer, buffer);
}

#[test]
fn round_trip_empty_payload() {
    let buffer = compile_frame(0x05, Vec::new());
    assert_eq!(buffer.len(), MIN_PACKET_LENGTH);
    assert_eq!(Packet::validate_packet(&buffer), Ok(()));
    let packet = Packet::from_buffer(buffer).unwrap();
    assert_eq!(packet.payload_length, 0);
    assert!(packet.payload.is_empty());
}

#[test]
fn round_trip_protocol_identifier() {
    let buffer = compile_frame(PROTOCOL_PACKET_IDENTIFIER, vec![0x33]);
    let packet = Packet::from_buffer(buffer).unwrap();
    assert_eq!(packet.packet_ident, PROTOCOL_PACKET_IDENTIFIER);
}

#[test]
fn round_trip_largest_payload() {
    let payload = vec![0x11; 251];
    let buffer = compile_frame(0x09, payload.clone());
    assert_eq!(buffer.len(), 257);
    assert_eq!(Packet::validate_packet(&buffer), Ok(()));
    let packet = Packet::from_buffer(buffer).unwrap();
    assert_eq!(packet.payload, payload);
}

#[test]
fn validate_rejects_short_buffers() {
    assert_eq!(
        Packet::validate_packet(&[]),
        Err(PacketValidationError::SchemaError)
    );
    assert_eq!(
        Packet::validate_packet(&[0x7E, 0x01, 0x00, 0xD4, 0x7F]),
        Err(PacketValidationError::SchemaError)
    );
}

#[test]
fn validate_rejects_wrong_start_marker() {
    let mut buffer = compile_frame(0x01, vec![0xAB, 0xCD]);
    buffer[0] = 0x00;
    assert_eq!(
        Packet::validate_packet(&buffer),
        Err(PacketValidationError::SchemaError)
    );
}

#[test]
fn validate_rejects_marker_valued_identifiers() {
    let mut buffer = compile_frame(0x01, vec![0xAB, 0xCD]);
    buffer[1] = PACKET_START_BYTE;
    assert_eq!(
        Packet::validate_packet(&buffer),
        Err(PacketValidationError::SchemaError)
    );
    buffer[1] = PACKET_END_BYTE;
    assert_eq!(
        Packet::validate_packet(&buffer),
        Err(PacketValidationError::SchemaError)
    );
}

#[test]
fn validate_rejects_declared_length_overrun() {
    let mut buffer = compile_frame(0x01, vec![0xAB, 0xCD]);
    buffer[2] = 0x05;
    assert_eq!(
        Packet::validate_packet(&buffer),
        Err(PacketValidationError::LengthError)
    );
}

#[test]
fn validate_rejects_marker_bytes_inside_payload() {
    for marker in [PACKET_START_BYTE, PACKET_END_BYTE] {
        let mut buffer = compile_frame(0x01, vec![0xAB, 0xCD]);
        buffer[4] = marker;
        assert_eq!(
            Packet::validate_packet(&buffer),
            Err(PacketValidationError::LengthError)
        );
    }
}

#[test]
fn validate_rejects_wrong_checksum() {
    let mut buffer = compile_frame(0x01, vec![0xAB, 0xCD]);
    buffer[5] ^= 0xFF;
    assert_eq!(
        Packet::validate_packet(&buffer),
        Err(PacketValidationError::CrcError)
    );
}

#[test]
fn validate_rejects_wrong_end_marker() {
    let mut buffer = compile_frame(0x01, vec![0xAB, 0xCD]);
    let last = buffer.len() - 1;
    buffer[last] = 0x00;
    assert_eq!(
        Packet::validate_packet(&buffer),
        Err(PacketValidationError::SchemaError)
    );
}

#[test]
fn validate_never_reads_past_the_end_marker() {
    let mut buffer = compile_frame(0x01, vec![0xAB, 0xCD]);
    buffer.extend_from_slice(&[0x00, 0x13, 0x37]);
    assert_eq!(Packet::validate_packet(&buffer), Ok(()));
}

#[test]
fn single_bit_flips_are_detected() {
    let buffer = compile_frame(0x01, vec![0xAB, 0xCD]);
    for index in 3..7 {
        for bit in 0..8 {
            let mut corrupted = buffer.clone();
            corrupted[index] ^= 1 << bit;
            assert_eq!(
                Packet::validate_packet(&corrupted),
                Err(PacketValidationError::CrcError),
                "flip of bit {bit} at index {index} went undetected",
            );
        }
    }
}

#[test]
fn truncation_is_never_accepted() {
    let buffer = compile_frame(0x04, vec![0x0A, 0x0B, 0x0C, 0x0D]);
    for cut in 0..buffer.len() {
        let result = Packet::validate_packet(&buffer[..cut]);
        assert!(
            matches!(
                result,
                Err(PacketValidationError::SchemaError) | Err(PacketValidationError::LengthError)
            ),
            "truncation at {cut} was not rejected",
        );
    }
}
