use pad_motion::protocol::bytes::bit_array_to_u8;
use pad_motion::protocol::internals::invalid_data_error;
use pad_motion::protocol::{
    encode_message, parse_message, BatteryStatus, CodecError, ConnectionType, ControllerData,
    ControllerDataRequest, ControllerInfo, DeviceType, EnumField, Message, MessageHeader,
    MessagePayload, MessageSource, MessageType, SlotState, TouchData, PROTOCOL_VERSION,
};

fn client_header(source_id: u32) -> MessageHeader {
    MessageHeader {
        source: MessageSource::Client,
        protocol_version: PROTOCOL_VERSION,
        message_length: 0,
        checksum: 0,
        source_id,
    }
}

fn server_header(source_id: u32) -> MessageHeader {
    MessageHeader {
        source: MessageSource::Server,
        protocol_version: PROTOCOL_VERSION,
        message_length: 0,
        checksum: 0,
        source_id,
    }
}

fn sample_info(slot: u8) -> ControllerInfo {
    ControllerInfo {
        slot,
        slot_state: SlotState::Connected,
        device_type: DeviceType::FullGyro,
        connection_type: ConnectionType::Bluetooth,
        mac_address: 0x0000_AABB_CCDD_EEFF,
        battery_status: BatteryStatus::Charging,
    }
}

fn sample_data() -> ControllerData {
    ControllerData {
        connected: true,
        d_pad_left: true,
        d_pad_down: false,
        d_pad_right: true,
        d_pad_up: false,
        start: true,
        right_stick_button: false,
        left_stick_button: true,
        select: false,
        square: true,
        cross: true,
        circle: false,
        triangle: false,
        r1: true,
        l1: false,
        r2: false,
        l2: true,
        ps: 1,
        touch: 0,
        left_stick_x: 0x7F,
        left_stick_y: 0x80,
        right_stick_x: 0x01,
        right_stick_y: 0xFE,
        analog_d_pad_left: 255,
        analog_d_pad_down: 0,
        analog_d_pad_right: 254,
        analog_d_pad_up: 1,
        analog_square: 10,
        analog_triangle: 20,
        analog_cross: 30,
        analog_circle: 40,
        analog_r1: 50,
        analog_l1: 60,
        analog_r2: 70,
        analog_l2: 80,
        first_touch: TouchData { active: true, id: 3, position_x: 511, position_y: 1023 },
        second_touch: TouchData { active: false, id: 0, position_x: 0, position_y: 0 },
        motion_data_timestamp: 0x0123_4567_89AB_CDEF,
        accelerometer_x: 1.5f32.to_bits(),
        accelerometer_y: (-2.25f32).to_bits(),
        accelerometer_z: 9.81f32.to_bits(),
        gyroscope_pitch: 0.125f32.to_bits(),
        gyroscope_yaw: (-0.5f32).to_bits(),
        gyroscope_roll: 100.0f32.to_bits(),
    }
}

fn encode(m: Message) -> Vec<u8> {
    let mut out = Vec::new();
    encode_message(&mut out, m);
    out
}

#[test]
fn round_trip_controller_data_message() {
    let m = Message {
        header: server_header(0xDEADBEEF),
        message_type: MessageType::ControllerData,
        payload: MessagePayload::ControllerData {
            packet_number: 42,
            controller_info: sample_info(2),
            controller_data: sample_data(),
        },
    };
    let bytes = encode(m);
    assert_eq!(bytes.len(), 100);
    let decoded = parse_message(MessageSource::Server, &bytes, true).unwrap();
    assert_eq!(decoded.message_type, m.message_type);
    assert_eq!(decoded.payload, m.payload);
    assert_eq!(decoded.header.source, MessageSource::Server);
    assert_eq!(decoded.header.protocol_version, PROTOCOL_VERSION);
    assert_eq!(decoded.header.source_id, 0xDEADBEEF);
    assert_eq!(decoded.header.message_length, 84);
}

#[test]
fn round_trip_every_payload_shape() {
    let messages = vec![
        Message {
            header: client_header(7),
            message_type: MessageType::ProtocolVersion,
            payload: MessagePayload::Empty,
        },
        Message {
            header: server_header(7),
            message_type: MessageType::ProtocolVersion,
            payload: MessagePayload::ProtocolVersion(PROTOCOL_VERSION),
        },
        Message {
            header: client_header(8),
            message_type: MessageType::ConnectedControllers,
            payload: MessagePayload::ConnectedControllersRequest {
                amount: 2,
                slot_numbers: [1, 3, 0, 0],
            },
        },
        Message {
            header: server_header(8),
            message_type: MessageType::ConnectedControllers,
            payload: MessagePayload::ConnectedControllerResponse {
                controller_info: sample_info(0),
            },
        },
        Message {
            header: client_header(9),
            message_type: MessageType::ControllerData,
            payload: MessagePayload::ControllerDataRequest(ControllerDataRequest::ReportAll),
        },
        Message {
            header: client_header(9),
            message_type: MessageType::ControllerData,
            payload: MessagePayload::ControllerDataRequest(ControllerDataRequest::SlotNumber(3)),
        },
        Message {
            header: client_header(9),
            message_type: MessageType::ControllerData,
            payload: MessagePayload::ControllerDataRequest(ControllerDataRequest::MAC(
                0x0000_1122_3344_5566,
            )),
        },
    ];
    for m in messages {
        let bytes = encode(m);
        let decoded = parse_message(m.header.source, &bytes, true).unwrap();
        assert_eq!(decoded.payload, m.payload);
        assert_eq!(decoded.message_type, m.message_type);
        assert_eq!(decoded.header.source_id, m.header.source_id);
    }
}

#[test]
fn version_handshake_wire_form() {
    // A ProtocolVersion request from a client: 4 payload bytes (the type
    // word alone), magic DSUC, and the length field holding 4.
    let m = Message {
        header: client_header(0xCAFEBABE),
        message_type: MessageType::ProtocolVersion,
        payload: MessagePayload::Empty,
    };
    let bytes = encode(m);
    assert_eq!(bytes.len(), 20);
    assert_eq!(&bytes[0..4], b"DSUC");
    assert_eq!(bytes[4], 0xE9); // 1001 little-endian
    assert_eq!(bytes[5], 0x03);
    assert_eq!(bytes[6], 0x04); // message_length == 4
    assert_eq!(bytes[7], 0x00);
    assert_eq!(&bytes[12..16], &0xCAFEBABEu32.to_le_bytes());
    assert_eq!(&bytes[16..20], &0x100000u32.to_le_bytes());
}

#[test]
fn length_field_counts_bytes_after_header() {
    let m = Message {
        header: server_header(1),
        message_type: MessageType::ConnectedControllers,
        payload: MessagePayload::ConnectedControllerResponse { controller_info: sample_info(1) },
    };
    let bytes = encode(m);
    let length = u16::from_le_bytes([bytes[6], bytes[7]]) as usize;
    assert_eq!(length, bytes.len() - 16);
    assert_eq!(length, 16); // type word + 11 info bytes + terminator
}

#[test]
fn checksum_matches_crc_crate() {
    let m = Message {
        header: client_header(5),
        message_type: MessageType::ControllerData,
        payload: MessagePayload::ControllerDataRequest(ControllerDataRequest::SlotNumber(1)),
    };
    let bytes = encode(m);
    let mut cleared = bytes.clone();
    for b in &mut cleared[8..12] {
        *b = 0;
    }
    let expected = crc::Crc::<u32>::new(&crc::CRC_32_ISO_HDLC).checksum(&cleared);
    assert_eq!(u32::from_le_bytes([bytes[8], bytes[9], bytes[10], bytes[11]]), expected);
}

#[test]
fn flipped_byte_fails_the_checksum() {
    let m = Message {
        header: client_header(5),
        message_type: MessageType::ControllerData,
        payload: MessagePayload::ControllerDataRequest(ControllerDataRequest::ReportAll),
    };
    let mut bytes = encode(m);
    bytes[16] ^= 0x01; // first byte of the message type word
    assert_eq!(parse_message(MessageSource::Client, &bytes, true), Err(CodecError::BadChecksum));
    // Without verification the flip is caught later, as an unknown type.
    assert_eq!(
        parse_message(MessageSource::Client, &bytes, false),
        Err(CodecError::InvalidEnumValue(EnumField::MessageType))
    );
}

#[test]
fn wrong_protocol_version_is_rejected() {
    let m = Message {
        header: client_header(5),
        message_type: MessageType::ProtocolVersion,
        payload: MessagePayload::Empty,
    };
    let mut bytes = encode(m);
    bytes[4] = 0xE8; // version 1000
    // The version is checked before the checksum.
    assert_eq!(parse_message(MessageSource::Client, &bytes, true), Err(CodecError::InvalidVersion));
}

#[test]
fn wrong_magic_is_rejected() {
    let m = Message {
        header: client_header(5),
        message_type: MessageType::ProtocolVersion,
        payload: MessagePayload::Empty,
    };
    let bytes = encode(m);
    // The decoder expects the other role.
    assert_eq!(parse_message(MessageSource::Server, &bytes, false), Err(CodecError::InvalidMagic));
    let mut garbled = bytes.clone();
    garbled[0] = b'X';
    assert_eq!(parse_message(MessageSource::Client, &garbled, false), Err(CodecError::InvalidMagic));
}

#[test]
fn short_packets_are_rejected() {
    let m = Message {
        header: client_header(5),
        message_type: MessageType::ControllerData,
        payload: MessagePayload::ControllerDataRequest(ControllerDataRequest::MAC(1)),
    };
    let bytes = encode(m);
    assert_eq!(
        parse_message(MessageSource::Client, &bytes[..10], false),
        Err(CodecError::TruncatedPacket)
    );
    // Cutting the payload keeps the header intact but understates the buffer.
    assert_eq!(
        parse_message(MessageSource::Client, &bytes[..22], false),
        Err(CodecError::TruncatedPacket)
    );
}

#[test]
fn trailing_bytes_are_tolerated() {
    let m = Message {
        header: client_header(5),
        message_type: MessageType::ControllerData,
        payload: MessagePayload::ControllerDataRequest(ControllerDataRequest::ReportAll),
    };
    let mut bytes = encode(m);
    bytes.push(0xFF);
    bytes.push(0xFF);
    let decoded = parse_message(MessageSource::Client, &bytes, false).unwrap();
    assert_eq!(decoded.payload, m.payload);
}

#[test]
fn invalid_enum_bytes_are_rejected() {
    let m = Message {
        header: server_header(5),
        message_type: MessageType::ConnectedControllers,
        payload: MessagePayload::ConnectedControllerResponse { controller_info: sample_info(1) },
    };
    let mut bad_state = encode(m);
    bad_state[21] = 9; // the slot_state byte
    assert_eq!(
        parse_message(MessageSource::Server, &bad_state, false),
        Err(CodecError::InvalidEnumValue(EnumField::SlotState))
    );

    let mut bad_slot = encode(m);
    bad_slot[20] = 5; // the slot byte
    assert_eq!(
        parse_message(MessageSource::Server, &bad_slot, false),
        Err(CodecError::InvalidSlotNumber)
    );

    let mut bad_terminator = encode(m);
    bad_terminator[31] = 1; // the trailing zero byte
    assert_eq!(
        parse_message(MessageSource::Server, &bad_terminator, false),
        Err(CodecError::MalformedTerminator)
    );
}

#[test]
fn invalid_count_is_rejected() {
    let m = Message {
        header: client_header(5),
        message_type: MessageType::ConnectedControllers,
        payload: MessagePayload::ConnectedControllersRequest { amount: 4, slot_numbers: [0, 1, 2, 3] },
    };
    let mut bytes = encode(m);
    bytes[20] = 5; // the low byte of the amount
    assert_eq!(parse_message(MessageSource::Client, &bytes, false), Err(CodecError::InvalidCount));

    let mut bad_slot = encode(m);
    bad_slot[25] = 4; // the second requested slot number
    assert_eq!(
        parse_message(MessageSource::Client, &bad_slot, false),
        Err(CodecError::InvalidSlotNumber)
    );
}

#[test]
fn bit_array_packs_msb_first() {
    assert_eq!(bit_array_to_u8([true, false, false, false, false, false, false, false]), 0x80);
    assert_eq!(bit_array_to_u8([false, false, false, false, false, false, false, true]), 0x01);
    assert_eq!(bit_array_to_u8([true, true, false, true, false, false, true, false]), 0xD2);
    assert_eq!(bit_array_to_u8([false; 8]), 0);
    assert_eq!(bit_array_to_u8([true; 8]), 0xFF);
}

#[test]
fn invalid_data_error_builds_the_enum_error() {
    assert_eq!(
        invalid_data_error(EnumField::BatteryStatus),
        CodecError::InvalidEnumValue(EnumField::BatteryStatus)
    );
}
