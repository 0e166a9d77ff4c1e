//! Per-structure byte layouts, encoders and parsers.
//!
//! Each structure has a spec-level layout (`..._bytes`), a spec-level parser
//! (`spec_parse_...`) that defines exactly which bytes are accepted and which
//! error rejects the rest, executable functions proved equal to them, and a
//! round-trip lemma.

use vstd::prelude::*;

use crate::protocol::bytes::{
    bit_array_to_u8, bit_set, le16, le32, le48, le64, lemma_le16_round_trip,
    lemma_le32_round_trip, lemma_le48_round_trip, lemma_le64_round_trip,
    lemma_packed_bits_round_trip, packed_bits, read_u16_le, read_u32_le, read_u48_le, read_u64_le,
    u16_from_le, u32_from_le, u48_from_le, u64_from_le, write_u16_le, write_u32_le, write_u48_le,
    write_u64_le,
};
use crate::protocol::{
    BatteryStatus, CodecError, ConnectionType, ControllerData, ControllerDataRequest,
    ControllerInfo, DeviceType, EnumField, MessageHeader, MessagePayload, MessageSource,
    MessageType, SlotState, TouchData, valid_info, valid_payload, valid_request, PROTOCOL_VERSION,
};

verus! {

// ---------------------------------------------------------------------------
// enum encodings
// ---------------------------------------------------------------------------

/// The 4-byte ASCII magic of a sender role: `DSUS` or `DSUC`.
pub open spec fn magic_bytes(source: MessageSource) -> Seq<u8> {
    match source {
        MessageSource::Server => seq![0x44u8, 0x53u8, 0x55u8, 0x53u8],
        MessageSource::Client => seq![0x44u8, 0x53u8, 0x55u8, 0x43u8],
    }
}

/// The wire byte of a slot state.
pub open spec fn slot_state_byte(s: SlotState) -> u8 {
    match s {
        SlotState::NotConnected => 0,
        SlotState::Reserved => 1,
        SlotState::Connected => 2,
    }
}

/// The slot state a wire byte means, if any.
pub open spec fn spec_parse_slot_state(b: u8) -> Result<SlotState, CodecError> {
    if b == 0 {
        Ok(SlotState::NotConnected)
    } else if b == 1 {
        Ok(SlotState::Reserved)
    } else if b == 2 {
        Ok(SlotState::Connected)
    } else {
        Err(CodecError::InvalidEnumValue(EnumField::SlotState))
    }
}

/// The wire byte of a device type.
pub open spec fn device_type_byte(d: DeviceType) -> u8 {
    match d {
        DeviceType::NotApplicable => 0,
        DeviceType::PartialGyro => 1,
        DeviceType::FullGyro => 2,
    }
}

/// The device type a wire byte means, if any.
pub open spec fn spec_parse_device_type(b: u8) -> Result<DeviceType, CodecError> {
    if b == 0 {
        Ok(DeviceType::NotApplicable)
    } else if b == 1 {
        Ok(DeviceType::PartialGyro)
    } else if b == 2 {
        Ok(DeviceType::FullGyro)
    } else {
        Err(CodecError::InvalidEnumValue(EnumField::DeviceType))
    }
}

/// The wire byte of a connection type.
pub open spec fn connection_type_byte(c: ConnectionType) -> u8 {
    match c {
        ConnectionType::NotApplicable => 0,
        ConnectionType::USB => 1,
        ConnectionType::Bluetooth => 2,
    }
}

/// The connection type a wire byte means, if any.
pub open spec fn spec_parse_connection_type(b: u8) -> Result<ConnectionType, CodecError> {
    if b == 0 {
        Ok(ConnectionType::NotApplicable)
    } else if b == 1 {
        Ok(ConnectionType::USB)
    } else if b == 2 {
        Ok(ConnectionType::Bluetooth)
    } else {
        Err(CodecError::InvalidEnumValue(EnumField::ConnectionType))
    }
}

/// The wire byte of a battery status.
pub open spec fn battery_status_byte(s: BatteryStatus) -> u8 {
    match s {
        BatteryStatus::NotApplicable => 0x00,
        BatteryStatus::Dying => 0x01,
        BatteryStatus::Low => 0x02,
        BatteryStatus::Medium => 0x03,
        BatteryStatus::High => 0x04,
        BatteryStatus::Full => 0x05,
        BatteryStatus::Charging => 0xEE,
        BatteryStatus::Charged => 0xEF,
    }
}

/// The battery status a wire byte means, if any.
pub open spec fn spec_parse_battery_status(b: u8) -> Result<BatteryStatus, CodecError> {
    if b == 0x00 {
        Ok(BatteryStatus::NotApplicable)
    } else if b == 0x01 {
        Ok(BatteryStatus::Dying)
    } else if b == 0x02 {
        Ok(BatteryStatus::Low)
    } else if b == 0x03 {
        Ok(BatteryStatus::Medium)
    } else if b == 0x04 {
        Ok(BatteryStatus::High)
    } else if b == 0x05 {
        Ok(BatteryStatus::Full)
    } else if b == 0xEE {
        Ok(BatteryStatus::Charging)
    } else if b == 0xEF {
        Ok(BatteryStatus::Charged)
    } else {
        Err(CodecError::InvalidEnumValue(EnumField::BatteryStatus))
    }
}

/// The message type word on the wire.
pub open spec fn message_type_word(t: MessageType) -> u32 {
    match t {
        MessageType::ProtocolVersion => 0x100000,
        MessageType::ConnectedControllers => 0x100001,
        MessageType::ControllerData => 0x100002,
    }
}

/// The message type a wire word means, if any.
pub open spec fn spec_parse_message_type_word(w: u32) -> Result<MessageType, CodecError> {
    if w == 0x100000 {
        Ok(MessageType::ProtocolVersion)
    } else if w == 0x100001 {
        Ok(MessageType::ConnectedControllers)
    } else if w == 0x100002 {
        Ok(MessageType::ControllerData)
    } else {
        Err(CodecError::InvalidEnumValue(EnumField::MessageType))
    }
}

// ---------------------------------------------------------------------------
// message header (16 bytes)
// ---------------------------------------------------------------------------

/// The 16 header bytes: magic, version, length, checksum, source id.
pub open spec fn header_bytes(h: MessageHeader) -> Seq<u8> {
    magic_bytes(h.source) + le16(h.protocol_version) + le16(h.message_length) + le32(h.checksum)
        + le32(h.source_id)
}

/// Reads the 16-byte header at the front of `b`.
///
/// The magic must name `source`; a datagram from the other role, or with an
/// unknown magic, is rejected.
pub open spec fn spec_parse_header(source: MessageSource, b: Seq<u8>) -> Result<
    MessageHeader,
    CodecError,
> {
    if b.len() < 16 {
        Err(CodecError::TruncatedPacket)
    } else if b.subrange(0, 4) != magic_bytes(source) {
        Err(CodecError::InvalidMagic)
    } else {
        Ok(MessageHeader {
            source,
            protocol_version: u16_from_le(b[4], b[5]),
            message_length: u16_from_le(b[6], b[7]),
            checksum: u32_from_le(b[8], b[9], b[10], b[11]),
            source_id: u32_from_le(b[12], b[13], b[14], b[15]),
        })
    }
}

/// Appends the 16 header bytes.
pub fn encode_message_header(writer: &mut Vec<u8>, message_header: MessageHeader)
    ensures
        final(writer)@ == old(writer)@ + header_bytes(message_header),
{
    match message_header.source {
        MessageSource::Server => {
            writer.push(0x44);
            writer.push(0x53);
            writer.push(0x55);
            writer.push(0x53);
        },
        MessageSource::Client => {
            writer.push(0x44);
            writer.push(0x53);
            writer.push(0x55);
            writer.push(0x43);
        },
    }
    write_u16_le(writer, message_header.protocol_version);
    write_u16_le(writer, message_header.message_length);
    write_u32_le(writer, message_header.checksum);
    write_u32_le(writer, message_header.source_id);
    assert(final(writer)@ =~= old(writer)@ + header_bytes(message_header));
}

/// Reads the 16-byte header at the front of `packet`.
pub fn parse_message_header(source: MessageSource, packet: &[u8]) -> (r: Result<
    MessageHeader,
    CodecError,
>)
    ensures
        r == spec_parse_header(source, packet@),
{
    if packet.len() < 16 {
        return Err(CodecError::TruncatedPacket);
    }
    let magic_ok = match source {
        MessageSource::Server => {
            packet[0] == 0x44 && packet[1] == 0x53 && packet[2] == 0x55 && packet[3] == 0x53
        },
        MessageSource::Client => {
            packet[0] == 0x44 && packet[1] == 0x53 && packet[2] == 0x55 && packet[3] == 0x43
        },
    };
    proof {
        assert(magic_bytes(source).len() == 4);
        assert(packet@.subrange(0, 4) =~= seq![packet@[0], packet@[1], packet@[2], packet@[3]]);
    }
    if !magic_ok {
        return Err(CodecError::InvalidMagic);
    }
    Ok(MessageHeader {
        source,
        protocol_version: read_u16_le(packet, 4),
        message_length: read_u16_le(packet, 6),
        checksum: read_u32_le(packet, 8),
        source_id: read_u32_le(packet, 12),
    })
}

/// Parsing the encoded header of a valid source gives the header back.
pub proof fn lemma_header_round_trip(h: MessageHeader, b: Seq<u8>)
    requires
        b.len() >= 16,
        b.subrange(0, 16) == header_bytes(h),
    ensures
        spec_parse_header(h.source, b) == Ok::<MessageHeader, CodecError>(h),
{
    let hb = header_bytes(h);
    assert(hb.len() == 16);
    assert forall|k: int| 0 <= k < 16 implies b[k] == hb[k] by {
        assert(b.subrange(0, 16)[k] == b[k]);
    }
    assert(b.subrange(0, 4) =~= magic_bytes(h.source));
    lemma_le16_round_trip(h.protocol_version);
    lemma_le16_round_trip(h.message_length);
    lemma_le32_round_trip(h.checksum);
    lemma_le32_round_trip(h.source_id);
    assert(b[4] == le16(h.protocol_version)[0] && b[5] == le16(h.protocol_version)[1]);
    assert(b[6] == le16(h.message_length)[0] && b[7] == le16(h.message_length)[1]);
    assert(b[8] == le32(h.checksum)[0] && b[9] == le32(h.checksum)[1] && b[10] == le32(
        h.checksum,
    )[2] && b[11] == le32(h.checksum)[3]);
    assert(b[12] == le32(h.source_id)[0] && b[13] == le32(h.source_id)[1] && b[14] == le32(
        h.source_id,
    )[2] && b[15] == le32(h.source_id)[3]);
}

// ---------------------------------------------------------------------------
// message type (4 bytes)
// ---------------------------------------------------------------------------

/// The 4 little-endian bytes of the message type word.
pub open spec fn message_type_bytes(t: MessageType) -> Seq<u8> {
    le32(message_type_word(t))
}

/// Reads the message type word at `pos`.
pub open spec fn spec_parse_message_type(b: Seq<u8>, pos: int) -> Result<MessageType, CodecError> {
    if pos + 4 > b.len() {
        Err(CodecError::TruncatedPacket)
    } else {
        spec_parse_message_type_word(u32_from_le(b[pos], b[pos + 1], b[pos + 2], b[pos + 3]))
    }
}

/// Appends the 4 bytes of the message type word.
pub fn encode_message_type(writer: &mut Vec<u8>, message_type: MessageType)
    ensures
        final(writer)@ == old(writer)@ + message_type_bytes(message_type),
{
    let encoded: u32 = match message_type {
        MessageType::ProtocolVersion => 0x100000,
        MessageType::ConnectedControllers => 0x100001,
        MessageType::ControllerData => 0x100002,
    };
    write_u32_le(writer, encoded);
}

/// Reads the message type word at `pos`.
pub fn parse_message_type(packet: &[u8], pos: usize) -> (r: Result<MessageType, CodecError>)
    requires
        pos <= packet@.len(),
    ensures
        r == spec_parse_message_type(packet@, pos as int),
{
    if packet.len() - pos < 4 {
        return Err(CodecError::TruncatedPacket);
    }
    let word = read_u32_le(packet, pos);
    if word == 0x100000 {
        Ok(MessageType::ProtocolVersion)
    } else if word == 0x100001 {
        Ok(MessageType::ConnectedControllers)
    } else if word == 0x100002 {
        Ok(MessageType::ControllerData)
    } else {
        Err(CodecError::InvalidEnumValue(EnumField::MessageType))
    }
}

/// Parsing an encoded message type gives it back.
pub proof fn lemma_message_type_round_trip(t: MessageType, b: Seq<u8>, pos: int)
    requires
        0 <= pos,
        pos + 4 <= b.len(),
        b.subrange(pos, pos + 4) == message_type_bytes(t),
    ensures
        spec_parse_message_type(b, pos) == Ok::<MessageType, CodecError>(t),
{
    let tb = message_type_bytes(t);
    assert forall|k: int| 0 <= k < 4 implies b[pos + k] == tb[k] by {
        assert(b.subrange(pos, pos + 4)[k] == b[pos + k]);
    }
    lemma_le32_round_trip(message_type_word(t));
}

// ---------------------------------------------------------------------------
// controller info (11 bytes)
// ---------------------------------------------------------------------------

/// The 11 wire bytes of a `ControllerInfo`.
pub open spec fn controller_info_bytes(i: ControllerInfo) -> Seq<u8> {
    seq![
        i.slot,
        slot_state_byte(i.slot_state),
        device_type_byte(i.device_type),
        connection_type_byte(i.connection_type),
    ] + le48(i.mac_address) + seq![battery_status_byte(i.battery_status)]
}

/// Reads a `ControllerInfo` at `pos`: slot below 4, then the three state
/// bytes, the 48-bit MAC, and the battery byte.
pub open spec fn spec_parse_controller_info(b: Seq<u8>, pos: int) -> Result<
    ControllerInfo,
    CodecError,
> {
    if pos + 11 > b.len() {
        Err(CodecError::TruncatedPacket)
    } else if b[pos] >= 4 {
        Err(CodecError::InvalidSlotNumber)
    } else {
        match spec_parse_slot_state(b[pos + 1]) {
            Err(e) => Err(e),
            Ok(slot_state) => match spec_parse_device_type(b[pos + 2]) {
                Err(e) => Err(e),
                Ok(device_type) => match spec_parse_connection_type(b[pos + 3]) {
                    Err(e) => Err(e),
                    Ok(connection_type) => match spec_parse_battery_status(b[pos + 10]) {
                        Err(e) => Err(e),
                        Ok(battery_status) => Ok(ControllerInfo {
                            slot: b[pos],
                            slot_state,
                            device_type,
                            connection_type,
                            mac_address: u48_from_le(
                                b[pos + 4], b[pos + 5], b[pos + 6], b[pos + 7], b[pos + 8],
                                b[pos + 9],
                            ),
                            battery_status,
                        }),
                    },
                },
            },
        }
    }
}

/// Appends the 11 wire bytes of `controller_info`.
pub fn encode_controller_info(writer: &mut Vec<u8>, controller_info: ControllerInfo)
    ensures
        final(writer)@ == old(writer)@ + controller_info_bytes(controller_info),
{
    writer.push(controller_info.slot);

    let slot_state: u8 = match controller_info.slot_state {
        SlotState::NotConnected => 0,
        SlotState::Reserved => 1,
        SlotState::Connected => 2,
    };
    writer.push(slot_state);

    let device_type: u8 = match controller_info.device_type {
        DeviceType::NotApplicable => 0,
        DeviceType::PartialGyro => 1,
        DeviceType::FullGyro => 2,
    };
    writer.push(device_type);

    let connection_type: u8 = match controller_info.connection_type {
        ConnectionType::NotApplicable => 0,
        ConnectionType::USB => 1,
        ConnectionType::Bluetooth => 2,
    };
    writer.push(connection_type);

    write_u48_le(writer, controller_info.mac_address);

    let battery_status: u8 = match controller_info.battery_status {
        BatteryStatus::NotApplicable => 0x00,
        BatteryStatus::Dying => 0x01,
        BatteryStatus::Low => 0x02,
        BatteryStatus::Medium => 0x03,
        BatteryStatus::High => 0x04,
        BatteryStatus::Full => 0x05,
        BatteryStatus::Charging => 0xEE,
        BatteryStatus::Charged => 0xEF,
    };
    writer.push(battery_status);
    assert(final(writer)@ =~= old(writer)@ + controller_info_bytes(controller_info));
}

/// Reads a `ControllerInfo` at `pos`.
pub fn parse_controller_info(packet: &[u8], pos: usize) -> (r: Result<ControllerInfo, CodecError>)
    requires
        pos <= packet@.len(),
    ensures
        r == spec_parse_controller_info(packet@, pos as int),
{
    if packet.len() - pos < 11 {
        return Err(CodecError::TruncatedPacket);
    }

    let slot = packet[pos];
    if slot >= 4 {
        return Err(CodecError::InvalidSlotNumber);
    }

    let slot_state = {
        let b = packet[pos + 1];
        if b == 0 {
            SlotState::NotConnected
        } else if b == 1 {
            SlotState::Reserved
        } else if b == 2 {
            SlotState::Connected
        } else {
            return Err(invalid_data_error(EnumField::SlotState));
        }
    };

    let device_type = {
        let b = packet[pos + 2];
        if b == 0 {
            DeviceType::NotApplicable
        } else if b == 1 {
            DeviceType::PartialGyro
        } else if b == 2 {
            DeviceType::FullGyro
        } else {
            return Err(invalid_data_error(EnumField::DeviceType));
        }
    };

    let connection_type = {
        let b = packet[pos + 3];
        if b == 0 {
            ConnectionType::NotApplicable
        } else if b == 1 {
            ConnectionType::USB
        } else if b == 2 {
            ConnectionType::Bluetooth
        } else {
            return Err(invalid_data_error(EnumField::ConnectionType));
        }
    };

    let mac_address = read_u48_le(packet, pos + 4);

    let battery_status = {
        let b = packet[pos + 10];
        if b == 0x00 {
            BatteryStatus::NotApplicable
        } else if b == 0x01 {
            BatteryStatus::Dying
        } else if b == 0x02 {
            BatteryStatus::Low
        } else if b == 0x03 {
            BatteryStatus::Medium
        } else if b == 0x04 {
            BatteryStatus::High
        } else if b == 0x05 {
            BatteryStatus::Full
        } else if b == 0xEE {
            BatteryStatus::Charging
        } else if b == 0xEF {
            BatteryStatus::Charged
        } else {
            return Err(invalid_data_error(EnumField::BatteryStatus));
        }
    };

    Ok(ControllerInfo { slot, slot_state, device_type, connection_type, mac_address,
        battery_status })
}

/// Parsing encoded controller info gives it back.
pub proof fn lemma_controller_info_round_trip(i: ControllerInfo, b: Seq<u8>, pos: int)
    requires
        valid_info(i),
        0 <= pos,
        pos + 11 <= b.len(),
        b.subrange(pos, pos + 11) == controller_info_bytes(i),
    ensures
        spec_parse_controller_info(b, pos) == Ok::<ControllerInfo, CodecError>(i),
{
    let ib = controller_info_bytes(i);
    assert(ib.len() == 11);
    assert forall|k: int| 0 <= k < 11 implies b[pos + k] == #[trigger] ib[k] by {
        assert(b.subrange(pos, pos + 11)[k] == b[pos + k]);
    }
    lemma_le48_round_trip(i.mac_address);
    assert(ib[0] == i.slot);
    assert(ib[1] == slot_state_byte(i.slot_state));
    assert(ib[2] == device_type_byte(i.device_type));
    assert(ib[3] == connection_type_byte(i.connection_type));
    assert(ib[4] == le48(i.mac_address)[0]);
    assert(ib[5] == le48(i.mac_address)[1]);
    assert(ib[6] == le48(i.mac_address)[2]);
    assert(ib[7] == le48(i.mac_address)[3]);
    assert(ib[8] == le48(i.mac_address)[4]);
    assert(ib[9] == le48(i.mac_address)[5]);
    assert(ib[10] == battery_status_byte(i.battery_status));
}

// ---------------------------------------------------------------------------
// touch data (6 bytes)
// ---------------------------------------------------------------------------

/// The 6 wire bytes of a `TouchData`.
pub open spec fn touch_data_bytes(t: TouchData) -> Seq<u8> {
    seq![(if t.active { 1u8 } else { 0u8 }), t.id] + le16(t.position_x) + le16(t.position_y)
}

/// Reads a `TouchData` at `pos`: an active byte that must be 0 or 1, an id,
/// and the two positions.
pub open spec fn spec_parse_touch_data(b: Seq<u8>, pos: int) -> Result<TouchData, CodecError> {
    if pos + 6 > b.len() {
        Err(CodecError::TruncatedPacket)
    } else if b[pos] >= 2 {
        Err(CodecError::InvalidEnumValue(EnumField::TouchActive))
    } else {
        Ok(TouchData {
            active: b[pos] == 1,
            id: b[pos + 1],
            position_x: u16_from_le(b[pos + 2], b[pos + 3]),
            position_y: u16_from_le(b[pos + 4], b[pos + 5]),
        })
    }
}

/// Appends the 6 wire bytes of `touch_data`.
pub fn encode_touch_data(writer: &mut Vec<u8>, touch_data: TouchData)
    ensures
        final(writer)@ == old(writer)@ + touch_data_bytes(touch_data),
{
    if touch_data.active {
        writer.push(1);
    } else {
        writer.push(0);
    }
    writer.push(touch_data.id);
    write_u16_le(writer, touch_data.position_x);
    write_u16_le(writer, touch_data.position_y);
    assert(final(writer)@ =~= old(writer)@ + touch_data_bytes(touch_data));
}

/// Reads a `TouchData` at `pos`.
pub fn parse_touch_data(packet: &[u8], pos: usize) -> (r: Result<TouchData, CodecError>)
    requires
        pos <= packet@.len(),
    ensures
        r == spec_parse_touch_data(packet@, pos as int),
{
    if packet.len() - pos < 6 {
        return Err(CodecError::TruncatedPacket);
    }
    let active_byte = packet[pos];
    if active_byte >= 2 {
        return Err(invalid_data_error(EnumField::TouchActive));
    }
    Ok(TouchData {
        active: active_byte == 1,
        id: packet[pos + 1],
        position_x: read_u16_le(packet, pos + 2),
        position_y: read_u16_le(packet, pos + 4),
    })
}

/// Parsing encoded touch data gives it back.
pub proof fn lemma_touch_data_round_trip(t: TouchData, b: Seq<u8>, pos: int)
    requires
        0 <= pos,
        pos + 6 <= b.len(),
        b.subrange(pos, pos + 6) == touch_data_bytes(t),
    ensures
        spec_parse_touch_data(b, pos) == Ok::<TouchData, CodecError>(t),
{
    let tb = touch_data_bytes(t);
    assert(tb.len() == 6);
    assert forall|k: int| 0 <= k < 6 implies b[pos + k] == #[trigger] tb[k] by {
        assert(b.subrange(pos, pos + 6)[k] == b[pos + k]);
    }
    lemma_le16_round_trip(t.position_x);
    lemma_le16_round_trip(t.position_y);
    assert(tb[0] == (if t.active { 1u8 } else { 0u8 }));
    assert(tb[1] == t.id);
    assert(tb[2] == le16(t.position_x)[0]);
    assert(tb[3] == le16(t.position_x)[1]);
    assert(tb[4] == le16(t.position_y)[0]);
    assert(tb[5] == le16(t.position_y)[1]);
}

/// Builds the decoder error for an enum byte whose value has no meaning.
pub fn invalid_data_error(field: EnumField) -> (e: CodecError)
    ensures
        e == CodecError::InvalidEnumValue(field),
{
    CodecError::InvalidEnumValue(field)
}

// ---------------------------------------------------------------------------
// controller data request (tag, slot, MAC)
// ---------------------------------------------------------------------------

/// The 8 wire bytes of a `ControllerDataRequest`: a tag byte, a slot byte,
/// and a 48-bit MAC, with the unused fields zero.
pub open spec fn controller_data_request_bytes(r: ControllerDataRequest) -> Seq<u8> {
    match r {
        ControllerDataRequest::ReportAll => seq![0u8, 0u8] + le48(0),
        ControllerDataRequest::SlotNumber(s) => seq![1u8, s] + le48(0),
        ControllerDataRequest::MAC(m) => seq![2u8, 0u8] + le48(m),
    }
}

/// Reads a `ControllerDataRequest` at `pos`.
///
/// Only the fields the tag calls for are read: a bare `ReportAll` tag is
/// accepted even when nothing follows it.
pub open spec fn spec_parse_controller_data_request(b: Seq<u8>, pos: int) -> Result<
    ControllerDataRequest,
    CodecError,
> {
    if pos + 1 > b.len() {
        Err(CodecError::TruncatedPacket)
    } else if b[pos] == 0 {
        Ok(ControllerDataRequest::ReportAll)
    } else if b[pos] == 1 {
        if pos + 2 > b.len() {
            Err(CodecError::TruncatedPacket)
        } else if b[pos + 1] >= 4 {
            Err(CodecError::InvalidSlotNumber)
        } else {
            Ok(ControllerDataRequest::SlotNumber(b[pos + 1]))
        }
    } else if b[pos] == 2 {
        if pos + 8 > b.len() {
            Err(CodecError::TruncatedPacket)
        } else {
            Ok(ControllerDataRequest::MAC(u48_from_le(
                b[pos + 2], b[pos + 3], b[pos + 4], b[pos + 5], b[pos + 6], b[pos + 7],
            )))
        }
    } else {
        Err(CodecError::InvalidEnumValue(EnumField::RequestType))
    }
}

/// Appends the 8 wire bytes of `request`.
pub fn encode_controller_data_request(writer: &mut Vec<u8>, request: ControllerDataRequest)
    ensures
        final(writer)@ == old(writer)@ + controller_data_request_bytes(request),
{
    match request {
        ControllerDataRequest::ReportAll => {
            writer.push(0);
            writer.push(0);
            write_u48_le(writer, 0);
        },
        ControllerDataRequest::SlotNumber(slot) => {
            writer.push(1);
            writer.push(slot);
            write_u48_le(writer, 0);
        },
        ControllerDataRequest::MAC(mac) => {
            writer.push(2);
            writer.push(0);
            write_u48_le(writer, mac);
        },
    }
    assert(final(writer)@ =~= old(writer)@ + controller_data_request_bytes(request));
}

/// Reads a `ControllerDataRequest` at `pos`.
pub fn parse_controller_data_request(packet: &[u8], pos: usize) -> (r: Result<
    ControllerDataRequest,
    CodecError,
>)
    requires
        pos <= packet@.len(),
    ensures
        r == spec_parse_controller_data_request(packet@, pos as int),
{
    if packet.len() - pos < 1 {
        return Err(CodecError::TruncatedPacket);
    }
    let request_type = packet[pos];
    if request_type == 0 {
        Ok(ControllerDataRequest::ReportAll)
    } else if request_type == 1 {
        if packet.len() - pos < 2 {
            return Err(CodecError::TruncatedPacket);
        }
        let slot_number = packet[pos + 1];
        if slot_number >= 4 {
            return Err(CodecError::InvalidSlotNumber);
        }
        Ok(ControllerDataRequest::SlotNumber(slot_number))
    } else if request_type == 2 {
        if packet.len() - pos < 8 {
            return Err(CodecError::TruncatedPacket);
        }
        Ok(ControllerDataRequest::MAC(read_u48_le(packet, pos + 2)))
    } else {
        Err(invalid_data_error(EnumField::RequestType))
    }
}

/// Parsing an encoded request gives it back.
pub proof fn lemma_controller_data_request_round_trip(
    r: ControllerDataRequest,
    b: Seq<u8>,
    pos: int,
)
    requires
        valid_request(r),
        0 <= pos,
        pos + 8 <= b.len(),
        b.subrange(pos, pos + 8) == controller_data_request_bytes(r),
    ensures
        spec_parse_controller_data_request(b, pos) == Ok::<ControllerDataRequest, CodecError>(r),
{
    let rb = controller_data_request_bytes(r);
    assert(rb.len() == 8);
    assert forall|k: int| 0 <= k < 8 implies b[pos + k] == #[trigger] rb[k] by {
        assert(b.subrange(pos, pos + 8)[k] == b[pos + k]);
    }
    match r {
        ControllerDataRequest::ReportAll => {
            assert(rb[0] == 0u8);
        },
        ControllerDataRequest::SlotNumber(s) => {
            assert(rb[0] == 1u8);
            assert(rb[1] == s);
        },
        ControllerDataRequest::MAC(m) => {
            lemma_le48_round_trip(m);
            assert(rb[0] == 2u8);
            assert(rb[2] == le48(m)[0]);
            assert(rb[3] == le48(m)[1]);
            assert(rb[4] == le48(m)[2]);
            assert(rb[5] == le48(m)[3]);
            assert(rb[6] == le48(m)[4]);
            assert(rb[7] == le48(m)[5]);
        },
    }
}

// ---------------------------------------------------------------------------
// controller data (69 bytes)
// ---------------------------------------------------------------------------

/// The first button byte, MSB-first: DPadLeft, DPadDown, DPadRight, DPadUp,
/// Start, RightStickButton, LeftStickButton, Select.
pub open spec fn buttons_a(d: ControllerData) -> [bool; 8] {
    [
        d.d_pad_left,
        d.d_pad_down,
        d.d_pad_right,
        d.d_pad_up,
        d.start,
        d.right_stick_button,
        d.left_stick_button,
        d.select,
    ]
}

/// The second button byte, MSB-first: Square, Cross, Circle, Triangle, R1,
/// L1, R2, L2.
pub open spec fn buttons_b(d: ControllerData) -> [bool; 8] {
    [d.square, d.cross, d.circle, d.triangle, d.r1, d.l1, d.r2, d.l2]
}

/// The 69 wire bytes of a controller-data block: connected, packet number,
/// the two button bytes, the analog fields, the two touches, the motion
/// timestamp, and the six motion axes.
pub open spec fn controller_data_bytes(packet_number: u32, d: ControllerData) -> Seq<u8> {
    seq![(if d.connected { 1u8 } else { 0u8 })] + le32(packet_number)
        + seq![
        packed_bits(buttons_a(d)),
        packed_bits(buttons_b(d)),
        d.ps,
        d.touch,
        d.left_stick_x,
        d.left_stick_y,
        d.right_stick_x,
        d.right_stick_y,
        d.analog_d_pad_left,
        d.analog_d_pad_down,
        d.analog_d_pad_right,
        d.analog_d_pad_up,
        d.analog_square,
        d.analog_cross,
        d.analog_circle,
        d.analog_triangle,
        d.analog_r1,
        d.analog_l1,
        d.analog_r2,
        d.analog_l2,
    ] + touch_data_bytes(d.first_touch) + touch_data_bytes(d.second_touch)
        + le64(d.motion_data_timestamp) + le32(d.accelerometer_x) + le32(d.accelerometer_y)
        + le32(d.accelerometer_z) + le32(d.gyroscope_pitch) + le32(d.gyroscope_yaw)
        + le32(d.gyroscope_roll)
}

/// Reads a controller-data block at `pos`.
pub open spec fn spec_parse_controller_data(b: Seq<u8>, pos: int) -> Result<
    (u32, ControllerData),
    CodecError,
> {
    if pos + 69 > b.len() {
        Err(CodecError::TruncatedPacket)
    } else if b[pos] >= 2 {
        Err(CodecError::InvalidEnumValue(EnumField::Connected))
    } else {
        match spec_parse_touch_data(b, pos + 25) {
            Err(e) => Err(e),
            Ok(first_touch) => match spec_parse_touch_data(b, pos + 31) {
                Err(e) => Err(e),
                Ok(second_touch) => {
                    let btn_a = b[pos + 5];
                    let btn_b = b[pos + 6];
                    Ok(
                        (
                            u32_from_le(b[pos + 1], b[pos + 2], b[pos + 3], b[pos + 4]),
                            ControllerData {
                                connected: b[pos] == 1,
                                d_pad_left: bit_set(btn_a, 0x80),
                                d_pad_down: bit_set(btn_a, 0x40),
                                d_pad_right: bit_set(btn_a, 0x20),
                                d_pad_up: bit_set(btn_a, 0x10),
                                start: bit_set(btn_a, 0x08),
                                right_stick_button: bit_set(btn_a, 0x04),
                                left_stick_button: bit_set(btn_a, 0x02),
                                select: bit_set(btn_a, 0x01),
                                square: bit_set(btn_b, 0x80),
                                cross: bit_set(btn_b, 0x40),
                                circle: bit_set(btn_b, 0x20),
                                triangle: bit_set(btn_b, 0x10),
                                r1: bit_set(btn_b, 0x08),
                                l1: bit_set(btn_b, 0x04),
                                r2: bit_set(btn_b, 0x02),
                                l2: bit_set(btn_b, 0x01),
                                ps: b[pos + 7],
                                touch: b[pos + 8],
                                left_stick_x: b[pos + 9],
                                left_stick_y: b[pos + 10],
                                right_stick_x: b[pos + 11],
                                right_stick_y: b[pos + 12],
                                analog_d_pad_left: b[pos + 13],
                                analog_d_pad_down: b[pos + 14],
                                analog_d_pad_right: b[pos + 15],
                                analog_d_pad_up: b[pos + 16],
                                analog_square: b[pos + 17],
                                analog_cross: b[pos + 18],
                                analog_circle: b[pos + 19],
                                analog_triangle: b[pos + 20],
                                analog_r1: b[pos + 21],
                                analog_l1: b[pos + 22],
                                analog_r2: b[pos + 23],
                                analog_l2: b[pos + 24],
                                first_touch,
                                second_touch,
                                motion_data_timestamp: u64_from_le(
                                    b[pos + 37], b[pos + 38], b[pos + 39], b[pos + 40],
                                    b[pos + 41], b[pos + 42], b[pos + 43], b[pos + 44],
                                ),
                                accelerometer_x: u32_from_le(
                                    b[pos + 45], b[pos + 46], b[pos + 47], b[pos + 48],
                                ),
                                accelerometer_y: u32_from_le(
                                    b[pos + 49], b[pos + 50], b[pos + 51], b[pos + 52],
                                ),
                                accelerometer_z: u32_from_le(
                                    b[pos + 53], b[pos + 54], b[pos + 55], b[pos + 56],
                                ),
                                gyroscope_pitch: u32_from_le(
                                    b[pos + 57], b[pos + 58], b[pos + 59], b[pos + 60],
                                ),
                                gyroscope_yaw: u32_from_le(
                                    b[pos + 61], b[pos + 62], b[pos + 63], b[pos + 64],
                                ),
                                gyroscope_roll: u32_from_le(
                                    b[pos + 65], b[pos + 66], b[pos + 67], b[pos + 68],
                                ),
                            },
                        ),
                    )
                },
            },
        }
    }
}

/// Appends the 69 wire bytes of a controller-data block.
pub fn encode_controller_data(
    writer: &mut Vec<u8>,
    packet_number: u32,
    controller_data: ControllerData,
)
    ensures
        final(writer)@ == old(writer)@ + controller_data_bytes(packet_number, controller_data),
{
    if controller_data.connected {
        writer.push(1);
    } else {
        writer.push(0);
    }

    write_u32_le(writer, packet_number);

    let button_data = [
        controller_data.d_pad_left,
        controller_data.d_pad_down,
        controller_data.d_pad_right,
        controller_data.d_pad_up,
        controller_data.start,
        controller_data.right_stick_button,
        controller_data.left_stick_button,
        controller_data.select,
    ];
    writer.push(bit_array_to_u8(button_data));

    let button_data = [
        controller_data.square,
        controller_data.cross,
        controller_data.circle,
        controller_data.triangle,
        controller_data.r1,
        controller_data.l1,
        controller_data.r2,
        controller_data.l2,
    ];
    writer.push(bit_array_to_u8(button_data));

    writer.push(controller_data.ps);
    writer.push(controller_data.touch);

    writer.push(controller_data.left_stick_x);
    writer.push(controller_data.left_stick_y);
    writer.push(controller_data.right_stick_x);
    writer.push(controller_data.right_stick_y);

    writer.push(controller_data.analog_d_pad_left);
    writer.push(controller_data.analog_d_pad_down);
    writer.push(controller_data.analog_d_pad_right);
    writer.push(controller_data.analog_d_pad_up);

    writer.push(controller_data.analog_square);
    writer.push(controller_data.analog_cross);
    writer.push(controller_data.analog_circle);
    writer.push(controller_data.analog_triangle);

    writer.push(controller_data.analog_r1);
    writer.push(controller_data.analog_l1);
    writer.push(controller_data.analog_r2);
    writer.push(controller_data.analog_l2);

    encode_touch_data(writer, controller_data.first_touch);
    encode_touch_data(writer, controller_data.second_touch);

    write_u64_le(writer, controller_data.motion_data_timestamp);

    write_u32_le(writer, controller_data.accelerometer_x);
    write_u32_le(writer, controller_data.accelerometer_y);
    write_u32_le(writer, controller_data.accelerometer_z);

    write_u32_le(writer, controller_data.gyroscope_pitch);
    write_u32_le(writer, controller_data.gyroscope_yaw);
    write_u32_le(writer, controller_data.gyroscope_roll);

    assert(final(writer)@ =~= old(writer)@ + controller_data_bytes(
        packet_number,
        controller_data,
    ));
}

/// Reads a controller-data block at `pos`.
#[verifier::rlimit(60)]
pub fn parse_controller_data(packet: &[u8], pos: usize) -> (r: Result<
    (u32, ControllerData),
    CodecError,
>)
    requires
        pos <= packet@.len(),
    ensures
        r == spec_parse_controller_data(packet@, pos as int),
{
    if packet.len() - pos < 69 {
        return Err(CodecError::TruncatedPacket);
    }

    let connected_byte = packet[pos];
    if connected_byte >= 2 {
        return Err(invalid_data_error(EnumField::Connected));
    }

    let first_touch = match parse_touch_data(packet, pos + 25) {
        Ok(t) => t,
        Err(e) => {
            return Err(e);
        },
    };
    let second_touch = match parse_touch_data(packet, pos + 31) {
        Ok(t) => t,
        Err(e) => {
            return Err(e);
        },
    };

    let packet_number = read_u32_le(packet, pos + 1);

    let button_data = packet[pos + 5];
    let d_pad_left = (button_data & 0x80) != 0;
    let d_pad_down = (button_data & 0x40) != 0;
    let d_pad_right = (button_data & 0x20) != 0;
    let d_pad_up = (button_data & 0x10) != 0;
    let start = (button_data & 0x08) != 0;
    let right_stick_button = (button_data & 0x04) != 0;
    let left_stick_button = (button_data & 0x02) != 0;
    let select = (button_data & 0x01) != 0;

    let button_data = packet[pos + 6];
    let square = (button_data & 0x80) != 0;
    let cross = (button_data & 0x40) != 0;
    let circle = (button_data & 0x20) != 0;
    let triangle = (button_data & 0x10) != 0;
    let r1 = (button_data & 0x08) != 0;
    let l1 = (button_data & 0x04) != 0;
    let r2 = (button_data & 0x02) != 0;
    let l2 = (button_data & 0x01) != 0;

    Ok(
        (
            packet_number,
            ControllerData {
                connected: connected_byte == 1,
                d_pad_left,
                d_pad_down,
                d_pad_right,
                d_pad_up,
                start,
                right_stick_button,
                left_stick_button,
                select,
                square,
                cross,
                circle,
                triangle,
                r1,
                l1,
                r2,
                l2,
                ps: packet[pos + 7],
                touch: packet[pos + 8],
                left_stick_x: packet[pos + 9],
                left_stick_y: packet[pos + 10],
                right_stick_x: packet[pos + 11],
                right_stick_y: packet[pos + 12],
                analog_d_pad_left: packet[pos + 13],
                analog_d_pad_down: packet[pos + 14],
                analog_d_pad_right: packet[pos + 15],
                analog_d_pad_up: packet[pos + 16],
                analog_square: packet[pos + 17],
                analog_cross: packet[pos + 18],
                analog_circle: packet[pos + 19],
                analog_triangle: packet[pos + 20],
                analog_r1: packet[pos + 21],
                analog_l1: packet[pos + 22],
                analog_r2: packet[pos + 23],
                analog_l2: packet[pos + 24],
                first_touch,
                second_touch,
                motion_data_timestamp: read_u64_le(packet, pos + 37),
                accelerometer_x: read_u32_le(packet, pos + 45),
                accelerometer_y: read_u32_le(packet, pos + 49),
                accelerometer_z: read_u32_le(packet, pos + 53),
                gyroscope_pitch: read_u32_le(packet, pos + 57),
                gyroscope_yaw: read_u32_le(packet, pos + 61),
                gyroscope_roll: read_u32_le(packet, pos + 65),
            },
        ),
    )
}

/// The bytes before the touches of an encoded controller-data block hold the
/// connected flag, the packet number, the button bytes and the analog fields.
proof fn lemma_controller_data_prefix(packet_number: u32, d: ControllerData, b: Seq<u8>, pos: int)
    requires
        0 <= pos,
        pos + 69 <= b.len(),
        b.subrange(pos, pos + 69) == controller_data_bytes(packet_number, d),
    ensures
        b[pos] == (if d.connected { 1u8 } else { 0u8 }),
        u32_from_le(b[pos + 1], b[pos + 2], b[pos + 3], b[pos + 4]) == packet_number,
        b[pos + 5] == packed_bits(buttons_a(d)),
        b[pos + 6] == packed_bits(buttons_b(d)),
        b[pos + 7] == d.ps,
        b[pos + 8] == d.touch,
        b[pos + 9] == d.left_stick_x,
        b[pos + 10] == d.left_stick_y,
        b[pos + 11] == d.right_stick_x,
        b[pos + 12] == d.right_stick_y,
        b[pos + 13] == d.analog_d_pad_left,
        b[pos + 14] == d.analog_d_pad_down,
        b[pos + 15] == d.analog_d_pad_right,
        b[pos + 16] == d.analog_d_pad_up,
        b[pos + 17] == d.analog_square,
        b[pos + 18] == d.analog_cross,
        b[pos + 19] == d.analog_circle,
        b[pos + 20] == d.analog_triangle,
        b[pos + 21] == d.analog_r1,
        b[pos + 22] == d.analog_l1,
        b[pos + 23] == d.analog_r2,
        b[pos + 24] == d.analog_l2,
{
    let db = controller_data_bytes(packet_number, d);
    assert forall|k: int| 0 <= k < 25 implies b[pos + k] == #[trigger] db[k] by {
        assert(b.subrange(pos, pos + 69)[k] == b[pos + k]);
    }
    lemma_le32_round_trip(packet_number);
    assert(db[0] == (if d.connected { 1u8 } else { 0u8 }));
    assert(db[1] == le32(packet_number)[0]);
    assert(db[2] == le32(packet_number)[1]);
    assert(db[3] == le32(packet_number)[2]);
    assert(db[4] == le32(packet_number)[3]);
    assert(db[5] == packed_bits(buttons_a(d)));
    assert(db[6] == packed_bits(buttons_b(d)));
    assert(db[7] == d.ps);
    assert(db[8] == d.touch);
    assert(db[9] == d.left_stick_x);
    assert(db[10] == d.left_stick_y);
    assert(db[11] == d.right_stick_x);
    assert(db[12] == d.right_stick_y);
    assert(db[13] == d.analog_d_pad_left);
    assert(db[14] == d.analog_d_pad_down);
    assert(db[15] == d.analog_d_pad_right);
    assert(db[16] == d.analog_d_pad_up);
    assert(db[17] == d.analog_square);
    assert(db[18] == d.analog_cross);
    assert(db[19] == d.analog_circle);
    assert(db[20] == d.analog_triangle);
    assert(db[21] == d.analog_r1);
    assert(db[22] == d.analog_l1);
    assert(db[23] == d.analog_r2);
    assert(db[24] == d.analog_l2);
}

/// The touch segments of an encoded controller-data block parse back to the
/// two touches.
proof fn lemma_controller_data_touches(packet_number: u32, d: ControllerData, b: Seq<u8>, pos: int)
    requires
        0 <= pos,
        pos + 69 <= b.len(),
        b.subrange(pos, pos + 69) == controller_data_bytes(packet_number, d),
    ensures
        spec_parse_touch_data(b, pos + 25) == Ok::<TouchData, CodecError>(d.first_touch),
        spec_parse_touch_data(b, pos + 31) == Ok::<TouchData, CodecError>(d.second_touch),
{
    let db = controller_data_bytes(packet_number, d);
    assert forall|k: int| 0 <= k < 6 implies b.subrange(pos + 25, pos + 31)[k]
        == touch_data_bytes(d.first_touch)[k] by {
        assert(db[25 + k] == touch_data_bytes(d.first_touch)[k]);
        assert(b.subrange(pos, pos + 69)[25 + k] == b[pos + (25 + k)]);
        assert(b.subrange(pos + 25, pos + 31)[k] == b[pos + 25 + k]);
    }
    assert(b.subrange(pos + 25, pos + 31) =~= touch_data_bytes(d.first_touch));
    lemma_touch_data_round_trip(d.first_touch, b, pos + 25);

    assert forall|k: int| 0 <= k < 6 implies b.subrange(pos + 31, pos + 37)[k]
        == touch_data_bytes(d.second_touch)[k] by {
        assert(db[31 + k] == touch_data_bytes(d.second_touch)[k]);
        assert(b.subrange(pos, pos + 69)[31 + k] == b[pos + (31 + k)]);
        assert(b.subrange(pos + 31, pos + 37)[k] == b[pos + 31 + k]);
    }
    assert(b.subrange(pos + 31, pos + 37) =~= touch_data_bytes(d.second_touch));
    lemma_touch_data_round_trip(d.second_touch, b, pos + 31);
}

/// The bytes after the touches of an encoded controller-data block hold the
/// motion timestamp and the six motion axes.
proof fn lemma_controller_data_tail(packet_number: u32, d: ControllerData, b: Seq<u8>, pos: int)
    requires
        0 <= pos,
        pos + 69 <= b.len(),
        b.subrange(pos, pos + 69) == controller_data_bytes(packet_number, d),
    ensures
        u64_from_le(
            b[pos + 37], b[pos + 38], b[pos + 39], b[pos + 40],
            b[pos + 41], b[pos + 42], b[pos + 43], b[pos + 44],
        ) == d.motion_data_timestamp,
        u32_from_le(b[pos + 45], b[pos + 46], b[pos + 47], b[pos + 48]) == d.accelerometer_x,
        u32_from_le(b[pos + 49], b[pos + 50], b[pos + 51], b[pos + 52]) == d.accelerometer_y,
        u32_from_le(b[pos + 53], b[pos + 54], b[pos + 55], b[pos + 56]) == d.accelerometer_z,
        u32_from_le(b[pos + 57], b[pos + 58], b[pos + 59], b[pos + 60]) == d.gyroscope_pitch,
        u32_from_le(b[pos + 61], b[pos + 62], b[pos + 63], b[pos + 64]) == d.gyroscope_yaw,
        u32_from_le(b[pos + 65], b[pos + 66], b[pos + 67], b[pos + 68]) == d.gyroscope_roll,
{
    let db = controller_data_bytes(packet_number, d);
    assert forall|k: int| 37 <= k < 69 implies b[pos + k] == #[trigger] db[k] by {
        assert(b.subrange(pos, pos + 69)[k] == b[pos + k]);
    }
    lemma_le64_round_trip(d.motion_data_timestamp);
    assert(db[37] == le64(d.motion_data_timestamp)[0]);
    assert(db[38] == le64(d.motion_data_timestamp)[1]);
    assert(db[39] == le64(d.motion_data_timestamp)[2]);
    assert(db[40] == le64(d.motion_data_timestamp)[3]);
    assert(db[41] == le64(d.motion_data_timestamp)[4]);
    assert(db[42] == le64(d.motion_data_timestamp)[5]);
    assert(db[43] == le64(d.motion_data_timestamp)[6]);
    assert(db[44] == le64(d.motion_data_timestamp)[7]);

    lemma_le32_round_trip(d.accelerometer_x);
    assert(db[45] == le32(d.accelerometer_x)[0]);
    assert(db[46] == le32(d.accelerometer_x)[1]);
    assert(db[47] == le32(d.accelerometer_x)[2]);
    assert(db[48] == le32(d.accelerometer_x)[3]);

    lemma_le32_round_trip(d.accelerometer_y);
    assert(db[49] == le32(d.accelerometer_y)[0]);
    assert(db[50] == le32(d.accelerometer_y)[1]);
    assert(db[51] == le32(d.accelerometer_y)[2]);
    assert(db[52] == le32(d.accelerometer_y)[3]);

    lemma_le32_round_trip(d.accelerometer_z);
    assert(db[53] == le32(d.accelerometer_z)[0]);
    assert(db[54] == le32(d.accelerometer_z)[1]);
    assert(db[55] == le32(d.accelerometer_z)[2]);
    assert(db[56] == le32(d.accelerometer_z)[3]);

    lemma_le32_round_trip(d.gyroscope_pitch);
    assert(db[57] == le32(d.gyroscope_pitch)[0]);
    assert(db[58] == le32(d.gyroscope_pitch)[1]);
    assert(db[59] == le32(d.gyroscope_pitch)[2]);
    assert(db[60] == le32(d.gyroscope_pitch)[3]);

    lemma_le32_round_trip(d.gyroscope_yaw);
    assert(db[61] == le32(d.gyroscope_yaw)[0]);
    assert(db[62] == le32(d.gyroscope_yaw)[1]);
    assert(db[63] == le32(d.gyroscope_yaw)[2]);
    assert(db[64] == le32(d.gyroscope_yaw)[3]);

    lemma_le32_round_trip(d.gyroscope_roll);
    assert(db[65] == le32(d.gyroscope_roll)[0]);
    assert(db[66] == le32(d.gyroscope_roll)[1]);
    assert(db[67] == le32(d.gyroscope_roll)[2]);
    assert(db[68] == le32(d.gyroscope_roll)[3]);
}

/// Parsing an encoded controller-data block gives the packet number and the
/// data back.
#[verifier::rlimit(60)]
pub proof fn lemma_controller_data_round_trip(
    packet_number: u32,
    d: ControllerData,
    b: Seq<u8>,
    pos: int,
)
    requires
        0 <= pos,
        pos + 69 <= b.len(),
        b.subrange(pos, pos + 69) == controller_data_bytes(packet_number, d),
    ensures
        spec_parse_controller_data(b, pos) == Ok::<(u32, ControllerData), CodecError>(
            (packet_number, d),
        ),
{
    lemma_controller_data_prefix(packet_number, d, b, pos);
    lemma_controller_data_touches(packet_number, d, b, pos);
    lemma_controller_data_tail(packet_number, d, b, pos);
    lemma_packed_bits_round_trip(buttons_a(d));
    lemma_packed_bits_round_trip(buttons_b(d));
    assert(buttons_a(d)[0] == d.d_pad_left);
    assert(buttons_a(d)[1] == d.d_pad_down);
    assert(buttons_a(d)[2] == d.d_pad_right);
    assert(buttons_a(d)[3] == d.d_pad_up);
    assert(buttons_a(d)[4] == d.start);
    assert(buttons_a(d)[5] == d.right_stick_button);
    assert(buttons_a(d)[6] == d.left_stick_button);
    assert(buttons_a(d)[7] == d.select);
    assert(buttons_b(d)[0] == d.square);
    assert(buttons_b(d)[1] == d.cross);
    assert(buttons_b(d)[2] == d.circle);
    assert(buttons_b(d)[3] == d.triangle);
    assert(buttons_b(d)[4] == d.r1);
    assert(buttons_b(d)[5] == d.l1);
    assert(buttons_b(d)[6] == d.r2);
    assert(buttons_b(d)[7] == d.l2);
}

// ---------------------------------------------------------------------------
// message payload
// ---------------------------------------------------------------------------

/// The wire bytes of a payload.
pub open spec fn message_payload_bytes(p: MessagePayload) -> Seq<u8> {
    match p {
        MessagePayload::Empty => Seq::<u8>::empty(),
        MessagePayload::ProtocolVersion(version) => le16(version),
        MessagePayload::ConnectedControllersRequest { amount, slot_numbers } => {
            le32(amount as u32) + Seq::<u8>::new(amount as nat, |k: int| slot_numbers[k])
        },
        MessagePayload::ConnectedControllerResponse { controller_info } => {
            controller_info_bytes(controller_info) + seq![0u8]
        },
        MessagePayload::ControllerDataRequest(request) => controller_data_request_bytes(request),
        MessagePayload::ControllerData { packet_number, controller_info, controller_data } => {
            controller_info_bytes(controller_info) + controller_data_bytes(
                packet_number,
                controller_data,
            )
        },
    }
}

/// Reads a client `ConnectedControllers` request at `pos`: a count in 0..=4,
/// then that many slot numbers, each below 4; the absent entries are zero.
pub open spec fn spec_parse_connected_controllers_request(b: Seq<u8>, pos: int) -> Result<
    MessagePayload,
    CodecError,
> {
    if pos + 4 > b.len() {
        Err(CodecError::TruncatedPacket)
    } else {
        let amount = u32_from_le(b[pos], b[pos + 1], b[pos + 2], b[pos + 3]) as i32;
        if amount < 0 || amount > 4 {
            Err(CodecError::InvalidCount)
        } else if pos + 4 + amount > b.len() {
            Err(CodecError::TruncatedPacket)
        } else if amount > 0 && b[pos + 4] >= 4 {
            Err(CodecError::InvalidSlotNumber)
        } else if amount > 1 && b[pos + 5] >= 4 {
            Err(CodecError::InvalidSlotNumber)
        } else if amount > 2 && b[pos + 6] >= 4 {
            Err(CodecError::InvalidSlotNumber)
        } else if amount > 3 && b[pos + 7] >= 4 {
            Err(CodecError::InvalidSlotNumber)
        } else {
            Ok(MessagePayload::ConnectedControllersRequest {
                amount,
                slot_numbers: [
                    if amount > 0 { b[pos + 4] } else { 0u8 },
                    if amount > 1 { b[pos + 5] } else { 0u8 },
                    if amount > 2 { b[pos + 6] } else { 0u8 },
                    if amount > 3 { b[pos + 7] } else { 0u8 },
                ],
            })
        }
    }
}

/// Reads the payload whose shape `source` and `message_type` demand, at `pos`.
pub open spec fn spec_parse_message_payload(
    b: Seq<u8>,
    pos: int,
    source: MessageSource,
    message_type: MessageType,
) -> Result<MessagePayload, CodecError> {
    match source {
        MessageSource::Server => match message_type {
            MessageType::ProtocolVersion => {
                if pos + 2 > b.len() {
                    Err(CodecError::TruncatedPacket)
                } else {
                    Ok(MessagePayload::ProtocolVersion(u16_from_le(b[pos], b[pos + 1])))
                }
            },
            MessageType::ConnectedControllers => {
                match spec_parse_controller_info(b, pos) {
                    Err(e) => Err(e),
                    Ok(controller_info) => {
                        if pos + 12 > b.len() {
                            Err(CodecError::TruncatedPacket)
                        } else if b[pos + 11] != 0 {
                            Err(CodecError::MalformedTerminator)
                        } else {
                            Ok(MessagePayload::ConnectedControllerResponse { controller_info })
                        }
                    },
                }
            },
            MessageType::ControllerData => {
                match spec_parse_controller_info(b, pos) {
                    Err(e) => Err(e),
                    Ok(controller_info) => match spec_parse_controller_data(b, pos + 11) {
                        Err(e) => Err(e),
                        Ok((packet_number, controller_data)) => Ok(MessagePayload::ControllerData {
                            packet_number,
                            controller_info,
                            controller_data,
                        }),
                    },
                }
            },
        },
        MessageSource::Client => match message_type {
            MessageType::ProtocolVersion => Ok(MessagePayload::Empty),
            MessageType::ConnectedControllers => {
                spec_parse_connected_controllers_request(b, pos)
            },
            MessageType::ControllerData => {
                match spec_parse_controller_data_request(b, pos) {
                    Err(e) => Err(e),
                    Ok(request) => Ok(MessagePayload::ControllerDataRequest(request)),
                }
            },
        },
    }
}

/// The number of wire bytes `message_payload_bytes` produces.
pub fn encoded_payload_length(payload: &MessagePayload) -> (n: u16)
    requires
        valid_payload(*payload),
    ensures
        n == message_payload_bytes(*payload).len(),
        n <= 80,
{
    match payload {
        MessagePayload::Empty => 0,
        MessagePayload::ProtocolVersion(_) => 2,
        MessagePayload::ConnectedControllersRequest { amount, slot_numbers: _ } => {
            4 + (*amount as u16)
        },
        MessagePayload::ConnectedControllerResponse { controller_info: _ } => 12,
        MessagePayload::ControllerDataRequest(_) => 8,
        MessagePayload::ControllerData {
            packet_number: _,
            controller_info: _,
            controller_data: _,
        } => 80,
    }
}

/// Appends the wire bytes of `message_payload`.
pub fn encode_message_payload(writer: &mut Vec<u8>, message_payload: MessagePayload)
    requires
        valid_payload(message_payload),
    ensures
        final(writer)@ == old(writer)@ + message_payload_bytes(message_payload),
{
    match message_payload {
        MessagePayload::Empty => {
            assert(final(writer)@ =~= old(writer)@ + message_payload_bytes(message_payload));
        },
        MessagePayload::ProtocolVersion(version) => {
            write_u16_le(writer, version);
        },
        MessagePayload::ConnectedControllersRequest { amount, slot_numbers } => {
            write_u32_le(writer, amount as u32);
            if amount > 0 {
                writer.push(slot_numbers[0]);
            }
            if amount > 1 {
                writer.push(slot_numbers[1]);
            }
            if amount > 2 {
                writer.push(slot_numbers[2]);
            }
            if amount > 3 {
                writer.push(slot_numbers[3]);
            }
            assert(final(writer)@ =~= old(writer)@ + message_payload_bytes(message_payload));
        },
        MessagePayload::ConnectedControllerResponse { controller_info } => {
            encode_controller_info(writer, controller_info);
            writer.push(0);
            assert(final(writer)@ =~= old(writer)@ + message_payload_bytes(message_payload));
        },
        MessagePayload::ControllerDataRequest(request) => {
            encode_controller_data_request(writer, request);
        },
        MessagePayload::ControllerData { packet_number, controller_info, controller_data } => {
            encode_controller_info(writer, controller_info);
            encode_controller_data(writer, packet_number, controller_data);
            assert(final(writer)@ =~= old(writer)@ + message_payload_bytes(message_payload));
        },
    }
}

/// Reads the payload whose shape `message_source` and `message_type` demand,
/// at `pos`.
pub fn parse_message_payload(
    packet: &[u8],
    pos: usize,
    message_source: MessageSource,
    message_type: MessageType,
) -> (r: Result<MessagePayload, CodecError>)
    requires
        pos <= packet@.len(),
    ensures
        r == spec_parse_message_payload(packet@, pos as int, message_source, message_type),
{
    match message_source {
        MessageSource::Server => match message_type {
            MessageType::ProtocolVersion => {
                if packet.len() - pos < 2 {
                    return Err(CodecError::TruncatedPacket);
                }
                Ok(MessagePayload::ProtocolVersion(read_u16_le(packet, pos)))
            },
            MessageType::ConnectedControllers => {
                let controller_info = match parse_controller_info(packet, pos) {
                    Ok(i) => i,
                    Err(e) => {
                        return Err(e);
                    },
                };
                if packet.len() - pos < 12 {
                    return Err(CodecError::TruncatedPacket);
                }
                if packet[pos + 11] != 0 {
                    return Err(CodecError::MalformedTerminator);
                }
                Ok(MessagePayload::ConnectedControllerResponse { controller_info })
            },
            MessageType::ControllerData => {
                let controller_info = match parse_controller_info(packet, pos) {
                    Ok(i) => i,
                    Err(e) => {
                        return Err(e);
                    },
                };
                let total = packet.len();
                assert(pos + 11 <= total);
                let (packet_number, controller_data) = match parse_controller_data(
                    packet,
                    pos + 11,
                ) {
                    Ok(pair) => pair,
                    Err(e) => {
                        return Err(e);
                    },
                };
                Ok(MessagePayload::ControllerData {
                    packet_number,
                    controller_info,
                    controller_data,
                })
            },
        },
        MessageSource::Client => match message_type {
            MessageType::ProtocolVersion => Ok(MessagePayload::Empty),
            MessageType::ConnectedControllers => {
                if packet.len() - pos < 4 {
                    return Err(CodecError::TruncatedPacket);
                }
                let amount = read_u32_le(packet, pos) as i32;
                if amount < 0 || amount > 4 {
                    return Err(CodecError::InvalidCount);
                }
                assert(pos + 4 <= packet@.len());
                if packet.len() - (pos + 4) < amount as usize {
                    return Err(CodecError::TruncatedPacket);
                }
                if amount > 0 && packet[pos + 4] >= 4 {
                    return Err(CodecError::InvalidSlotNumber);
                }
                if amount > 1 && packet[pos + 5] >= 4 {
                    return Err(CodecError::InvalidSlotNumber);
                }
                if amount > 2 && packet[pos + 6] >= 4 {
                    return Err(CodecError::InvalidSlotNumber);
                }
                if amount > 3 && packet[pos + 7] >= 4 {
                    return Err(CodecError::InvalidSlotNumber);
                }
                let slot_numbers = [
                    if amount > 0 { packet[pos + 4] } else { 0u8 },
                    if amount > 1 { packet[pos + 5] } else { 0u8 },
                    if amount > 2 { packet[pos + 6] } else { 0u8 },
                    if amount > 3 { packet[pos + 7] } else { 0u8 },
                ];
                Ok(MessagePayload::ConnectedControllersRequest { amount, slot_numbers })
            },
            MessageType::ControllerData => {
                match parse_controller_data_request(packet, pos) {
                    Err(e) => Err(e),
                    Ok(request) => Ok(MessagePayload::ControllerDataRequest(request)),
                }
            },
        },
    }
}

/// Parsing an encoded payload, under the source and type that produced it,
/// gives the payload back.
#[verifier::rlimit(60)]
pub proof fn lemma_message_payload_round_trip(
    source: MessageSource,
    message_type: MessageType,
    p: MessagePayload,
    b: Seq<u8>,
    pos: int,
)
    requires
        valid_payload(p),
        crate::protocol::payload_matches(source, message_type, p),
        0 <= pos,
        pos + message_payload_bytes(p).len() == b.len(),
        b.subrange(pos, b.len() as int) == message_payload_bytes(p),
    ensures
        spec_parse_message_payload(b, pos, source, message_type) == Ok::<
            MessagePayload,
            CodecError,
        >(p),
{
    let pb = message_payload_bytes(p);
    assert forall|k: int| 0 <= k < pb.len() implies b[pos + k] == #[trigger] pb[k] by {
        assert(b.subrange(pos, b.len() as int)[k] == b[pos + k]);
    }
    match (source, message_type) {
        (MessageSource::Server, MessageType::ProtocolVersion) => {
            let version = p->ProtocolVersion_0;
            lemma_le16_round_trip(version);
            assert(pb[0] == le16(version)[0]);
            assert(pb[1] == le16(version)[1]);
        },
        (MessageSource::Server, MessageType::ConnectedControllers) => {
            let info = p->ConnectedControllerResponse_controller_info;
            assert forall|k: int| 0 <= k < 11 implies b.subrange(pos, pos + 11)[k]
                == controller_info_bytes(info)[k] by {
                assert(pb[k] == controller_info_bytes(info)[k]);
                assert(b.subrange(pos, pos + 11)[k] == b[pos + k]);
            }
            assert(b.subrange(pos, pos + 11) =~= controller_info_bytes(info));
            lemma_controller_info_round_trip(info, b, pos);
            assert(pb[11] == 0u8);
        },
        (MessageSource::Server, MessageType::ControllerData) => {
            let info = p->ControllerData_controller_info;
            let data = p->ControllerData_controller_data;
            let packet_number = p->ControllerData_packet_number;
            assert forall|k: int| 0 <= k < 11 implies b.subrange(pos, pos + 11)[k]
                == controller_info_bytes(info)[k] by {
                assert(pb[k] == controller_info_bytes(info)[k]);
                assert(b.subrange(pos, pos + 11)[k] == b[pos + k]);
            }
            assert(b.subrange(pos, pos + 11) =~= controller_info_bytes(info));
            lemma_controller_info_round_trip(info, b, pos);
            assert forall|k: int| 0 <= k < 69 implies b.subrange(pos + 11, pos + 80)[k]
                == controller_data_bytes(packet_number, data)[k] by {
                assert(pb[11 + k] == controller_data_bytes(packet_number, data)[k]);
                assert(b[pos + (11 + k)] == pb[11 + k]);
                assert(b.subrange(pos + 11, pos + 80)[k] == b[pos + 11 + k]);
            }
            assert(b.subrange(pos + 11, pos + 80) =~= controller_data_bytes(packet_number, data));
            lemma_controller_data_round_trip(packet_number, data, b, pos + 11);
        },
        (MessageSource::Client, MessageType::ProtocolVersion) => {
        },
        (MessageSource::Client, MessageType::ConnectedControllers) => {
            let amount = p->ConnectedControllersRequest_amount;
            let slot_numbers = p->ConnectedControllersRequest_slot_numbers;
            lemma_le32_round_trip(amount as u32);
            assert(pb[0] == le32(amount as u32)[0]);
            assert(pb[1] == le32(amount as u32)[1]);
            assert(pb[2] == le32(amount as u32)[2]);
            assert(pb[3] == le32(amount as u32)[3]);
            assert(u32_from_le(b[pos], b[pos + 1], b[pos + 2], b[pos + 3]) as i32 == amount);
            assert forall|k: int| 0 <= k < amount implies b[pos + 4 + k] == slot_numbers[k] by {
                assert(pb[4 + k] == slot_numbers[k]);
                assert(b[pos + (4 + k)] == pb[4 + k]);
            }
            assert(amount > 0 ==> b[pos + 4] == slot_numbers[0] && slot_numbers[0] < 4);
            assert(amount > 1 ==> b[pos + 5] == slot_numbers[1] && slot_numbers[1] < 4);
            assert(amount > 2 ==> b[pos + 6] == slot_numbers[2] && slot_numbers[2] < 4);
            assert(amount > 3 ==> b[pos + 7] == slot_numbers[3] && slot_numbers[3] < 4);
            let parsed = spec_parse_connected_controllers_request(b, pos);
            assert(parsed is Ok);
            let q = parsed->Ok_0;
            assert(q->ConnectedControllersRequest_amount == amount);
            let parsed_slots = q->ConnectedControllersRequest_slot_numbers;
            assert(parsed_slots[0] == slot_numbers[0]);
            assert(parsed_slots[1] == slot_numbers[1]);
            assert(parsed_slots[2] == slot_numbers[2]);
            assert(parsed_slots[3] == slot_numbers[3]);
            assert(parsed_slots =~= slot_numbers);
        },
        (MessageSource::Client, MessageType::ControllerData) => {
            let request = p->ControllerDataRequest_0;
            assert forall|k: int| 0 <= k < 8 implies b.subrange(pos, pos + 8)[k]
                == controller_data_request_bytes(request)[k] by {
                assert(pb[k] == controller_data_request_bytes(request)[k]);
                assert(b.subrange(pos, pos + 8)[k] == b[pos + k]);
            }
            assert(b.subrange(pos, pos + 8) =~= controller_data_request_bytes(request));
            lemma_controller_data_request_round_trip(request, b, pos);
        },
    }
}

/// Where each field stands inside the 16 header bytes.
pub proof fn lemma_header_bytes_index(h: MessageHeader)
    ensures
        header_bytes(h).len() == 16,
        header_bytes(h)[0] == magic_bytes(h.source)[0],
        header_bytes(h)[1] == magic_bytes(h.source)[1],
        header_bytes(h)[2] == magic_bytes(h.source)[2],
        header_bytes(h)[3] == magic_bytes(h.source)[3],
        header_bytes(h)[4] == le16(h.protocol_version)[0],
        header_bytes(h)[5] == le16(h.protocol_version)[1],
        header_bytes(h)[6] == le16(h.message_length)[0],
        header_bytes(h)[7] == le16(h.message_length)[1],
        header_bytes(h)[8] == le32(h.checksum)[0],
        header_bytes(h)[9] == le32(h.checksum)[1],
        header_bytes(h)[10] == le32(h.checksum)[2],
        header_bytes(h)[11] == le32(h.checksum)[3],
        header_bytes(h)[12] == le32(h.source_id)[0],
        header_bytes(h)[13] == le32(h.source_id)[1],
        header_bytes(h)[14] == le32(h.source_id)[2],
        header_bytes(h)[15] == le32(h.source_id)[3],
{
    assert(magic_bytes(h.source).len() == 4);
}

/// A valid payload encodes to at most 80 bytes.
pub proof fn lemma_payload_bytes_len(p: MessagePayload)
    requires
        valid_payload(p),
    ensures
        message_payload_bytes(p).len() <= 80,
{
}

} // verus!
