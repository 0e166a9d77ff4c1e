//! The wire protocol: data model, validity, and the message codec.
//!
//! Every datagram is a [`Message`]: a fixed 16-byte header, a `u32` message
//! type, and a payload whose shape depends on the sender role and the type.
//! [`encode_message`] produces the exact wire bytes, [`parse_message`]
//! validates and decodes them; both are proved against the spec-level byte
//! layout, and [`lemma_round_trip`] shows that decoding an encoded message
//! gives the message back.

pub mod bytes;
pub mod internals;

use vstd::prelude::*;

verus! {

/// The protocol version this crate implements; the decoder rejects any other.
pub const PROTOCOL_VERSION: u16 = 1001;

// ---------------------------------------------------------------------------
// data model
// ---------------------------------------------------------------------------

/// The role that emitted a datagram, identified by its 4-byte magic string.
#[derive(Copy, Clone, Debug, PartialEq, Eq, Structural)]
pub enum MessageSource {
    Server,
    Client,
}

/// The message type word that follows the header.
#[derive(Copy, Clone, Debug, PartialEq, Eq, Structural)]
pub enum MessageType {
    ProtocolVersion,
    ConnectedControllers,
    ControllerData,
}

/// Whether a slot currently carries a controller.
#[derive(Copy, Clone, Debug, PartialEq, Eq, Structural)]
pub enum SlotState {
    NotConnected,
    Reserved,
    Connected,
}

/// The motion capability of the controller in a slot.
#[derive(Copy, Clone, Debug, PartialEq, Eq, Structural)]
pub enum DeviceType {
    NotApplicable,
    PartialGyro,
    FullGyro,
}

/// How the controller in a slot is attached.
#[derive(Copy, Clone, Debug, PartialEq, Eq, Structural)]
pub enum ConnectionType {
    NotApplicable,
    USB,
    Bluetooth,
}

/// The battery level of the controller in a slot.
#[derive(Copy, Clone, Debug, PartialEq, Eq, Structural)]
pub enum BatteryStatus {
    NotApplicable,
    Dying,
    Low,
    Medium,
    High,
    Full,
    Charging,
    Charged,
}

/// What a client asks the server to report controller data for.
#[derive(Copy, Clone, Debug, PartialEq, Eq, Structural)]
pub enum ControllerDataRequest {
    ReportAll,
    SlotNumber(u8),
    MAC(u64),
}

/// The payload of a message; its shape is fully determined by the sender
/// role and the message type.
#[derive(Copy, Clone, Debug, PartialEq)]
pub enum MessagePayload {
    Empty,
    ProtocolVersion(u16),
    ConnectedControllersRequest { amount: i32, slot_numbers: [u8; 4] },
    ConnectedControllerResponse { controller_info: ControllerInfo },
    ControllerDataRequest(ControllerDataRequest),
    ControllerData {
        packet_number: u32,
        controller_info: ControllerInfo,
        controller_data: ControllerData,
    },
}

/// The fixed 16-byte prefix of every datagram.
#[derive(Copy, Clone, Debug, PartialEq, Eq, Structural)]
pub struct MessageHeader {
    pub source: MessageSource,
    pub protocol_version: u16,
    /// Length of everything after the 16-byte header; the encoder fills it.
    pub message_length: u16,
    /// CRC-32 (IEEE) over the datagram with this field zeroed; the encoder
    /// fills it.
    pub checksum: u32,
    /// Random identifier of the emitter, chosen once per process.
    pub source_id: u32,
}

/// Metadata of the controller in one slot (11 bytes on the wire).
#[derive(Copy, Clone, Debug, PartialEq, Eq, Structural)]
pub struct ControllerInfo {
    pub slot: u8,
    pub slot_state: SlotState,
    pub device_type: DeviceType,
    pub connection_type: ConnectionType,
    /// A 48-bit MAC address; always below 2^48.
    pub mac_address: u64,
    pub battery_status: BatteryStatus,
}

/// One touch point (6 bytes on the wire).
#[derive(Copy, Clone, Debug, PartialEq, Eq, Structural)]
pub struct TouchData {
    pub active: bool,
    pub id: u8,
    pub position_x: u16,
    pub position_y: u16,
}

/// One sample of controller state.
///
/// The accelerometer and gyroscope axes hold the bit patterns of IEEE-754
/// binary32 values, exactly as they stand on the wire; producers and
/// consumers convert with `f32::to_bits` / `f32::from_bits`.
#[derive(Copy, Clone, Debug, PartialEq, Eq, Structural)]
pub struct ControllerData {
    pub connected: bool,
    pub d_pad_left: bool,
    pub d_pad_down: bool,
    pub d_pad_right: bool,
    pub d_pad_up: bool,
    pub start: bool,
    pub right_stick_button: bool,
    pub left_stick_button: bool,
    pub select: bool,
    pub square: bool,
    pub cross: bool,
    pub circle: bool,
    pub triangle: bool,
    pub r1: bool,
    pub l1: bool,
    pub r2: bool,
    pub l2: bool,
    pub ps: u8,
    pub touch: u8,
    pub left_stick_x: u8,
    pub left_stick_y: u8,
    pub right_stick_x: u8,
    pub right_stick_y: u8,
    pub analog_d_pad_left: u8,
    pub analog_d_pad_down: u8,
    pub analog_d_pad_right: u8,
    pub analog_d_pad_up: u8,
    pub analog_square: u8,
    pub analog_triangle: u8,
    pub analog_cross: u8,
    pub analog_circle: u8,
    pub analog_r1: u8,
    pub analog_l1: u8,
    pub analog_r2: u8,
    pub analog_l2: u8,
    pub first_touch: TouchData,
    pub second_touch: TouchData,
    /// Microseconds.
    pub motion_data_timestamp: u64,
    pub accelerometer_x: u32,
    pub accelerometer_y: u32,
    pub accelerometer_z: u32,
    pub gyroscope_pitch: u32,
    pub gyroscope_yaw: u32,
    pub gyroscope_roll: u32,
}

/// A whole datagram.
#[derive(Copy, Clone, Debug, PartialEq)]
pub struct Message {
    pub header: MessageHeader,
    pub message_type: MessageType,
    pub payload: MessagePayload,
}

// ---------------------------------------------------------------------------
// errors
// ---------------------------------------------------------------------------

/// The field whose wire byte held a value outside its encoding.
#[derive(Copy, Clone, Debug, PartialEq, Eq, Structural)]
pub enum EnumField {
    MessageType,
    SlotState,
    DeviceType,
    ConnectionType,
    BatteryStatus,
    TouchActive,
    Connected,
    RequestType,
}

/// Why a datagram was rejected by the decoder.
#[derive(Copy, Clone, Debug, PartialEq, Eq, Structural)]
pub enum CodecError {
    /// The 4-byte magic did not name the expected peer role.
    InvalidMagic,
    /// The protocol version was not 1001.
    InvalidVersion,
    /// The datagram ended before a field that had to be read.
    TruncatedPacket,
    /// The checksum field did not match the CRC-32 of the datagram.
    BadChecksum,
    /// An enum byte held a value outside its encoding.
    InvalidEnumValue(EnumField),
    /// A slot number was 4 or more.
    InvalidSlotNumber,
    /// A `ConnectedControllers` amount was outside 0..=4.
    InvalidCount,
    /// The zero terminator of a `ConnectedControllers` response was absent.
    MalformedTerminator,
}

// ---------------------------------------------------------------------------
// defaults
// ---------------------------------------------------------------------------

impl Default for SlotState {
    /// An empty slot.
    fn default() -> (r: SlotState)
        ensures
            r == SlotState::NotConnected,
    {
        SlotState::NotConnected
    }
}

impl Default for DeviceType {
    /// No device.
    fn default() -> (r: DeviceType)
        ensures
            r == DeviceType::NotApplicable,
    {
        DeviceType::NotApplicable
    }
}

impl Default for ConnectionType {
    /// No connection.
    fn default() -> (r: ConnectionType)
        ensures
            r == ConnectionType::NotApplicable,
    {
        ConnectionType::NotApplicable
    }
}

impl Default for BatteryStatus {
    /// No battery reading.
    fn default() -> (r: BatteryStatus)
        ensures
            r == BatteryStatus::NotApplicable,
    {
        BatteryStatus::NotApplicable
    }
}

/// The all-default controller metadata of a slot.
pub open spec fn default_controller_info() -> ControllerInfo {
    ControllerInfo {
        slot: 0,
        slot_state: SlotState::NotConnected,
        device_type: DeviceType::NotApplicable,
        connection_type: ConnectionType::NotApplicable,
        mac_address: 0,
        battery_status: BatteryStatus::NotApplicable,
    }
}

impl Default for ControllerInfo {
    fn default() -> (r: ControllerInfo)
        ensures
            r == default_controller_info(),
    {
        ControllerInfo {
            slot: 0,
            slot_state: SlotState::NotConnected,
            device_type: DeviceType::NotApplicable,
            connection_type: ConnectionType::NotApplicable,
            mac_address: 0,
            battery_status: BatteryStatus::NotApplicable,
        }
    }
}

/// The all-default touch point.
pub open spec fn default_touch_data() -> TouchData {
    TouchData { active: false, id: 0, position_x: 0, position_y: 0 }
}

impl Default for TouchData {
    fn default() -> (r: TouchData)
        ensures
            r == default_touch_data(),
    {
        TouchData { active: false, id: 0, position_x: 0, position_y: 0 }
    }
}

/// The all-default controller state.
pub open spec fn default_controller_data() -> ControllerData {
    ControllerData {
        connected: false,
        d_pad_left: false,
        d_pad_down: false,
        d_pad_right: false,
        d_pad_up: false,
        start: false,
        right_stick_button: false,
        left_stick_button: false,
        select: false,
        square: false,
        cross: false,
        circle: false,
        triangle: false,
        r1: false,
        l1: false,
        r2: false,
        l2: false,
        ps: 0,
        touch: 0,
        left_stick_x: 0,
        left_stick_y: 0,
        right_stick_x: 0,
        right_stick_y: 0,
        analog_d_pad_left: 0,
        analog_d_pad_down: 0,
        analog_d_pad_right: 0,
        analog_d_pad_up: 0,
        analog_square: 0,
        analog_triangle: 0,
        analog_cross: 0,
        analog_circle: 0,
        analog_r1: 0,
        analog_l1: 0,
        analog_r2: 0,
        analog_l2: 0,
        first_touch: default_touch_data(),
        second_touch: default_touch_data(),
        motion_data_timestamp: 0,
        accelerometer_x: 0,
        accelerometer_y: 0,
        accelerometer_z: 0,
        gyroscope_pitch: 0,
        gyroscope_yaw: 0,
        gyroscope_roll: 0,
    }
}

impl Default for ControllerData {
    fn default() -> (r: ControllerData)
        ensures
            r == default_controller_data(),
    {
        ControllerData {
            connected: false,
            d_pad_left: false,
            d_pad_down: false,
            d_pad_right: false,
            d_pad_up: false,
            start: false,
            right_stick_button: false,
            left_stick_button: false,
            select: false,
            square: false,
            cross: false,
            circle: false,
            triangle: false,
            r1: false,
            l1: false,
            r2: false,
            l2: false,
            ps: 0,
            touch: 0,
            left_stick_x: 0,
            left_stick_y: 0,
            right_stick_x: 0,
            right_stick_y: 0,
            analog_d_pad_left: 0,
            analog_d_pad_down: 0,
            analog_d_pad_right: 0,
            analog_d_pad_up: 0,
            analog_square: 0,
            analog_triangle: 0,
            analog_cross: 0,
            analog_circle: 0,
            analog_r1: 0,
            analog_l1: 0,
            analog_r2: 0,
            analog_l2: 0,
            first_touch: TouchData { active: false, id: 0, position_x: 0, position_y: 0 },
            second_touch: TouchData { active: false, id: 0, position_x: 0, position_y: 0 },
            motion_data_timestamp: 0,
            accelerometer_x: 0,
            accelerometer_y: 0,
            accelerometer_z: 0,
            gyroscope_pitch: 0,
            gyroscope_yaw: 0,
            gyroscope_roll: 0,
        }
    }
}

// ---------------------------------------------------------------------------
// validity
// ---------------------------------------------------------------------------

/// Whether `i` can stand on the wire: the slot index and the MAC address
/// fit their encodings.
pub open spec fn valid_info(i: ControllerInfo) -> bool {
    &&& i.slot < 4
    &&& i.mac_address < 0x1000000000000
}

/// Whether `r` can stand on the wire.
pub open spec fn valid_request(r: ControllerDataRequest) -> bool {
    match r {
        ControllerDataRequest::ReportAll => true,
        ControllerDataRequest::SlotNumber(s) => s < 4,
        ControllerDataRequest::MAC(m) => m < 0x1000000000000,
    }
}

/// Whether `p` can stand on the wire and decodes back to itself.
pub open spec fn valid_payload(p: MessagePayload) -> bool {
    match p {
        MessagePayload::Empty => true,
        MessagePayload::ProtocolVersion(_) => true,
        MessagePayload::ConnectedControllersRequest { amount, slot_numbers } => {
            &&& 0 <= amount <= 4
            &&& forall|k: int| 0 <= k < amount ==> slot_numbers[k] < 4
            &&& forall|k: int| amount <= k < 4 ==> slot_numbers[k] == 0
        },
        MessagePayload::ConnectedControllerResponse { controller_info } => {
            valid_info(controller_info)
        },
        MessagePayload::ControllerDataRequest(r) => valid_request(r),
        MessagePayload::ControllerData { packet_number: _, controller_info, controller_data: _ } => {
            valid_info(controller_info)
        },
    }
}

/// The payload shape that `source` and `message_type` demand.
pub open spec fn payload_matches(
    source: MessageSource,
    message_type: MessageType,
    payload: MessagePayload,
) -> bool {
    match (source, message_type) {
        (MessageSource::Server, MessageType::ProtocolVersion) => {
            payload is ProtocolVersion
        },
        (MessageSource::Server, MessageType::ConnectedControllers) => {
            payload is ConnectedControllerResponse
        },
        (MessageSource::Server, MessageType::ControllerData) => {
            payload is ControllerData
        },
        (MessageSource::Client, MessageType::ProtocolVersion) => {
            payload is Empty
        },
        (MessageSource::Client, MessageType::ConnectedControllers) => {
            payload is ConnectedControllersRequest
        },
        (MessageSource::Client, MessageType::ControllerData) => {
            payload is ControllerDataRequest
        },
    }
}

/// Whether `m` can stand on the wire and decodes back to itself (with the
/// header's length and checksum fields filled in by the encoder).
pub open spec fn valid_message(m: Message) -> bool {
    &&& m.header.protocol_version == PROTOCOL_VERSION
    &&& payload_matches(m.header.source, m.message_type, m.payload)
    &&& valid_payload(m.payload)
}

// ---------------------------------------------------------------------------
// checksum
// ---------------------------------------------------------------------------

/// CRC-32 (IEEE polynomial) of a byte sequence; computed by the `crc` crate.
pub uninterp spec fn crc32_of(bytes: Seq<u8>) -> u32;

/// Relies on `crc::Crc::<u32>::checksum` with the `CRC_32_ISO_HDLC`
/// algorithm (the reflected IEEE polynomial 0xEDB88320): the checksum is a
/// function of the bytes alone.
#[verifier::external_body]
fn crc32_ieee(bytes: &[u8]) -> (r: u32)
    ensures
        r == crc32_of(bytes@),
{
    crc::Crc::<u32>::new(&crc::CRC_32_ISO_HDLC).checksum(bytes)
}

/// `b` with the four checksum bytes (offsets 8..12) cleared.
pub open spec fn with_zeroed_checksum(b: Seq<u8>) -> Seq<u8> {
    b.map(|k: int, x: u8| if 8 <= k < 12 { 0u8 } else { x })
}

/// CRC-32 (IEEE) of the packet with its checksum field treated as zero.
/// Works on a copy; the caller's buffer is never changed.
fn compute_checksum(packet: &[u8]) -> (r: u32)
    ensures
        r == crc32_of(with_zeroed_checksum(packet@)),
{
    let n = packet.len();
    let mut cleared: Vec<u8> = Vec::new();
    let mut k: usize = 0;
    while k < n
        invariant
            k <= n,
            n == packet@.len(),
            cleared@.len() == k,
            forall|j: int|
                0 <= j < k ==> cleared@[j] == (if 8 <= j < 12 { 0u8 } else { packet@[j] }),
        decreases n - k,
    {
        if k >= 8 && k < 12 {
            cleared.push(0);
        } else {
            cleared.push(packet[k]);
        }
        k += 1;
    }
    assert(cleared@ =~= with_zeroed_checksum(packet@));
    crc32_ieee(cleared.as_slice())
}

// ---------------------------------------------------------------------------
// the wire layout of a whole message
// ---------------------------------------------------------------------------

/// The bytes after the header: the message type word, then the payload.
pub open spec fn message_body_bytes(m: Message) -> Seq<u8> {
    internals::message_type_bytes(m.message_type) + internals::message_payload_bytes(m.payload)
}

/// The header as the encoder first writes it: the length field filled, the
/// checksum still zero.
pub open spec fn prechecksum_header(m: Message) -> MessageHeader {
    MessageHeader {
        source: m.header.source,
        protocol_version: m.header.protocol_version,
        message_length: message_body_bytes(m).len() as u16,
        checksum: 0,
        source_id: m.header.source_id,
    }
}

/// The whole datagram with the checksum bytes still zero.
pub open spec fn prechecksum_bytes(m: Message) -> Seq<u8> {
    internals::header_bytes(prechecksum_header(m)) + message_body_bytes(m)
}

/// The checksum the encoder fills in: CRC-32 of the datagram with the
/// checksum field zero.
pub open spec fn wire_checksum(m: Message) -> u32 {
    crc32_of(prechecksum_bytes(m))
}

/// The header as it stands on the wire.
pub open spec fn wire_header(m: Message) -> MessageHeader {
    MessageHeader { checksum: wire_checksum(m), ..prechecksum_header(m) }
}

/// The message as the decoder returns it: the same message, with the
/// header's length and checksum fields holding what the encoder wrote.
pub open spec fn wire_message(m: Message) -> Message {
    Message { header: wire_header(m), message_type: m.message_type, payload: m.payload }
}

/// The exact bytes `encode_message` produces for `m`.
pub open spec fn wire_bytes(m: Message) -> Seq<u8> {
    internals::header_bytes(wire_header(m)) + message_body_bytes(m)
}

// ---------------------------------------------------------------------------
// encoding
// ---------------------------------------------------------------------------

/// Encodes `message` into `writer`, which must be empty: header, type and
/// payload in two passes, the second with the length and checksum fields
/// filled in.
pub fn encode_message(writer: &mut Vec<u8>, message: Message)
    requires
        old(writer)@.len() == 0,
        valid_message(message),
    ensures
        final(writer)@ == wire_bytes(message),
{
    let length = 4 + internals::encoded_payload_length(&message.payload);
    let draft_header = MessageHeader {
        source: message.header.source,
        protocol_version: message.header.protocol_version,
        message_length: length,
        checksum: 0,
        source_id: message.header.source_id,
    };
    proof {
        assert(message_body_bytes(message).len() == 4 + internals::message_payload_bytes(
            message.payload,
        ).len());
        assert(draft_header == prechecksum_header(message));
    }

    let mut draft: Vec<u8> = Vec::new();
    internals::encode_message_header(&mut draft, draft_header);
    internals::encode_message_type(&mut draft, message.message_type);
    internals::encode_message_payload(&mut draft, message.payload);
    assert(draft@ =~= prechecksum_bytes(message));

    let checksum = compute_checksum(draft.as_slice());
    proof {
        bytes::lemma_le32_zero();
        internals::lemma_header_bytes_index(draft_header);
        assert(with_zeroed_checksum(draft@) =~= draft@);
    }

    let wire = MessageHeader { checksum, ..draft_header };
    internals::encode_message_header(writer, wire);
    internals::encode_message_type(writer, message.message_type);
    internals::encode_message_payload(writer, message.payload);
    assert(final(writer)@ =~= wire_bytes(message));
}

// ---------------------------------------------------------------------------
// decoding
// ---------------------------------------------------------------------------

/// Decodes a datagram that `source` is expected to have sent.
///
/// Validates in order: the magic (which must name `source`), the protocol
/// version, the length field (a lower bound; trailing bytes are tolerated),
/// the checksum when `verify_checksum` holds, the message type, and the
/// payload by source and type.
pub open spec fn spec_parse_message(
    source: MessageSource,
    b: Seq<u8>,
    verify_checksum: bool,
) -> Result<Message, CodecError> {
    match internals::spec_parse_header(source, b) {
        Err(e) => Err(e),
        Ok(header) => {
            if header.protocol_version != PROTOCOL_VERSION {
                Err(CodecError::InvalidVersion)
            } else if b.len() - 16 < header.message_length {
                Err(CodecError::TruncatedPacket)
            } else if verify_checksum && crc32_of(with_zeroed_checksum(b)) != header.checksum {
                Err(CodecError::BadChecksum)
            } else {
                match internals::spec_parse_message_type(b, 16) {
                    Err(e) => Err(e),
                    Ok(message_type) => {
                        match internals::spec_parse_message_payload(b, 20, source, message_type) {
                            Err(e) => Err(e),
                            Ok(payload) => Ok(Message { header, message_type, payload }),
                        }
                    },
                }
            }
        },
    }
}

/// Decodes a datagram that `message_source` is expected to have sent.
pub fn parse_message(message_source: MessageSource, packet: &[u8], verify_checksum: bool) -> (r:
    Result<Message, CodecError>)
    ensures
        r == spec_parse_message(message_source, packet@, verify_checksum),
{
    let header = match internals::parse_message_header(message_source, packet) {
        Ok(h) => h,
        Err(e) => {
            return Err(e);
        },
    };

    if header.protocol_version != PROTOCOL_VERSION {
        return Err(CodecError::InvalidVersion);
    }

    if packet.len() - 16 < header.message_length as usize {
        return Err(CodecError::TruncatedPacket);
    }

    if verify_checksum {
        let checksum = compute_checksum(packet);
        if checksum != header.checksum {
            return Err(CodecError::BadChecksum);
        }
    }

    let message_type = match internals::parse_message_type(packet, 16) {
        Ok(t) => t,
        Err(e) => {
            return Err(e);
        },
    };

    let payload = match internals::parse_message_payload(packet, 20, message_source, message_type) {
        Ok(p) => p,
        Err(e) => {
            return Err(e);
        },
    };

    Ok(Message { header, message_type, payload })
}

// ---------------------------------------------------------------------------
// laws
// ---------------------------------------------------------------------------

/// Round trip: decoding an encoded message, with the checksum verified,
/// gives the message back.  The decoded header carries the length and
/// checksum the encoder filled in; every other part of the message is
/// returned unchanged, so a message whose header already holds those fields
/// decodes to itself.
#[verifier::rlimit(60)]
pub proof fn lemma_round_trip(m: Message, verify_checksum: bool)
    requires
        valid_message(m),
    ensures
        spec_parse_message(m.header.source, wire_bytes(m), verify_checksum) == Ok::<
            Message,
            CodecError,
        >(wire_message(m)),
        m.header == wire_header(m) ==> spec_parse_message(
            m.header.source,
            wire_bytes(m),
            verify_checksum,
        ) == Ok::<Message, CodecError>(m),
{
    let b = wire_bytes(m);
    let wh = wire_header(m);
    let ph = prechecksum_header(m);
    let body = message_body_bytes(m);
    internals::lemma_header_bytes_index(wh);
    internals::lemma_header_bytes_index(ph);
    internals::lemma_payload_bytes_len(m.payload);
    bytes::lemma_le32_zero();
    assert(internals::header_bytes(wh).len() == 16);
    assert(body.len() <= 84);
    assert(b.len() == 16 + body.len());

    // the header at the front of the wire
    assert forall|k: int| 0 <= k < 16 implies b.subrange(0, 16)[k]
        == internals::header_bytes(wh)[k] by {
        assert(b[k] == internals::header_bytes(wh)[k]);
        assert(b.subrange(0, 16)[k] == b[k]);
    }
    assert(b.subrange(0, 16) =~= internals::header_bytes(wh));
    internals::lemma_header_round_trip(wh, b);
    assert(wh.source == m.header.source);

    // the version gate and the length bound
    assert(wh.protocol_version == PROTOCOL_VERSION);
    assert(wh.message_length == body.len());
    assert(!(b.len() - 16 < wh.message_length));

    // the checksum: clearing the checksum bytes of the wire gives back the
    // draft the encoder computed the checksum over
    assert forall|k: int| 0 <= k < b.len() implies with_zeroed_checksum(b)[k]
        == prechecksum_bytes(m)[k] by {
        if k < 8 || (12 <= k && k < 16) {
            assert(b[k] == internals::header_bytes(wh)[k]);
            assert(prechecksum_bytes(m)[k] == internals::header_bytes(ph)[k]);
        } else if 8 <= k && k < 12 {
            assert(prechecksum_bytes(m)[k] == internals::header_bytes(ph)[k]);
            assert(internals::header_bytes(ph)[k] == bytes::le32(0)[k - 8]);
        } else {
            assert(b[k] == body[k - 16]);
            assert(prechecksum_bytes(m)[k] == body[k - 16]);
        }
    }
    assert(with_zeroed_checksum(b) =~= prechecksum_bytes(m));
    assert(crc32_of(with_zeroed_checksum(b)) == wh.checksum);

    // the message type word at offset 16
    assert forall|k: int| 0 <= k < 4 implies b.subrange(16, 20)[k]
        == internals::message_type_bytes(m.message_type)[k] by {
        assert(body[k] == internals::message_type_bytes(m.message_type)[k]);
        assert(b[16 + k] == body[k]);
        assert(b.subrange(16, 20)[k] == b[16 + k]);
    }
    assert(b.subrange(16, 20) =~= internals::message_type_bytes(m.message_type));
    internals::lemma_message_type_round_trip(m.message_type, b, 16);

    // the payload at offset 20
    let pb = internals::message_payload_bytes(m.payload);
    assert forall|k: int| 0 <= k < pb.len() implies b.subrange(20, b.len() as int)[k]
        == pb[k] by {
        assert(body[4 + k] == pb[k]);
        assert(b[16 + (4 + k)] == body[4 + k]);
        assert(b.subrange(20, b.len() as int)[k] == b[20 + k]);
    }
    assert(b.subrange(20, b.len() as int) =~= pb);
    internals::lemma_message_payload_round_trip(m.header.source, m.message_type, m.payload, b, 20);
}

/// Length field: in every encoded message, the little-endian `u16` at
/// offsets 6..8 holds the byte count after the 16-byte header.
pub proof fn lemma_length_field(m: Message)
    requires
        valid_message(m),
    ensures
        wire_bytes(m).len() >= 16,
        bytes::u16_from_le(wire_bytes(m)[6], wire_bytes(m)[7]) == wire_bytes(m).len() - 16,
{
    let b = wire_bytes(m);
    let wh = wire_header(m);
    internals::lemma_header_bytes_index(wh);
    internals::lemma_payload_bytes_len(m.payload);
    assert(b[6] == internals::header_bytes(wh)[6]);
    assert(b[7] == internals::header_bytes(wh)[7]);
    bytes::lemma_le16_round_trip(wh.message_length);
}

/// Version gate: a packet that parses as far as its header but carries a
/// protocol version other than 1001 is rejected with `InvalidVersion`,
/// whether or not the checksum is verified.
pub proof fn lemma_version_gate(source: MessageSource, b: Seq<u8>, verify_checksum: bool)
    requires
        internals::spec_parse_header(source, b) is Ok,
        bytes::u16_from_le(b[4], b[5]) != PROTOCOL_VERSION,
    ensures
        spec_parse_message(source, b, verify_checksum) == Err::<Message, CodecError>(
            CodecError::InvalidVersion,
        ),
{
}

/// Whatever the decoder accepts is a valid message: the version is 1001,
/// the payload shape matches the sender role and the type, and every field
/// fits its encoding.  The engines may therefore consume decoded messages
/// directly.
pub proof fn lemma_parsed_message_valid(source: MessageSource, b: Seq<u8>, verify_checksum: bool)
    requires
        spec_parse_message(source, b, verify_checksum) is Ok,
    ensures
        valid_message(spec_parse_message(source, b, verify_checksum)->Ok_0),
{
    let m = spec_parse_message(source, b, verify_checksum)->Ok_0;
    match (source, m.message_type) {
        (MessageSource::Server, MessageType::ConnectedControllers) => {
            bytes::lemma_u48_bound(b[24], b[25], b[26], b[27], b[28], b[29]);
        },
        (MessageSource::Server, MessageType::ControllerData) => {
            bytes::lemma_u48_bound(b[24], b[25], b[26], b[27], b[28], b[29]);
        },
        (MessageSource::Client, MessageType::ControllerData) => {
            if b[20] == 2 {
                bytes::lemma_u48_bound(b[22], b[23], b[24], b[25], b[26], b[27]);
            }
        },
        _ => {},
    }
}

} // verus!
