use pad_motion::client::{Client, ClientEvent};
use pad_motion::protocol::{
    encode_message, parse_message, BatteryStatus, ConnectionType, ControllerData,
    ControllerDataRequest, ControllerInfo, DeviceType, Message, MessageHeader, MessagePayload,
    MessageSource, MessageType, SlotState, PROTOCOL_VERSION,
};

fn server_header() -> MessageHeader {
    MessageHeader {
        source: MessageSource::Server,
        protocol_version: PROTOCOL_VERSION,
        message_length: 0,
        checksum: 0,
        source_id: 1,
    }
}

fn info(slot: u8, mac: u64) -> ControllerInfo {
    ControllerInfo {
        slot,
        slot_state: SlotState::Connected,
        device_type: DeviceType::PartialGyro,
        connection_type: ConnectionType::USB,
        mac_address: mac,
        battery_status: BatteryStatus::Full,
    }
}

fn data_message(packet_number: u32, controller_info: ControllerInfo, ps: u8) -> Message {
    let controller_data = ControllerData { ps, connected: true, ..ControllerData::default() };
    Message {
        header: server_header(),
        message_type: MessageType::ControllerData,
        payload: MessagePayload::ControllerData { packet_number, controller_info, controller_data },
    }
}

#[test]
fn request_builders_fill_and_pad_the_payload() {
    let client = Client::new(Some(0x1234));
    let m = client.request_connected_controllers_info(&[0, 2]);
    assert_eq!(m.message_type, MessageType::ConnectedControllers);
    assert_eq!(
        m.payload,
        MessagePayload::ConnectedControllersRequest { amount: 2, slot_numbers: [0, 2, 0, 0] }
    );
    assert_eq!(m.header.source, MessageSource::Client);
    assert_eq!(m.header.source_id, 0x1234);

    let m = client.request_controller_data(ControllerDataRequest::MAC(0xABCD));
    assert_eq!(m.message_type, MessageType::ControllerData);
    assert_eq!(m.payload, MessagePayload::ControllerDataRequest(ControllerDataRequest::MAC(0xABCD)));
}

#[test]
fn info_change_is_detected_once() {
    let mut client = Client::new(Some(1));
    let new_info = info(1, 0xAA);
    let response = Message {
        header: server_header(),
        message_type: MessageType::ConnectedControllers,
        payload: MessagePayload::ConnectedControllerResponse { controller_info: new_info },
    };

    let event = client.handle_response(response);
    assert_eq!(event, Some(ClientEvent::ControllerInfoChanged(new_info)));
    assert_eq!(client.get_controller_info(1), new_info);
    assert_eq!(client.next_event(), Some(ClientEvent::ControllerInfoChanged(new_info)));

    // The same metadata again changes nothing and queues nothing.
    let event = client.handle_response(response);
    assert_eq!(event, None);
    assert_eq!(client.next_event(), None);
}

#[test]
fn stale_packets_are_dropped() {
    let mut client = Client::new(Some(1));
    let i0 = info(0, 0xAA);

    // Accept packet 10 first.
    let event = client.handle_response(data_message(10, i0, 1));
    assert!(event.is_some());
    assert_eq!(client.get_controller_data(0).ps, 1);

    // Packets 9 and 10 change neither the cache nor the queue.
    assert_eq!(client.next_event().is_some(), true);
    assert_eq!(client.handle_response(data_message(9, i0, 2)), None);
    assert_eq!(client.handle_response(data_message(10, i0, 3)), None);
    assert_eq!(client.get_controller_data(0).ps, 1);
    assert_eq!(client.next_event(), None);

    // Packet 11 with new state is accepted and reported.
    let event = client.handle_response(data_message(11, i0, 4));
    assert!(matches!(event, Some(ClientEvent::ControllerDataChanged { .. })));
    assert_eq!(client.get_controller_data(0).ps, 4);
}

#[test]
fn newer_packet_with_identical_state_advances_silently() {
    let mut client = Client::new(Some(1));
    let i0 = info(0, 0xAA);
    assert!(client.handle_response(data_message(1, i0, 7)).is_some());
    let _ = client.next_event();

    // Same info and data under a higher number: accepted, no event.
    assert_eq!(client.handle_response(data_message(2, i0, 7)), None);
    assert_eq!(client.next_event(), None);

    // A yet older number is now also rejected.
    assert_eq!(client.handle_response(data_message(2, i0, 9)), None);
}

#[test]
fn event_queue_is_fifo_and_bounded() {
    let mut client = Client::new(Some(1));
    // 55 distinct metadata updates for slot 0: the queue keeps the first 50.
    for k in 0..55u64 {
        let response = Message {
            header: server_header(),
            message_type: MessageType::ConnectedControllers,
            payload: MessagePayload::ConnectedControllerResponse {
                controller_info: info(0, 0x100 + k),
            },
        };
        let event = client.handle_response(response);
        // The producer always sees the change, even when the queue is full.
        assert_eq!(event, Some(ClientEvent::ControllerInfoChanged(info(0, 0x100 + k))));
    }
    for k in 0..50u64 {
        assert_eq!(
            client.next_event(),
            Some(ClientEvent::ControllerInfoChanged(info(0, 0x100 + k)))
        );
    }
    assert_eq!(client.next_event(), None);
    // The cache still holds the newest value.
    assert_eq!(client.get_controller_info(0).mac_address, 0x100 + 54);
}

#[test]
fn server_fanout_reaches_the_client_cache() {
    // One end-to-end hop through the wire codec: the server's fan-out
    // datagram decodes on the client side and lands in its cache.
    let mut server = pad_motion::server::Server::new(Some(77));
    let mut client = Client::new(Some(88));
    let peer = pad_motion::server::PeerAddr { ip: 1, port: 2 };

    server.update_controller_data(2, ControllerData { touch: 9, ..ControllerData::default() });
    let subscribe = client.request_controller_data(ControllerDataRequest::SlotNumber(2));
    let mut wire = Vec::new();
    encode_message(&mut wire, subscribe);
    let decoded_request = parse_message(MessageSource::Client, &wire, true).unwrap();

    let (_, run_fanout) = server.handle_request(peer, decoded_request);
    assert!(run_fanout);
    let msgs = server.fanout_messages(peer);
    assert_eq!(msgs.len(), 1);

    let mut wire = Vec::new();
    encode_message(&mut wire, msgs[0]);
    let decoded = parse_message(MessageSource::Server, &wire, true).unwrap();
    // The client caches a data message only under a packet number above its
    // initial zero, so the server's second pass (numbers from 1) is used.
    server.fanout_commit(peer, 1, false);
    let msgs = server.fanout_messages(peer);
    assert_eq!(msgs.len(), 1);
    let mut wire2 = Vec::new();
    encode_message(&mut wire2, msgs[0]);
    let decoded2 = parse_message(MessageSource::Server, &wire2, true).unwrap();

    assert!(client.handle_response(decoded).is_none()); // packet number 0 is not above 0
    assert!(client.handle_response(decoded2).is_some());
    assert_eq!(client.get_controller_data(2).touch, 9);
}
