use pad_motion::protocol::{
    BatteryStatus, ConnectionType, ControllerData, ControllerDataRequest, ControllerInfo,
    DeviceType, Message, MessagePayload, MessageSource, MessageType, SlotState, PROTOCOL_VERSION,
};
use pad_motion::server::{PeerAddr, Server};

fn peer(n: u16) -> PeerAddr {
    PeerAddr { ip: 0x7F000001, port: n }
}

fn info_with_mac(slot: u8, mac: u64) -> ControllerInfo {
    ControllerInfo {
        slot,
        slot_state: SlotState::Connected,
        device_type: DeviceType::FullGyro,
        connection_type: ConnectionType::USB,
        mac_address: mac,
        battery_status: BatteryStatus::High,
    }
}

fn data_request(request: ControllerDataRequest) -> Message {
    Message {
        header: pad_motion::protocol::MessageHeader {
            source: MessageSource::Client,
            protocol_version: PROTOCOL_VERSION,
            message_length: 0,
            checksum: 0,
            source_id: 99,
        },
        message_type: MessageType::ControllerData,
        payload: MessagePayload::ControllerDataRequest(request),
    }
}

fn payload_packet_number(m: &Message) -> u32 {
    match m.payload {
        MessagePayload::ControllerData { packet_number, .. } => packet_number,
        _ => panic!("not a controller data message"),
    }
}

fn payload_slot(m: &Message) -> u8 {
    match m.payload {
        MessagePayload::ControllerData { controller_info, .. } => controller_info.slot,
        _ => panic!("not a controller data message"),
    }
}

#[test]
fn version_request_gets_the_quirked_reply() {
    let mut server = Server::new(Some(11));
    let request = Message {
        header: pad_motion::protocol::MessageHeader {
            source: MessageSource::Client,
            protocol_version: PROTOCOL_VERSION,
            message_length: 0,
            checksum: 0,
            source_id: 99,
        },
        message_type: MessageType::ProtocolVersion,
        payload: MessagePayload::Empty,
    };
    let (replies, run_fanout) = server.handle_request(peer(1), request);
    assert!(!run_fanout);
    assert_eq!(replies.len(), 1);
    // The reply is typed ConnectedControllers, with a ProtocolVersion payload.
    assert_eq!(replies[0].message_type, MessageType::ConnectedControllers);
    assert_eq!(replies[0].payload, MessagePayload::ProtocolVersion(PROTOCOL_VERSION));
    assert_eq!(replies[0].header.source_id, 11);
}

#[test]
fn controller_enumeration_replies_per_requested_slot() {
    let mut server = Server::new(Some(11));
    let request = Message {
        header: pad_motion::protocol::MessageHeader {
            source: MessageSource::Client,
            protocol_version: PROTOCOL_VERSION,
            message_length: 0,
            checksum: 0,
            source_id: 99,
        },
        message_type: MessageType::ConnectedControllers,
        payload: MessagePayload::ConnectedControllersRequest {
            amount: 2,
            slot_numbers: [0, 2, 0, 0],
        },
    };
    let (replies, run_fanout) = server.handle_request(peer(1), request);
    assert!(!run_fanout);
    assert_eq!(replies.len(), 2);
    for (reply, expected_slot) in replies.iter().zip([0u8, 2u8]) {
        match reply.payload {
            MessagePayload::ConnectedControllerResponse { controller_info } => {
                assert_eq!(controller_info.slot, expected_slot);
            },
            _ => panic!("wrong payload shape"),
        }
    }
}

#[test]
fn report_all_subscribes_and_numbers_packets_consecutively() {
    let mut server = Server::new(Some(11));
    let (replies, run_fanout) = server.handle_request(peer(1), data_request(ControllerDataRequest::ReportAll));
    assert!(replies.is_empty());
    assert!(run_fanout);

    let msgs = server.fanout_messages(peer(1));
    assert_eq!(msgs.len(), 4);
    for (k, m) in msgs.iter().enumerate() {
        assert_eq!(payload_packet_number(m), k as u32);
        assert_eq!(payload_slot(m), k as u8);
        assert_eq!(m.message_type, MessageType::ControllerData);
    }
    server.fanout_commit(peer(1), 4, false);

    // A data update triggers the next pass; its numbers continue at 4.
    server.update_controller_data(1, ControllerData::default());
    let msgs = server.fanout_messages(peer(1));
    assert_eq!(msgs.len(), 4);
    for (k, m) in msgs.iter().enumerate() {
        assert_eq!(payload_packet_number(m), 4 + k as u32);
    }
}

#[test]
fn mac_subscription_sends_only_the_matching_slot() {
    let mut server = Server::new(Some(11));
    let macs = [0xAA, 0xBB, 0xCC, 0xDD];
    for (slot, mac) in macs.iter().enumerate() {
        let out = server.update_controller_info(info_with_mac(slot as u8, *mac));
        assert!(out.is_empty()); // nobody subscribed yet
    }

    server.handle_request(peer(7), data_request(ControllerDataRequest::MAC(0xCC)));
    let msgs = server.fanout_messages(peer(7));
    assert_eq!(msgs.len(), 1);
    assert_eq!(payload_slot(&msgs[0]), 2);
    assert_eq!(payload_packet_number(&msgs[0]), 0);
    server.fanout_commit(peer(7), 1, false);

    // Asking for slot 2 by number as well still yields exactly one datagram:
    // the MAC path skips a slot already sent.
    server.handle_request(peer(7), data_request(ControllerDataRequest::SlotNumber(2)));
    let msgs = server.fanout_messages(peer(7));
    assert_eq!(msgs.len(), 1);
    assert_eq!(payload_slot(&msgs[0]), 2);
    assert_eq!(payload_packet_number(&msgs[0]), 1);
}

#[test]
fn unknown_mac_is_silently_skipped() {
    let mut server = Server::new(Some(11));
    server.handle_request(peer(7), data_request(ControllerDataRequest::MAC(0x1234)));
    let msgs = server.fanout_messages(peer(7));
    assert!(msgs.is_empty());
}

#[test]
fn send_failure_evicts_the_subscriber() {
    let mut server = Server::new(Some(11));
    server.handle_request(peer(1), data_request(ControllerDataRequest::ReportAll));
    server.handle_request(peer(2), data_request(ControllerDataRequest::SlotNumber(0)));
    assert_eq!(server.fanout_targets().len(), 2);

    server.fanout_commit(peer(1), 2, true);
    let targets = server.fanout_targets();
    assert_eq!(targets.len(), 1);
    assert_eq!(targets[0], peer(2));
    assert!(server.fanout_messages(peer(1)).is_empty());
}

#[test]
fn subscriptions_are_additive_and_packet_counters_are_private() {
    let mut server = Server::new(Some(11));
    server.handle_request(peer(1), data_request(ControllerDataRequest::SlotNumber(0)));
    let msgs = server.fanout_messages(peer(1));
    assert_eq!(msgs.len(), 1);
    server.fanout_commit(peer(1), 1, false);

    // A second subscriber starts its own numbering at zero.
    server.handle_request(peer(2), data_request(ControllerDataRequest::SlotNumber(0)));
    let msgs = server.fanout_messages(peer(2));
    assert_eq!(msgs.len(), 1);
    assert_eq!(payload_packet_number(&msgs[0]), 0);

    // The first subscriber's set keeps growing; its counter is untouched.
    server.handle_request(peer(1), data_request(ControllerDataRequest::SlotNumber(3)));
    let msgs = server.fanout_messages(peer(1));
    assert_eq!(msgs.len(), 2);
    assert_eq!(payload_slot(&msgs[0]), 0);
    assert_eq!(payload_slot(&msgs[1]), 3);
    assert_eq!(payload_packet_number(&msgs[0]), 1);
    assert_eq!(payload_packet_number(&msgs[1]), 2);
}

#[test]
fn info_update_broadcasts_to_subscribers() {
    let mut server = Server::new(Some(11));
    server.handle_request(peer(1), data_request(ControllerDataRequest::ReportAll));
    let info = info_with_mac(3, 0xEE);
    let out = server.update_controller_info(info);
    assert_eq!(out.len(), 1);
    assert_eq!(out[0].0, peer(1));
    assert_eq!(out[0].1.message_type, MessageType::ConnectedControllers);
    assert_eq!(
        out[0].1.payload,
        MessagePayload::ConnectedControllerResponse { controller_info: info }
    );
}

#[test]
fn random_ids_still_yield_a_working_server() {
    // No id given: the source id is drawn at random, everything else is fixed.
    let mut server = Server::new(None);
    let mut client_side = pad_motion::client::Client::new(None);
    let m = client_side.request_controller_data(ControllerDataRequest::ReportAll);
    let (replies, run_fanout) = server.handle_request(peer(3), m);
    assert!(replies.is_empty());
    assert!(run_fanout);
    assert_eq!(server.fanout_messages(peer(3)).len(), 4);
    assert!(client_side.next_event().is_none());
}
