//! The server engine: slot cache, subscription registry and fan-out plans.
//!
//! The engine is the decision half of a DSU server.  It owns no socket and
//! spawns no thread: the surrounding application receives datagrams, hands
//! each decoded request to [`Server::handle_request`], sends the replies,
//! and drives one fan-out pass per data request or data update through
//! [`Server::fanout_targets`], [`Server::fanout_messages`] and
//! [`Server::fanout_commit`], reporting how many sends succeeded so that
//! packet numbers advance and unreachable subscribers are evicted.

use vstd::prelude::*;

use crate::protocol::{
    valid_info, valid_payload, ControllerData, ControllerDataRequest, ControllerInfo, Message,
    MessageHeader, MessagePayload, MessageSource, MessageType, PROTOCOL_VERSION,
};

verus! {

/// A client endpoint as the engine sees it: an IP address held in at most
/// 128 bits, and a port.  The application maps its socket addresses onto
/// this form and back.
#[derive(Copy, Clone, Debug, PartialEq, Eq, Structural, Hash)]
pub struct PeerAddr {
    pub ip: u128,
    pub port: u16,
}

/// One server slot: the latest metadata and state of a controller.
#[derive(Copy, Clone, Debug, PartialEq, Eq, Structural)]
pub struct Slot {
    pub controller_info: ControllerInfo,
    pub controller_data: ControllerData,
}

/// What one subscribed client has asked to receive, with its private packet
/// counter.  Subscriptions are additive: entries are only ever added.
pub struct RequestedControllerData {
    /// The next packet number to send to this client; advances by one per
    /// successful send.
    pub packet_number: u32,
    /// `slot_numbers[s]` holds when the client asked for slot `s` by index.
    pub slot_numbers: [bool; 4],
    /// The MAC addresses the client asked for, in the order they first
    /// appeared, without duplicates.
    pub mac_addresses: Vec<u64>,
}

impl RequestedControllerData {
    /// No duplicate MAC addresses.
    pub open spec fn wf(&self) -> bool {
        forall|i: int, j: int|
            0 <= i < j < self.mac_addresses@.len() ==> self.mac_addresses@[i]
                != self.mac_addresses@[j]
    }
}

/// A subscription as a data request first creates it: counter at zero,
/// nothing asked for yet.
pub open spec fn fresh_subscription(r: &RequestedControllerData) -> bool {
    &&& r.packet_number == 0
    &&& forall|s: int| 0 <= s < 4 ==> !r.slot_numbers[s]
    &&& r.mac_addresses@.len() == 0
}

/// How one data request grows a subscription: `ReportAll` asks for every
/// slot, `SlotNumber` for one, `MAC` for one address; nothing is ever
/// removed and the packet counter is untouched.
pub open spec fn applied_request(
    before: &RequestedControllerData,
    after: &RequestedControllerData,
    r: ControllerDataRequest,
) -> bool {
    &&& after.packet_number == before.packet_number
    &&& match r {
        ControllerDataRequest::ReportAll => {
            &&& forall|s: int| 0 <= s < 4 ==> after.slot_numbers[s]
            &&& after.mac_addresses@ == before.mac_addresses@
        },
        ControllerDataRequest::SlotNumber(n) => {
            &&& forall|s: int|
                0 <= s < 4 ==> after.slot_numbers[s] == (before.slot_numbers[s] || s == n)
            &&& after.mac_addresses@ == before.mac_addresses@
        },
        ControllerDataRequest::MAC(m) => {
            &&& forall|s: int| 0 <= s < 4 ==> after.slot_numbers[s] == before.slot_numbers[s]
            &&& if before.mac_addresses@.contains(m) {
                after.mac_addresses@ == before.mac_addresses@
            } else {
                after.mac_addresses@ == before.mac_addresses@.push(m)
            }
        },
    }
}

/// The DSU server engine.
pub struct Server {
    /// The header every outgoing message carries (its length and checksum
    /// fields are filled by the encoder).
    pub message_header: MessageHeader,
    /// The four controller slots; always of length 4.
    pub slots: Vec<Slot>,
    /// The subscription registry, one entry per client address, in the
    /// order the clients first asked for data.
    pub connected_clients: Vec<(PeerAddr, RequestedControllerData)>,
}

/// Whether `clients` holds an entry for `peer`.
pub open spec fn has_peer(clients: Seq<(PeerAddr, RequestedControllerData)>, peer: PeerAddr) -> bool {
    exists|i: int| 0 <= i < clients.len() && clients[i].0 == peer
}

/// The index of `peer` in `clients`; meaningful only under `has_peer` and
/// unique keys.
pub open spec fn peer_index(
    clients: Seq<(PeerAddr, RequestedControllerData)>,
    peer: PeerAddr,
) -> int {
    choose|i: int| 0 <= i < clients.len() && clients[i].0 == peer
}

impl Server {
    /// The engine's invariant: four slots, each holding a valid controller
    /// info, a server header with the supported version, and a registry with
    /// unique client addresses and well-formed subscriptions.
    pub open spec fn wf(&self) -> bool {
        &&& self.slots@.len() == 4
        &&& forall|k: int| 0 <= k < 4 ==> valid_info(#[trigger] self.slots@[k].controller_info)
        &&& self.message_header.source == MessageSource::Server
        &&& self.message_header.protocol_version == PROTOCOL_VERSION
        &&& forall|i: int, j: int|
            0 <= i < j < self.connected_clients@.len() ==> (#[trigger] self.connected_clients@[i]).0
                != (#[trigger] self.connected_clients@[j]).0
        &&& forall|i: int|
            0 <= i < self.connected_clients@.len() ==> (
            #[trigger] self.connected_clients@[i]).1.wf()
    }

    /// Creates the engine: slot `k` starts with default state under index
    /// `k`, and the registry is empty.  With `id` absent the source id is
    /// drawn at random.
    pub fn new(id: Option<u32>) -> (s: Server)
        ensures
            s.wf(),
            (id matches Some(v) ==> s.message_header.source_id == v),
            s.message_header.message_length == 0,
            s.message_header.checksum == 0,
            forall|k: int|
                0 <= k < 4 ==> #[trigger] s.slots@[k] == (Slot {
                    controller_info: ControllerInfo {
                        slot: k as u8,
                        ..crate::protocol::default_controller_info()
                    },
                    controller_data: crate::protocol::default_controller_data(),
                }),
            s.connected_clients@.len() == 0,
    {
        let source_id = match id {
            Some(v) => v,
            None => crate::rng::random_u32(),
        };

        let message_header = MessageHeader {
            source: MessageSource::Server,
            protocol_version: PROTOCOL_VERSION,
            message_length: 0,
            checksum: 0,
            source_id,
        };

        let mut slots: Vec<Slot> = Vec::new();
        let mut k: u8 = 0;
        while k < 4
            invariant
                k <= 4,
                slots@.len() == k,
                forall|j: int|
                    0 <= j < k ==> #[trigger] slots@[j] == (Slot {
                        controller_info: ControllerInfo {
                            slot: j as u8,
                            ..crate::protocol::default_controller_info()
                        },
                        controller_data: crate::protocol::default_controller_data(),
                    }),
            decreases 4 - k,
        {
            let mut controller_info = ControllerInfo::default();
            controller_info.slot = k;
            slots.push(Slot { controller_info, controller_data: ControllerData::default() });
            k += 1;
        }

        Server { message_header, slots, connected_clients: Vec::new() }
    }

    /// The reply to a `ProtocolVersion` request.
    ///
    /// The reply is typed `ConnectedControllers`, not `ProtocolVersion`:
    /// real Cemuhook clients expect that quirk, so it is preserved.
    pub fn protocol_version_message(&self) -> (m: Message)
        requires
            self.wf(),
        ensures
            m == (Message {
                header: self.message_header,
                message_type: MessageType::ConnectedControllers,
                payload: MessagePayload::ProtocolVersion(PROTOCOL_VERSION),
            }),
            valid_payload(m.payload),
    {
        Message {
            header: self.message_header,
            message_type: MessageType::ConnectedControllers,
            payload: MessagePayload::ProtocolVersion(PROTOCOL_VERSION),
        }
    }

    /// The `ConnectedControllers` response carrying one slot's metadata.
    pub fn connected_controller_info_message(&self, slot_number: u8) -> (m: Message)
        requires
            self.wf(),
            slot_number < 4,
        ensures
            m == (Message {
                header: self.message_header,
                message_type: MessageType::ConnectedControllers,
                payload: MessagePayload::ConnectedControllerResponse {
                    controller_info: self.slots@[slot_number as int].controller_info,
                },
            }),
            valid_payload(m.payload),
    {
        let controller_info = self.slots[slot_number as usize].controller_info;
        Message {
            header: self.message_header,
            message_type: MessageType::ConnectedControllers,
            payload: MessagePayload::ConnectedControllerResponse { controller_info },
        }
    }
}

// ---------------------------------------------------------------------------
// fan-out order
// ---------------------------------------------------------------------------

/// `pn` advanced by `k` sends, wrapping at 2^32.
pub open spec fn advanced_packet_number(pn: u32, k: int) -> u32 {
    if pn + k > u32::MAX {
        (pn + k - 0x100000000) as u32
    } else {
        (pn + k) as u32
    }
}

/// The slot indices a subscription asks for by number, ascending.
pub open spec fn subscribed_slots(rcd: &RequestedControllerData) -> Seq<u8> {
    (if rcd.slot_numbers[0] { seq![0u8] } else { Seq::<u8>::empty() })
        + (if rcd.slot_numbers[1] { seq![1u8] } else { Seq::<u8>::empty() })
        + (if rcd.slot_numbers[2] { seq![2u8] } else { Seq::<u8>::empty() })
        + (if rcd.slot_numbers[3] { seq![3u8] } else { Seq::<u8>::empty() })
}

/// The set of slots a subscription asks for by number.
pub open spec fn subscribed_set(rcd: &RequestedControllerData) -> Set<u8> {
    Set::new(|s: u8| s < 4 && rcd.slot_numbers[s as int])
}

/// The set of slots whose flag is raised.
pub open spec fn flags_set(flags: [bool; 4]) -> Set<u8> {
    Set::new(|s: u8| s < 4 && flags[s as int])
}

/// How many of the four flags are raised.
pub open spec fn raised_flags(flags: [bool; 4]) -> int {
    (if flags[0] { 1int } else { 0int }) + (if flags[1] { 1int } else { 0int })
        + (if flags[2] { 1int } else { 0int }) + (if flags[3] { 1int } else { 0int })
}

/// The lowest slot whose controller carries MAC address `m`, if any.
pub open spec fn mac_slot(slots: Seq<Slot>, m: u64) -> Option<u8> {
    if slots[0].controller_info.mac_address == m {
        Some(0u8)
    } else if slots[1].controller_info.mac_address == m {
        Some(1u8)
    } else if slots[2].controller_info.mac_address == m {
        Some(2u8)
    } else if slots[3].controller_info.mac_address == m {
        Some(3u8)
    } else {
        None
    }
}

/// The slots the MAC addresses add to a fan-out, in list order, skipping
/// slots already covered; an unknown MAC is silently skipped.
pub open spec fn mac_targets(slots: Seq<Slot>, macs: Seq<u64>, already: Set<u8>) -> Seq<u8>
    decreases macs.len(),
{
    if macs.len() == 0 {
        Seq::<u8>::empty()
    } else {
        match mac_slot(slots, macs[0]) {
            Some(s) => {
                if already.contains(s) {
                    mac_targets(slots, macs.drop_first(), already)
                } else {
                    seq![s] + mac_targets(slots, macs.drop_first(), already.insert(s))
                }
            },
            None => mac_targets(slots, macs.drop_first(), already),
        }
    }
}

/// The slots one fan-out pass sends to a subscriber, in order: the numbered
/// ones ascending, then the MAC-addressed ones not already covered.
pub open spec fn fanout_slots(slots: Seq<Slot>, rcd: &RequestedControllerData) -> Seq<u8> {
    subscribed_slots(rcd) + mac_targets(slots, rcd.mac_addresses@, subscribed_set(rcd))
}

/// Every slot a fan-out names is below 4.
pub proof fn lemma_mac_targets_bounds(slots: Seq<Slot>, macs: Seq<u64>, already: Set<u8>)
    ensures
        forall|j: int|
            0 <= j < mac_targets(slots, macs, already).len() ==> #[trigger] mac_targets(
                slots,
                macs,
                already,
            )[j] < 4,
    decreases macs.len(),
{
    if macs.len() > 0 {
        match mac_slot(slots, macs[0]) {
            Some(s) => {
                if already.contains(s) {
                    lemma_mac_targets_bounds(slots, macs.drop_first(), already);
                    assert(mac_targets(slots, macs, already) == mac_targets(
                        slots,
                        macs.drop_first(),
                        already,
                    ));
                } else {
                    lemma_mac_targets_bounds(slots, macs.drop_first(), already.insert(s));
                    let tail = mac_targets(slots, macs.drop_first(), already.insert(s));
                    assert forall|j: int|
                        0 <= j < mac_targets(slots, macs, already).len() implies #[trigger]
                    mac_targets(slots, macs, already)[j] < 4 by {
                        if j > 0 {
                            assert(mac_targets(slots, macs, already)[j] == tail[j - 1]);
                        }
                    }
                }
            },
            None => {
                lemma_mac_targets_bounds(slots, macs.drop_first(), already);
                assert(mac_targets(slots, macs, already) == mac_targets(
                    slots,
                    macs.drop_first(),
                    already,
                ));
            },
        }
    }
}

/// The `ControllerData` message for one slot under one packet number.
pub open spec fn slot_data_message(header: MessageHeader, slot: Slot, packet_number: u32) -> Message {
    Message {
        header,
        message_type: MessageType::ControllerData,
        payload: MessagePayload::ControllerData {
            packet_number,
            controller_info: slot.controller_info,
            controller_data: slot.controller_data,
        },
    }
}

impl Server {
    /// The index of `peer`'s registry entry, if any.
    fn find_client(&self, peer: PeerAddr) -> (r: Option<usize>)
        requires
            self.wf(),
        ensures
            match r {
                Some(i) => {
                    &&& i < self.connected_clients@.len()
                    &&& self.connected_clients@[i as int].0 == peer
                    &&& has_peer(self.connected_clients@, peer)
                    &&& peer_index(self.connected_clients@, peer) == i
                },
                None => !has_peer(self.connected_clients@, peer),
            },
    {
        let n = self.connected_clients.len();
        let mut i: usize = 0;
        while i < n
            invariant
                self.wf(),
                i <= n,
                n == self.connected_clients@.len(),
                forall|j: int| 0 <= j < i ==> (#[trigger] self.connected_clients@[j]).0 != peer,
            decreases n - i,
        {
            if self.connected_clients[i].0 == peer {
                proof {
                    assert(has_peer(self.connected_clients@, peer));
                    let w = peer_index(self.connected_clients@, peer);
                    assert(0 <= w < self.connected_clients@.len()
                        && self.connected_clients@[w].0 == peer);
                    if w < i as int {
                        assert(self.connected_clients@[w].0 != self.connected_clients@[i as int].0);
                    }
                    if (i as int) < w {
                        assert(self.connected_clients@[i as int].0 != self.connected_clients@[w].0);
                    }
                }
                return Some(i);
            }
            i += 1;
        }
        None
    }

    /// The lowest slot whose controller carries MAC address `m`, if any.
    fn find_mac_slot(&self, m: u64) -> (r: Option<u8>)
        requires
            self.wf(),
        ensures
            r == mac_slot(self.slots@, m),
    {
        if self.slots[0].controller_info.mac_address == m {
            Some(0)
        } else if self.slots[1].controller_info.mac_address == m {
            Some(1)
        } else if self.slots[2].controller_info.mac_address == m {
            Some(2)
        } else if self.slots[3].controller_info.mac_address == m {
            Some(3)
        } else {
            None
        }
    }

    /// The slots one fan-out pass sends to the subscription, in order.
    fn fanout_order(&self, rcd: &RequestedControllerData) -> (order: Vec<u8>)
        requires
            self.wf(),
        ensures
            order@ == fanout_slots(self.slots@, rcd),
            forall|j: int| 0 <= j < order@.len() ==> #[trigger] order@[j] < 4,
            order@.len() <= 8,
    {
        let mut order: Vec<u8> = Vec::new();
        let mut already: [bool; 4] = [false, false, false, false];

        if rcd.slot_numbers[0] {
            order.push(0);
            already[0] = true;
        }
        if rcd.slot_numbers[1] {
            order.push(1);
            already[1] = true;
        }
        if rcd.slot_numbers[2] {
            order.push(2);
            already[2] = true;
        }
        if rcd.slot_numbers[3] {
            order.push(3);
            already[3] = true;
        }
        proof {
            assert(order@ =~= subscribed_slots(rcd));
            assert(flags_set(already) =~= subscribed_set(rcd));
            assert(rcd.mac_addresses@.skip(0) =~= rcd.mac_addresses@);
        }

        let n = self.mac_count(rcd);
        let mut i: usize = 0;
        while i < n
            invariant
                self.wf(),
                i <= n,
                n == rcd.mac_addresses@.len(),
                forall|j: int| 0 <= j < order@.len() ==> #[trigger] order@[j] < 4,
                order@.len() + 4 <= 8 + raised_flags(already),
                fanout_slots(self.slots@, rcd) == order@ + mac_targets(
                    self.slots@,
                    rcd.mac_addresses@.skip(i as int),
                    flags_set(already),
                ),
            decreases n - i,
        {
            let m = rcd.mac_addresses[i];
            let ghost pending = rcd.mac_addresses@.skip(i as int);
            proof {
                assert(pending[0] == rcd.mac_addresses@[i as int]);
                assert(pending.drop_first() =~= rcd.mac_addresses@.skip(i as int + 1));
            }
            match self.find_mac_slot(m) {
                Some(s) => {
                    if !already[s as usize] {
                        let ghost before_flags = flags_set(already);
                        let ghost order_before = order@;
                        order.push(s);
                        already[s as usize] = true;
                        proof {
                            assert(flags_set(already) =~= before_flags.insert(s));
                            assert(mac_targets(self.slots@, pending, before_flags) == seq![s]
                                + mac_targets(
                                self.slots@,
                                pending.drop_first(),
                                before_flags.insert(s),
                            ));
                            assert(order_before + (seq![s] + mac_targets(
                                self.slots@,
                                pending.drop_first(),
                                before_flags.insert(s),
                            )) =~= order@ + mac_targets(
                                self.slots@,
                                pending.drop_first(),
                                before_flags.insert(s),
                            ));
                        }
                    }
                },
                None => {},
            }
            i += 1;
        }
        proof {
            assert(rcd.mac_addresses@.skip(n as int) =~= Seq::<u64>::empty());
            assert(mac_targets(self.slots@, rcd.mac_addresses@.skip(n as int), flags_set(already))
                =~= Seq::<u8>::empty());
            assert(order@ =~= order@ + Seq::<u8>::empty());
        }
        order
    }

    /// The number of MAC addresses in a subscription.
    fn mac_count(&self, rcd: &RequestedControllerData) -> (n: usize)
        ensures
            n == rcd.mac_addresses@.len(),
    {
        rcd.mac_addresses.len()
    }

    /// The datagrams one fan-out pass sends to `peer`: one `ControllerData`
    /// message per slot of interest, carrying consecutive packet numbers
    /// that start at the subscription's counter.  An address without a
    /// subscription gets nothing.
    pub fn fanout_messages(&self, peer: PeerAddr) -> (msgs: Vec<Message>)
        requires
            self.wf(),
        ensures
            !has_peer(self.connected_clients@, peer) ==> msgs@.len() == 0,
            has_peer(self.connected_clients@, peer) ==> {
                let rcd = self.connected_clients@[peer_index(self.connected_clients@, peer)].1;
                let order = fanout_slots(self.slots@, &rcd);
                &&& msgs@.len() == order.len()
                &&& forall|j: int|
                    0 <= j < order.len() ==> #[trigger] msgs@[j] == slot_data_message(
                        self.message_header,
                        self.slots@[order[j] as int],
                        advanced_packet_number(rcd.packet_number, j),
                    )
            },
            forall|j: int| 0 <= j < msgs@.len() ==> valid_payload(#[trigger] msgs@[j].payload),
    {
        let idx = match self.find_client(peer) {
            Some(i) => i,
            None => {
                return Vec::new();
            },
        };
        let rcd = &self.connected_clients[idx].1;
        let pn0 = rcd.packet_number;
        let order = self.fanout_order(rcd);

        let mut msgs: Vec<Message> = Vec::new();
        let n = order.len();
        let mut j: usize = 0;
        while j < n
            invariant
                self.wf(),
                j <= n,
                n == order@.len(),
                n <= 8,
                forall|t: int| 0 <= t < n ==> #[trigger] order@[t] < 4,
                msgs@.len() == j,
                forall|t: int|
                    0 <= t < j ==> #[trigger] msgs@[t] == slot_data_message(
                        self.message_header,
                        self.slots@[order@[t] as int],
                        advanced_packet_number(pn0, t),
                    ),
                forall|t: int| 0 <= t < j ==> valid_payload(#[trigger] msgs@[t].payload),
            decreases n - j,
        {
            let s = order[j];
            let slot = self.slots[s as usize];
            let packet_number = pn0.wrapping_add(j as u32);
            msgs.push(Message {
                header: self.message_header,
                message_type: MessageType::ControllerData,
                payload: MessagePayload::ControllerData {
                    packet_number,
                    controller_info: slot.controller_info,
                    controller_data: slot.controller_data,
                },
            });
            j += 1;
        }
        msgs
    }

    /// Commits the outcome of one fan-out pass to `peer`: on a send failure
    /// the subscriber is evicted; otherwise its packet counter advances by
    /// the number of datagrams actually sent.
    pub fn fanout_commit(&mut self, peer: PeerAddr, sent: u32, failed: bool)
        requires
            old(self).wf(),
        ensures
            final(self).wf(),
            final(self).message_header == old(self).message_header,
            final(self).slots == old(self).slots,
            !has_peer(old(self).connected_clients@, peer) ==> final(self).connected_clients@
                == old(self).connected_clients@,
            has_peer(old(self).connected_clients@, peer) ==> {
                let i = peer_index(old(self).connected_clients@, peer);
                if failed {
                    final(self).connected_clients@ == old(self).connected_clients@.remove(i)
                } else {
                    &&& final(self).connected_clients@.len() == old(self).connected_clients@.len()
                    &&& forall|j: int|
                        0 <= j < final(self).connected_clients@.len() && j != i
                            ==> #[trigger] final(self).connected_clients@[j] == old(
                            self,
                        ).connected_clients@[j]
                    &&& final(self).connected_clients@[i].0 == peer
                    &&& final(self).connected_clients@[i].1.packet_number
                        == advanced_packet_number(
                        old(self).connected_clients@[i].1.packet_number,
                        sent as int,
                    )
                    &&& final(self).connected_clients@[i].1.slot_numbers == old(
                        self,
                    ).connected_clients@[i].1.slot_numbers
                    &&& final(self).connected_clients@[i].1.mac_addresses@ == old(
                        self,
                    ).connected_clients@[i].1.mac_addresses@
                }
            },
            !has_peer(final(self).connected_clients@, peer) || !failed,
    {
        let idx = match self.find_client(peer) {
            Some(i) => i,
            None => {
                return ;
            },
        };
        if failed {
            self.connected_clients.remove(idx);
            proof {
                assert forall|a: int, b: int|
                    0 <= a < b < self.connected_clients@.len() implies (
                #[trigger] self.connected_clients@[a]).0 != (
                #[trigger] self.connected_clients@[b]).0 by {
                    if b < idx as int {
                        assert(old(self).connected_clients@[a].0 != old(
                            self,
                        ).connected_clients@[b].0);
                    } else if a < idx as int {
                        assert(old(self).connected_clients@[a].0 != old(
                            self,
                        ).connected_clients@[b + 1].0);
                    } else {
                        assert(old(self).connected_clients@[a + 1].0 != old(
                            self,
                        ).connected_clients@[b + 1].0);
                    }
                }
                assert forall|p: int|
                    0 <= p < self.connected_clients@.len() implies (
                #[trigger] self.connected_clients@[p]).1.wf() by {
                    if p < idx as int {
                        assert(old(self).connected_clients@[p].1.wf());
                    } else {
                        assert(old(self).connected_clients@[p + 1].1.wf());
                    }
                }
            }
        } else {
            let mut entry = (
                peer,
                RequestedControllerData {
                    packet_number: 0,
                    slot_numbers: [false, false, false, false],
                    mac_addresses: Vec::new(),
                },
            );
            self.connected_clients.set_and_swap(idx, &mut entry);
            let (entry_peer, mut rcd) = entry;
            rcd.packet_number = rcd.packet_number.wrapping_add(sent);
            self.connected_clients.set(idx, (entry_peer, rcd));
        }
    }
}

/// Grows a subscription by one data request.
#[verifier::loop_isolation(false)]
fn apply_request(rcd: &mut RequestedControllerData, request: ControllerDataRequest)
    requires
        old(rcd).wf(),
        (request matches ControllerDataRequest::SlotNumber(s) ==> s < 4),
    ensures
        final(rcd).wf(),
        applied_request(old(rcd), final(rcd), request),
{
    match request {
        ControllerDataRequest::ReportAll => {
            rcd.slot_numbers = [true, true, true, true];
        },
        ControllerDataRequest::SlotNumber(s) => {
            rcd.slot_numbers[s as usize] = true;
        },
        ControllerDataRequest::MAC(m) => {
            let n = rcd.mac_addresses.len();
            let mut i: usize = 0;
            while i < n
                invariant
                    i <= n,
                    n == rcd.mac_addresses@.len(),
                    rcd == old(rcd),
                    forall|j: int| 0 <= j < i ==> rcd.mac_addresses@[j] != m,
                decreases n - i,
            {
                if rcd.mac_addresses[i] == m {
                    assert(rcd.mac_addresses@.contains(m));
                    return ;
                }
                i += 1;
            }
            assert(!rcd.mac_addresses@.contains(m));
            rcd.mac_addresses.push(m);
        },
    }
}

impl Server {
    /// Records `source`'s data request: an unknown address gets a fresh
    /// subscription (counter at zero) first, then the request grows it.
    fn upsert_subscription(&mut self, source: PeerAddr, request: ControllerDataRequest)
        requires
            old(self).wf(),
            (request matches ControllerDataRequest::SlotNumber(s) ==> s < 4),
        ensures
            final(self).wf(),
            final(self).message_header == old(self).message_header,
            final(self).slots == old(self).slots,
            has_peer(final(self).connected_clients@, source),
            has_peer(old(self).connected_clients@, source) ==> {
                let i = peer_index(old(self).connected_clients@, source);
                &&& final(self).connected_clients@.len() == old(self).connected_clients@.len()
                &&& forall|j: int|
                    0 <= j < final(self).connected_clients@.len() && j != i
                        ==> #[trigger] final(self).connected_clients@[j] == old(
                        self,
                    ).connected_clients@[j]
                &&& final(self).connected_clients@[i].0 == source
                &&& applied_request(
                    &old(self).connected_clients@[i].1,
                    &final(self).connected_clients@[i].1,
                    request,
                )
            },
            !has_peer(old(self).connected_clients@, source) ==> {
                &&& final(self).connected_clients@.len() == old(self).connected_clients@.len() + 1
                &&& forall|j: int|
                    0 <= j < old(self).connected_clients@.len()
                        ==> #[trigger] final(self).connected_clients@[j] == old(
                        self,
                    ).connected_clients@[j]
                &&& final(self).connected_clients@.last().0 == source
                &&& exists|f: RequestedControllerData|
                    fresh_subscription(&f) && applied_request(
                        &f,
                        &final(self).connected_clients@.last().1,
                        request,
                    )
            },
    {
        let idx = match self.find_client(source) {
            Some(i) => i,
            None => {
                let fresh = RequestedControllerData {
                    packet_number: 0,
                    slot_numbers: [false, false, false, false],
                    mac_addresses: Vec::new(),
                };
                let ghost fresh_snapshot = fresh;
                let mut entry = (source, fresh);
                apply_request(&mut entry.1, request);
                proof {
                    assert(fresh_subscription(&fresh_snapshot));
                }
                self.connected_clients.push(entry);
                proof {
                    let n = self.connected_clients@.len();
                    assert(self.connected_clients@[n - 1].0 == source);
                    assert(has_peer(self.connected_clients@, source));
                }
                return ;
            },
        };

        let mut entry = (
            source,
            RequestedControllerData {
                packet_number: 0,
                slot_numbers: [false, false, false, false],
                mac_addresses: Vec::new(),
            },
        );
        self.connected_clients.set_and_swap(idx, &mut entry);
        let (_, mut rcd) = entry;
        apply_request(&mut rcd, request);
        self.connected_clients.set(idx, (source, rcd));
        proof {
            assert(self.connected_clients@[idx as int].0 == source);
            assert(has_peer(self.connected_clients@, source));
        }
    }

    /// The addresses of all current subscribers, in registry order.
    pub fn fanout_targets(&self) -> (peers: Vec<PeerAddr>)
        requires
            self.wf(),
        ensures
            peers@.len() == self.connected_clients@.len(),
            forall|i: int|
                0 <= i < peers@.len() ==> #[trigger] peers@[i] == self.connected_clients@[i].0,
    {
        let n = self.connected_clients.len();
        let mut peers: Vec<PeerAddr> = Vec::new();
        let mut i: usize = 0;
        while i < n
            invariant
                i <= n,
                n == self.connected_clients@.len(),
                peers@.len() == i,
                forall|j: int|
                    0 <= j < i ==> #[trigger] peers@[j] == self.connected_clients@[j].0,
            decreases n - i,
        {
            peers.push(self.connected_clients[i].0);
            i += 1;
        }
        peers
    }

    /// Handles one decoded request from `source`.
    ///
    /// Returns the replies to send back to `source`, and whether the caller
    /// must now run one fan-out pass (it must after a data request, which
    /// also upserts `source`'s subscription).  A `ProtocolVersion` request
    /// gets the version reply; a `ConnectedControllers` request gets one
    /// info response per requested slot; any payload that fits neither is
    /// ignored.
    pub fn handle_request(&mut self, source: PeerAddr, request: Message) -> (out: (
        Vec<Message>,
        bool,
    ))
        requires
            old(self).wf(),
            valid_payload(request.payload),
        ensures
            final(self).wf(),
            final(self).message_header == old(self).message_header,
            final(self).slots == old(self).slots,
            ({
                let (replies, run_fanout) = out;
                if request.message_type == MessageType::ProtocolVersion {
                    &&& replies@.len() == 1
                    &&& replies@[0] == (Message {
                        header: old(self).message_header,
                        message_type: MessageType::ConnectedControllers,
                        payload: MessagePayload::ProtocolVersion(PROTOCOL_VERSION),
                    })
                    &&& !run_fanout
                    &&& final(self).connected_clients@ == old(self).connected_clients@
                } else {
                    match request.payload {
                        MessagePayload::ConnectedControllersRequest { amount, slot_numbers } => {
                            &&& replies@.len() == amount
                            &&& forall|i: int|
                                0 <= i < amount ==> #[trigger] replies@[i] == (Message {
                                    header: old(self).message_header,
                                    message_type: MessageType::ConnectedControllers,
                                    payload: MessagePayload::ConnectedControllerResponse {
                                        controller_info: old(self).slots@[slot_numbers[i] as int]
                                            .controller_info,
                                    },
                                })
                            &&& !run_fanout
                            &&& final(self).connected_clients@ == old(self).connected_clients@
                        },
                        MessagePayload::ControllerDataRequest(r) => {
                            &&& replies@.len() == 0
                            &&& run_fanout
                            &&& has_peer(final(self).connected_clients@, source)
                        },
                        _ => {
                            &&& replies@.len() == 0
                            &&& !run_fanout
                            &&& final(self).connected_clients@ == old(self).connected_clients@
                        },
                    }
                }
            }),
            forall|i: int|
                0 <= i < out.0@.len() ==> valid_payload(#[trigger] out.0@[i].payload),
    {
        match request.message_type {
            MessageType::ProtocolVersion => {
                let mut replies: Vec<Message> = Vec::new();
                replies.push(self.protocol_version_message());
                (replies, false)
            },
            _ => {
                match request.payload {
                    MessagePayload::ConnectedControllersRequest { amount, slot_numbers } => {
                        let mut replies: Vec<Message> = Vec::new();
                        let n = amount as usize;
                        let mut i: usize = 0;
                        while i < n
                            invariant
                                self.wf(),
                                self == old(self),
                                i <= n,
                                n <= 4,
                                forall|k: int| 0 <= k < n ==> #[trigger] slot_numbers[k] < 4,
                                replies@.len() == i,
                                forall|k: int|
                                    0 <= k < i ==> #[trigger] replies@[k] == (Message {
                                        header: self.message_header,
                                        message_type: MessageType::ConnectedControllers,
                                        payload: MessagePayload::ConnectedControllerResponse {
                                            controller_info: self.slots@[slot_numbers[k] as int]
                                                .controller_info,
                                        },
                                    }),
                                forall|k: int|
                                    0 <= k < i ==> valid_payload(#[trigger] replies@[k].payload),
                            decreases n - i,
                        {
                            let slot_number = slot_numbers[i];
                            replies.push(self.connected_controller_info_message(slot_number));
                            i += 1;
                        }
                        (replies, false)
                    },
                    MessagePayload::ControllerDataRequest(r) => {
                        self.upsert_subscription(source, r);
                        (Vec::new(), true)
                    },
                    _ => (Vec::new(), false),
                }
            },
        }
    }

    /// Stores new controller metadata into its slot and returns the
    /// `ConnectedControllers` response to push to every current subscriber.
    /// Send failures here do not evict anybody.
    pub fn update_controller_info(&mut self, controller_info: ControllerInfo) -> (out: Vec<
        (PeerAddr, Message),
    >)
        requires
            old(self).wf(),
            valid_info(controller_info),
        ensures
            final(self).wf(),
            final(self).message_header == old(self).message_header,
            final(self).connected_clients@ == old(self).connected_clients@,
            final(self).slots@.len() == 4,
            final(self).slots@[controller_info.slot as int].controller_info == controller_info,
            final(self).slots@[controller_info.slot as int].controller_data == old(
                self,
            ).slots@[controller_info.slot as int].controller_data,
            forall|k: int|
                0 <= k < 4 && k != controller_info.slot ==> #[trigger] final(self).slots@[k]
                    == old(self).slots@[k],
            out@.len() == old(self).connected_clients@.len(),
            forall|i: int|
                0 <= i < out@.len() ==> #[trigger] out@[i] == (
                    old(self).connected_clients@[i].0,
                    Message {
                        header: old(self).message_header,
                        message_type: MessageType::ConnectedControllers,
                        payload: MessagePayload::ConnectedControllerResponse { controller_info },
                    },
                ),
            forall|i: int| 0 <= i < out@.len() ==> valid_payload(#[trigger] out@[i].1.payload),
    {
        let slot_number = controller_info.slot;
        let mut slot = self.slots[slot_number as usize];
        slot.controller_info = controller_info;
        self.slots.set(slot_number as usize, slot);

        let message = Message {
            header: self.message_header,
            message_type: MessageType::ConnectedControllers,
            payload: MessagePayload::ConnectedControllerResponse { controller_info },
        };

        let n = self.connected_clients.len();
        let mut out: Vec<(PeerAddr, Message)> = Vec::new();
        let mut i: usize = 0;
        while i < n
            invariant
                i <= n,
                n == self.connected_clients@.len(),
                out@.len() == i,
                forall|j: int|
                    0 <= j < i ==> #[trigger] out@[j] == (
                        self.connected_clients@[j].0,
                        message,
                    ),
                valid_payload(message.payload),
            decreases n - i,
        {
            out.push((self.connected_clients[i].0, message));
            i += 1;
        }
        out
    }

    /// Stores a new controller state into a slot.  The caller then runs one
    /// fan-out pass so subscribers see it.
    pub fn update_controller_data(&mut self, slot_number: u8, controller_data: ControllerData)
        requires
            old(self).wf(),
            slot_number < 4,
        ensures
            final(self).wf(),
            final(self).message_header == old(self).message_header,
            final(self).connected_clients@ == old(self).connected_clients@,
            final(self).slots@.len() == 4,
            final(self).slots@[slot_number as int].controller_data == controller_data,
            final(self).slots@[slot_number as int].controller_info == old(
                self,
            ).slots@[slot_number as int].controller_info,
            forall|k: int|
                0 <= k < 4 && k != slot_number ==> #[trigger] final(self).slots@[k] == old(
                    self,
                ).slots@[k],
    {
        let mut slot = self.slots[slot_number as usize];
        slot.controller_data = controller_data;
        self.slots.set(slot_number as usize, slot);
    }
}

/// Monotone packet numbers: one fan-out pass to a subscriber carries
/// consecutive packet numbers starting at the subscription's counter
/// (the ensures of `fanout_messages`), and a commit of `sent` successful
/// sends advances the counter to exactly the next unused number (the
/// ensures of `fanout_commit`); so, as long as the 32-bit counter does not
/// wrap, the numbers a subscriber receives rise by exactly one per
/// successful send, within a pass and across passes.
pub proof fn lemma_packet_numbers_monotone(pn: u32, j: int, k: int)
    requires
        0 <= j < k,
        pn + k <= u32::MAX,
    ensures
        advanced_packet_number(pn, k) == pn + k,
        advanced_packet_number(pn, j) < advanced_packet_number(pn, k),
        advanced_packet_number(pn, j) + 1 == advanced_packet_number(pn, j + 1),
{
}

} // verus!
