//! The client engine: request builders, per-slot cache, change detection and
//! the bounded event queue.
//!
//! The engine is the decision half of a DSU client.  It owns no socket and
//! spawns no thread: the surrounding application sends the messages that
//! [`Client::request_connected_controllers_info`] and
//! [`Client::request_controller_data`] build, and hands every datagram
//! decoded from the configured server to [`Client::handle_response`], which
//! updates the slot cache and queues an event when something changed.
//! Consumers drain the queue through [`Client::next_event`].

use vstd::prelude::*;

use crossbeam_queue::ArrayQueue;

use crate::protocol::{
    valid_payload, valid_request, ControllerData, ControllerDataRequest, ControllerInfo, Message,
    MessageHeader, MessagePayload, MessageSource, MessageType, PROTOCOL_VERSION,
};

verus! {

/// What a client learns from the server when a cached value changes.
#[derive(Copy, Clone, Debug, PartialEq, Eq, Structural)]
pub enum ClientEvent {
    ControllerInfoChanged(ControllerInfo),
    ControllerDataChanged { controller_info: ControllerInfo, controller_data: ControllerData },
}

/// One client slot: the cached metadata and state, and the newest packet
/// number accepted for the slot.
#[derive(Copy, Clone, Debug, PartialEq, Eq, Structural)]
pub struct Slot {
    pub controller_info: ControllerInfo,
    pub controller_data: ControllerData,
    pub latest_packet_number: u32,
}

// ---------------------------------------------------------------------------
// the bounded event queue (crossbeam-queue's ArrayQueue, taken on trust)
// ---------------------------------------------------------------------------

#[verifier::external_type_specification]
#[verifier::external_body]
#[verifier::reject_recursive_types(T)]
pub struct ExArrayQueue<T>(ArrayQueue<T>);

/// What the event queue holds, oldest first.
pub uninterp spec fn queue_contents(q: ArrayQueue<ClientEvent>) -> Seq<ClientEvent>;

/// The capacity the event queue was created with.
pub uninterp spec fn queue_capacity(q: ArrayQueue<ClientEvent>) -> nat;

/// Relies on `ArrayQueue::new`: an empty queue with the given capacity.  It
/// panics on a zero or absurdly large capacity, so those stay out.
#[verifier::external_body]
fn event_queue_new(cap: usize) -> (q: ArrayQueue<ClientEvent>)
    requires
        0 < cap < 0x10000,
    ensures
        queue_contents(q) == Seq::<ClientEvent>::empty(),
        queue_capacity(q) == cap,
{
    ArrayQueue::new(cap)
}

/// Relies on `ArrayQueue::push`: appends at the tail, or hands the value
/// back unchanged when the queue is full.
#[verifier::external_body]
fn event_queue_push(q: &mut ArrayQueue<ClientEvent>, value: ClientEvent) -> (r: Result<(), ClientEvent>)
    ensures
        r == (if queue_contents(*old(q)).len() < queue_capacity(*old(q)) {
            Ok::<(), ClientEvent>(())
        } else {
            Err::<(), ClientEvent>(value)
        }),
        queue_contents(*final(q)) == (if queue_contents(*old(q)).len() < queue_capacity(*old(q)) {
            queue_contents(*old(q)).push(value)
        } else {
            queue_contents(*old(q))
        }),
        queue_capacity(*final(q)) == queue_capacity(*old(q)),
{
    q.push(value)
}

/// Relies on `ArrayQueue::pop`: takes from the head, or `None` when empty.
#[verifier::external_body]
fn event_queue_pop(q: &mut ArrayQueue<ClientEvent>) -> (r: Option<ClientEvent>)
    ensures
        queue_capacity(*final(q)) == queue_capacity(*old(q)),
        queue_contents(*old(q)).len() == 0 ==> r is None && queue_contents(*final(q))
            == queue_contents(*old(q)),
        queue_contents(*old(q)).len() > 0 ==> r == Some(queue_contents(*old(q))[0])
            && queue_contents(*final(q)) == queue_contents(*old(q)).drop_first(),
{
    q.pop()
}

// ---------------------------------------------------------------------------
// the engine
// ---------------------------------------------------------------------------

/// How the event queue changes when an event is produced: appended when
/// there is room, dropped when the queue is full (the intended backpressure:
/// a slow consumer loses updates rather than blocking the receiver).
pub open spec fn enqueued(
    before: Seq<ClientEvent>,
    after: Seq<ClientEvent>,
    cap: nat,
    e: ClientEvent,
) -> bool {
    if before.len() < cap {
        after == before.push(e)
    } else {
        after == before
    }
}

/// The DSU client engine.
pub struct Client {
    /// The header every outgoing request carries (its length and checksum
    /// fields are filled by the encoder).
    pub message_header: MessageHeader,
    /// The four slot caches; always of length 4.
    pub slots: Vec<Slot>,
    /// The bounded event queue; capacity 50.
    pub events: ArrayQueue<ClientEvent>,
}

impl Client {
    /// The engine's invariant: four slots, a client header with the
    /// supported version, and the event queue at its fixed capacity.
    pub open spec fn wf(&self) -> bool {
        &&& self.slots@.len() == 4
        &&& self.message_header.source == MessageSource::Client
        &&& self.message_header.protocol_version == PROTOCOL_VERSION
        &&& queue_capacity(self.events) == 50
    }

    /// Creates the engine: slot `k` starts with default state under index
    /// `k`, and the event queue is empty with room for 50 events.  With `id`
    /// absent the source id is drawn at random.
    pub fn new(id: Option<u32>) -> (c: Client)
        ensures
            c.wf(),
            (id matches Some(v) ==> c.message_header.source_id == v),
            c.message_header.message_length == 0,
            c.message_header.checksum == 0,
            forall|k: int|
                0 <= k < 4 ==> #[trigger] c.slots@[k] == (Slot {
                    controller_info: ControllerInfo {
                        slot: k as u8,
                        ..crate::protocol::default_controller_info()
                    },
                    controller_data: crate::protocol::default_controller_data(),
                    latest_packet_number: 0,
                }),
            queue_contents(c.events).len() == 0,
    {
        let source_id = match id {
            Some(v) => v,
            None => crate::rng::random_u32(),
        };

        let message_header = MessageHeader {
            source: MessageSource::Client,
            protocol_version: PROTOCOL_VERSION,
            message_length: 0,
            checksum: 0,
            source_id,
        };

        let mut slots: Vec<Slot> = Vec::new();
        let mut k: u8 = 0;
        while k < 4
            invariant
                k <= 4,
                slots@.len() == k,
                forall|j: int|
                    0 <= j < k ==> #[trigger] slots@[j] == (Slot {
                        controller_info: ControllerInfo {
                            slot: j as u8,
                            ..crate::protocol::default_controller_info()
                        },
                        controller_data: crate::protocol::default_controller_data(),
                        latest_packet_number: 0,
                    }),
            decreases 4 - k,
        {
            let mut controller_info = ControllerInfo::default();
            controller_info.slot = k;
            slots.push(Slot {
                controller_info,
                controller_data: ControllerData::default(),
                latest_packet_number: 0,
            });
            k += 1;
        }

        Client { message_header, slots, events: event_queue_new(50) }
    }

    /// Builds the request that asks the server for the metadata of the given
    /// slots: up to 4 slot numbers, each below 4; absent entries go out as
    /// zero.
    pub fn request_connected_controllers_info(&self, slot_numbers: &[u8]) -> (m: Message)
        requires
            self.wf(),
            slot_numbers@.len() <= 4,
            forall|k: int| 0 <= k < slot_numbers@.len() ==> #[trigger] slot_numbers@[k] < 4,
        ensures
            m == (Message {
                header: self.message_header,
                message_type: MessageType::ConnectedControllers,
                payload: MessagePayload::ConnectedControllersRequest {
                    amount: slot_numbers@.len() as i32,
                    slot_numbers: [
                        (if slot_numbers@.len() > 0 { slot_numbers@[0] } else { 0u8 }),
                        (if slot_numbers@.len() > 1 { slot_numbers@[1] } else { 0u8 }),
                        (if slot_numbers@.len() > 2 { slot_numbers@[2] } else { 0u8 }),
                        (if slot_numbers@.len() > 3 { slot_numbers@[3] } else { 0u8 }),
                    ],
                },
            }),
            valid_payload(m.payload),
    {
        let n = slot_numbers.len();
        let padded: [u8; 4] = [
            if n > 0 { slot_numbers[0] } else { 0u8 },
            if n > 1 { slot_numbers[1] } else { 0u8 },
            if n > 2 { slot_numbers[2] } else { 0u8 },
            if n > 3 { slot_numbers[3] } else { 0u8 },
        ];
        Message {
            header: self.message_header,
            message_type: MessageType::ConnectedControllers,
            payload: MessagePayload::ConnectedControllersRequest {
                amount: n as i32,
                slot_numbers: padded,
            },
        }
    }

    /// Builds the data-subscription request.  The application must send one
    /// periodically to keep data flowing.
    pub fn request_controller_data(&self, request: ControllerDataRequest) -> (m: Message)
        requires
            self.wf(),
            valid_request(request),
        ensures
            m == (Message {
                header: self.message_header,
                message_type: MessageType::ControllerData,
                payload: MessagePayload::ControllerDataRequest(request),
            }),
            valid_payload(m.payload),
    {
        Message {
            header: self.message_header,
            message_type: MessageType::ControllerData,
            payload: MessagePayload::ControllerDataRequest(request),
        }
    }

    /// Handles one decoded server datagram.
    ///
    /// A `ConnectedControllers` response replaces the slot's cached metadata
    /// and queues `ControllerInfoChanged` exactly when the metadata differs
    /// from the cache.  A `ControllerData` message is dropped unless its
    /// packet number strictly exceeds the newest accepted for the slot;
    /// otherwise the number is recorded and, exactly when the metadata or
    /// the state differs from the cache, both are replaced and
    /// `ControllerDataChanged` is queued.  A full queue drops the new event.
    /// Everything else is ignored.
    pub fn handle_response(&mut self, response: Message) -> (ev: Option<ClientEvent>)
        requires
            old(self).wf(),
            valid_payload(response.payload),
        ensures
            final(self).wf(),
            final(self).message_header == old(self).message_header,
            ({
                let unchanged = final(self).slots@ == old(self).slots@ && queue_contents(
                    final(self).events,
                ) == queue_contents(old(self).events) && ev is None;
                if response.message_type == MessageType::ProtocolVersion {
                    unchanged
                } else {
                    match response.payload {
                        MessagePayload::ConnectedControllerResponse { controller_info } => {
                            let s = controller_info.slot as int;
                            if old(self).slots@[s].controller_info != controller_info {
                                &&& final(self).slots@ == old(self).slots@.update(
                                    s,
                                    Slot {
                                        controller_info,
                                        ..old(self).slots@[s]
                                    },
                                )
                                &&& ev == Some(ClientEvent::ControllerInfoChanged(controller_info))
                                &&& enqueued(
                                    queue_contents(old(self).events),
                                    queue_contents(final(self).events),
                                    50,
                                    ClientEvent::ControllerInfoChanged(controller_info),
                                )
                            } else {
                                unchanged
                            }
                        },
                        MessagePayload::ControllerData {
                            packet_number,
                            controller_info,
                            controller_data,
                        } => {
                            let s = controller_info.slot as int;
                            if packet_number <= old(self).slots@[s].latest_packet_number {
                                unchanged
                            } else if old(self).slots@[s].controller_info != controller_info || old(
                                self,
                            ).slots@[s].controller_data != controller_data {
                                &&& final(self).slots@ == old(self).slots@.update(
                                    s,
                                    Slot {
                                        controller_info,
                                        controller_data,
                                        latest_packet_number: packet_number,
                                    },
                                )
                                &&& ev == Some(ClientEvent::ControllerDataChanged {
                                    controller_info,
                                    controller_data,
                                })
                                &&& enqueued(
                                    queue_contents(old(self).events),
                                    queue_contents(final(self).events),
                                    50,
                                    ClientEvent::ControllerDataChanged {
                                        controller_info,
                                        controller_data,
                                    },
                                )
                            } else {
                                &&& final(self).slots@ == old(self).slots@.update(
                                    s,
                                    Slot {
                                        latest_packet_number: packet_number,
                                        ..old(self).slots@[s]
                                    },
                                )
                                &&& queue_contents(final(self).events) == queue_contents(
                                    old(self).events,
                                )
                                &&& ev is None
                            }
                        },
                        _ => unchanged,
                    }
                }
            }),
    {
        match response.message_type {
            MessageType::ProtocolVersion => None,
            _ => {
                match response.payload {
                    MessagePayload::ConnectedControllerResponse { controller_info } => {
                        let slot_number = controller_info.slot;
                        let mut slot = self.slots[slot_number as usize];
                        if slot.controller_info != controller_info {
                            slot.controller_info = controller_info;
                            self.slots.set(slot_number as usize, slot);
                            let event = ClientEvent::ControllerInfoChanged(controller_info);
                            let _ = event_queue_push(&mut self.events, event);
                            Some(event)
                        } else {
                            None
                        }
                    },
                    MessagePayload::ControllerData {
                        packet_number,
                        controller_info,
                        controller_data,
                    } => {
                        let slot_number = controller_info.slot;
                        let slot = self.slots[slot_number as usize];
                        if packet_number > slot.latest_packet_number {
                            if slot.controller_info != controller_info || slot.controller_data
                                != controller_data {
                                self.slots.set(
                                    slot_number as usize,
                                    Slot {
                                        controller_info,
                                        controller_data,
                                        latest_packet_number: packet_number,
                                    },
                                );
                                let event = ClientEvent::ControllerDataChanged {
                                    controller_info,
                                    controller_data,
                                };
                                let _ = event_queue_push(&mut self.events, event);
                                Some(event)
                            } else {
                                self.slots.set(
                                    slot_number as usize,
                                    Slot { latest_packet_number: packet_number, ..slot },
                                );
                                None
                            }
                        } else {
                            None
                        }
                    },
                    _ => None,
                }
            },
        }
    }

    /// The cached metadata of a slot.
    pub fn get_controller_info(&self, slot_number: u8) -> (r: ControllerInfo)
        requires
            self.wf(),
            slot_number < 4,
        ensures
            r == self.slots@[slot_number as int].controller_info,
    {
        self.slots[slot_number as usize].controller_info
    }

    /// The cached state of a slot.
    pub fn get_controller_data(&self, slot_number: u8) -> (r: ControllerData)
        requires
            self.wf(),
            slot_number < 4,
        ensures
            r == self.slots@[slot_number as int].controller_data,
    {
        self.slots[slot_number as usize].controller_data
    }

    /// Takes the oldest queued event, or nothing when the queue is empty.
    pub fn next_event(&mut self) -> (ev: Option<ClientEvent>)
        requires
            old(self).wf(),
        ensures
            final(self).wf(),
            final(self).message_header == old(self).message_header,
            final(self).slots@ == old(self).slots@,
            queue_contents(old(self).events).len() == 0 ==> ev is None && queue_contents(
                final(self).events,
            ) == queue_contents(old(self).events),
            queue_contents(old(self).events).len() > 0 ==> ev == Some(
                queue_contents(old(self).events)[0],
            ) && queue_contents(final(self).events) == queue_contents(
                old(self).events,
            ).drop_first(),
    {
        event_queue_pop(&mut self.events)
    }
}

} // verus!
