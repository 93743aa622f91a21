//! Messages that a client sends to the server.

use crate::action::Action;
use crate::buffer::{first_zero, BitBuffer};
use crate::def::{vector_bytes, Vector3};
use crate::endian::{
    lemma_u16_round_trip, lemma_u32_round_trip, u16_from_le, u16_le_bytes, u32_from_le,
    u32_le_bytes,
};
use crate::packet::{
    header_bytes, lemma_frame_round_trip, lemma_header_fields, lemma_patched_at_end, length_field,
    packet_fault, payload_of, timestamp_of, type_of, Packet, PacketBuilder,
};
use crate::text::{
    fits_message, has_no_nul, lemma_string_bytes_read_back, lossy_text, string_bytes, text_fits,
};
use crate::{EventError, PacketSerialize};
use vstd::prelude::*;

verus! {

/// The type tag of each message.
pub const CLIENT_ACK: u8 = 0x0;

pub const CLIENT_LOGIN: u8 = 0x1;

pub const CLIENT_PERFORM_ACTION: u8 = 0x2;

pub const CLIENT_DISCONNECT: u8 = 0x3;

/// A message from a client to the server.
#[derive(Debug, PartialEq)]
pub enum ClientEvent {
    /// The reliable message with this sequence number has arrived.
    Ack { seq_number: u16 },
    /// A request for a session, with the protocol revision the client speaks.
    Login { version: u32, name: String },
    /// The actions now held down and the direction the player faces.
    PerformAction { actions: Action, angles: Vector3 },
    /// The client leaves.
    Disconnect { reason: String },
}

/// A client message with its strings as sequences of characters.
pub ghost enum ClientEventView {
    Ack { seq_number: u16 },
    Login { version: u32, name: Seq<char> },
    PerformAction { actions: u32, angles: Vector3 },
    Disconnect { reason: Seq<char> },
}

impl View for ClientEvent {
    type V = ClientEventView;

    open spec fn view(&self) -> ClientEventView {
        match self {
            ClientEvent::Ack { seq_number } => ClientEventView::Ack { seq_number: *seq_number },
            ClientEvent::Login { version, name } => ClientEventView::Login {
                version: *version,
                name: name@,
            },
            ClientEvent::PerformAction { actions, angles } => ClientEventView::PerformAction {
                actions: actions@,
                angles: *angles,
            },
            ClientEvent::Disconnect { reason } => ClientEventView::Disconnect { reason: reason@ },
        }
    }
}

impl ClientEventView {
    /// The type tag of the message.
    pub open spec fn tag(self) -> u8 {
        match self {
            ClientEventView::Ack { .. } => CLIENT_ACK,
            ClientEventView::Login { .. } => CLIENT_LOGIN,
            ClientEventView::PerformAction { .. } => CLIENT_PERFORM_ACTION,
            ClientEventView::Disconnect { .. } => CLIENT_DISCONNECT,
        }
    }

    /// The payload of the message: its fields in declared order.
    pub open spec fn payload(self) -> Seq<u8> {
        match self {
            ClientEventView::Ack { seq_number } => u16_le_bytes(seq_number),
            ClientEventView::Login { version, name } => u32_le_bytes(version) + string_bytes(name),
            ClientEventView::PerformAction { actions, angles } => u32_le_bytes(actions)
                + vector_bytes(angles),
            ClientEventView::Disconnect { reason } => string_bytes(reason),
        }
    }

    /// Whether the message is one that must not get lost: a login or a
    /// farewell. Held actions are sent again with every change, and an
    /// acknowledgment is itself the answer to a message.
    pub open spec fn reliable(self) -> bool {
        self is Login || self is Disconnect
    }

    /// No string of the message holds U+0000, which would end it early on the wire.
    pub open spec fn text_survives(self) -> bool {
        match self {
            ClientEventView::Login { name, .. } => has_no_nul(name),
            ClientEventView::Disconnect { reason } => has_no_nul(reason),
            _ => true,
        }
    }
}

/// The strings of a client message are short enough to be passed on in any
/// message of the server.
pub open spec fn client_event_fits(event: ClientEventView) -> bool {
    match event {
        ClientEventView::Login { name, .. } => text_fits(name),
        ClientEventView::Disconnect { reason } => text_fits(reason),
        _ => true,
    }
}

/// The message that a payload with type tag `tag` is read as.
pub open spec fn client_event_of(tag: u8, payload: Seq<u8>) -> Result<ClientEventView, EventError> {
    if tag == CLIENT_ACK {
        if payload.len() < 2 {
            Err(EventError::Truncated)
        } else {
            Ok(ClientEventView::Ack { seq_number: u16_from_le(payload.subrange(0, 2)) })
        }
    } else if tag == CLIENT_LOGIN {
        if payload.len() < 4 {
            Err(EventError::Truncated)
        } else {
            match first_zero(payload, 4) {
                Some(end) => Ok(
                    ClientEventView::Login {
                        version: u32_from_le(payload.subrange(0, 4)),
                        name: lossy_text(payload.subrange(4, end)),
                    },
                ),
                None => Err(EventError::MissingTerminator),
            }
        }
    } else if tag == CLIENT_PERFORM_ACTION {
        if payload.len() < 16 {
            Err(EventError::Truncated)
        } else {
            Ok(
                ClientEventView::PerformAction {
                    actions: u32_from_le(payload.subrange(0, 4)),
                    angles: Vector3 {
                        x: u32_from_le(payload.subrange(4, 8)),
                        y: u32_from_le(payload.subrange(8, 12)),
                        z: u32_from_le(payload.subrange(12, 16)),
                    },
                },
            )
        }
    } else if tag == CLIENT_DISCONNECT {
        match first_zero(payload, 0) {
            Some(end) => Ok(
                ClientEventView::Disconnect { reason: lossy_text(payload.subrange(0, end)) },
            ),
            None => Err(EventError::MissingTerminator),
        }
    } else {
        Err(EventError::UnknownType)
    }
}

/// Whether `r` is what `client_event_of` says of the packet bytes `bytes`.
pub open spec fn client_read_as(bytes: Seq<u8>, r: Result<ClientEvent, EventError>) -> bool {
    match client_event_of(type_of(bytes), payload_of(bytes)) {
        Ok(event) => r is Ok && r->Ok_0@ == event,
        Err(fault) => r == Err::<ClientEvent, EventError>(fault),
    }
}

/// Reading a client message back from its own payload yields the message,
/// provided none of its strings holds U+0000.
pub proof fn lemma_client_event_round_trip(event: ClientEventView)
    requires
        event.text_survives(),
    ensures
        client_event_of(event.tag(), event.payload()) == Ok::<ClientEventView, EventError>(event),
{
    let payload = event.payload();
    match event {
        ClientEventView::Ack { seq_number } => {
            lemma_u16_round_trip(seq_number, Seq::<u8>::empty());
            assert(payload.subrange(0, 2) =~= u16_le_bytes(seq_number) + Seq::<u8>::empty());
        },
        ClientEventView::Login { version, name } => {
            lemma_u32_round_trip(version, Seq::<u8>::empty());
            assert(payload.subrange(0, 4) =~= u32_le_bytes(version) + Seq::<u8>::empty());
            lemma_string_bytes_read_back(u32_le_bytes(version), name, Seq::<u8>::empty());
            assert(payload =~= u32_le_bytes(version) + string_bytes(name) + Seq::<u8>::empty());
        },
        ClientEventView::PerformAction { actions, angles } => {
            lemma_u32_round_trip(actions, Seq::<u8>::empty());
            lemma_u32_round_trip(angles.x, Seq::<u8>::empty());
            lemma_u32_round_trip(angles.y, Seq::<u8>::empty());
            lemma_u32_round_trip(angles.z, Seq::<u8>::empty());
            assert(payload.subrange(0, 4) =~= u32_le_bytes(actions) + Seq::<u8>::empty());
            assert(payload.subrange(4, 8) =~= u32_le_bytes(angles.x) + Seq::<u8>::empty());
            assert(payload.subrange(8, 12) =~= u32_le_bytes(angles.y) + Seq::<u8>::empty());
            assert(payload.subrange(12, 16) =~= u32_le_bytes(angles.z) + Seq::<u8>::empty());
        },
        ClientEventView::Disconnect { reason } => {
            lemma_string_bytes_read_back(Seq::<u8>::empty(), reason, Seq::<u8>::empty());
            assert(payload =~= Seq::<u8>::empty() + string_bytes(reason) + Seq::<u8>::empty());
        },
    }
}

/// A client message whose payload fits the length field survives the whole
/// path: framed behind any header it is a valid packet, and that packet is
/// read back as the message.
pub proof fn lemma_client_packet_round_trip(event: ClientEventView, timestamp: u32, shared: u32)
    requires
        event.text_survives(),
        event.payload().len() <= u16::MAX,
    ensures
        packet_fault(
            header_bytes(
                length_field(event.payload().len() as int),
                event.tag(),
                timestamp,
                shared,
            ) + event.payload(),
        ) is None,
        client_event_of(
            type_of(
                header_bytes(
                    length_field(event.payload().len() as int),
                    event.tag(),
                    timestamp,
                    shared,
                ) + event.payload(),
            ),
            payload_of(
                header_bytes(
                    length_field(event.payload().len() as int),
                    event.tag(),
                    timestamp,
                    shared,
                ) + event.payload(),
            ),
        ) == Ok::<ClientEventView, EventError>(event),
{
    lemma_client_payload_not_empty(event);
    lemma_client_event_round_trip(event);
    lemma_frame_round_trip(event.tag(), timestamp, shared, event.payload());
}

/// Every client message has at least one payload byte.
pub proof fn lemma_client_payload_not_empty(event: ClientEventView)
    ensures
        event.payload().len() > 0,
{
}

impl ClientEvent {
    /// Whether the strings of the message are short enough to be passed on in
    /// any message of the server.
    pub fn fits(&self) -> (b: bool)
        ensures
            b == client_event_fits(self@),
    {
        match self {
            ClientEvent::Login { name, .. } => fits_message(name.as_str()),
            ClientEvent::Disconnect { reason } => fits_message(reason.as_str()),
            _ => true,
        }
    }

    /// Whether the message is one that must not get lost.
    pub fn is_reliable(&self) -> (b: bool)
        ensures
            b == self@.reliable(),
    {
        match self {
            ClientEvent::Ack { .. } => false,
            ClientEvent::Login { .. } => true,
            ClientEvent::PerformAction { .. } => false,
            ClientEvent::Disconnect { .. } => true,
        }
    }

    /// The type tag of the message.
    pub fn get_packet_type(&self) -> (t: u8)
        ensures
            t == self@.tag(),
    {
        match self {
            ClientEvent::Ack { .. } => CLIENT_ACK,
            ClientEvent::Login { .. } => CLIENT_LOGIN,
            ClientEvent::PerformAction { .. } => CLIENT_PERFORM_ACTION,
            ClientEvent::Disconnect { .. } => CLIENT_DISCONNECT,
        }
    }
}

impl PacketSerialize for ClientEvent {
    open spec fn wire_tag(&self) -> u8 {
        self@.tag()
    }

    open spec fn wire_payload(&self) -> Seq<u8> {
        self@.payload()
    }

    open spec fn read_as(bytes: Seq<u8>, r: Result<Self, EventError>) -> bool {
        client_read_as(bytes, r)
    }

    fn to_packet_builder(&self) -> (b: PacketBuilder) {
        let mut pk = PacketBuilder::new(self.get_packet_type());
        let ghost head = pk@;
        match self {
            ClientEvent::Ack { seq_number } => {
                let buf = pk.buf_mut();
                buf.write_u16(*seq_number);
                proof {
                    lemma_patched_at_end(head, u16_le_bytes(*seq_number));
                }
            },
            ClientEvent::Login { version, name } => {
                let buf = pk.buf_mut();
                buf.write_u32(*version);
                buf.write_string(name.as_str());
                proof {
                    lemma_patched_at_end(head, u32_le_bytes(*version));
                    lemma_patched_at_end(head + u32_le_bytes(*version), string_bytes(name@));
                    assert(head + u32_le_bytes(*version) + string_bytes(name@) =~= head + (
                    u32_le_bytes(*version) + string_bytes(name@)));
                }
            },
            ClientEvent::PerformAction { actions, angles } => {
                let buf = pk.buf_mut();
                buf.write_u32(actions.bits());
                buf.write_f32(angles.x);
                buf.write_f32(angles.y);
                buf.write_f32(angles.z);
                proof {
                    let a = u32_le_bytes(actions@);
                    let x = u32_le_bytes(angles.x);
                    let y = u32_le_bytes(angles.y);
                    let z = u32_le_bytes(angles.z);
                    lemma_patched_at_end(head, a);
                    lemma_patched_at_end(head + a, x);
                    lemma_patched_at_end(head + a + x, y);
                    lemma_patched_at_end(head + a + x + y, z);
                    assert(head + a + x + y + z =~= head + (a + (x + y + z)));
                }
            },
            ClientEvent::Disconnect { reason } => {
                let buf = pk.buf_mut();
                buf.write_string(reason.as_str());
                proof {
                    lemma_patched_at_end(head, string_bytes(reason@));
                }
            },
        }
        proof {
            lemma_header_fields(
                u16::MAX,
                self@.tag(),
                timestamp_of(head),
                0,
                self@.payload(),
            );
        }
        pk
    }

    fn from_packet(packet: &Packet) -> (r: Result<Self, EventError>) {
        let pk_type: u8 = packet.packet_type();
        let mut buf: BitBuffer = packet.payload_buf();
        let len: usize = buf.len();
        if pk_type == CLIENT_ACK {
            if len < 2 {
                return Err(EventError::Truncated);
            }
            Ok(ClientEvent::Ack { seq_number: buf.read_u16() })
        } else if pk_type == CLIENT_LOGIN {
            if len < 4 {
                return Err(EventError::Truncated);
            }
            let version: u32 = buf.read_u32();
            match buf.read_string() {
                Ok(name) => Ok(ClientEvent::Login { version, name }),
                Err(_) => Err(EventError::MissingTerminator),
            }
        } else if pk_type == CLIENT_PERFORM_ACTION {
            if len < 16 {
                return Err(EventError::Truncated);
            }
            let bits: u32 = buf.read_u32();
            let x: u32 = buf.read_f32();
            let y: u32 = buf.read_f32();
            let z: u32 = buf.read_f32();
            Ok(
                ClientEvent::PerformAction {
                    actions: Action::from_bits_retain(bits),
                    angles: Vector3::new(x, y, z),
                },
            )
        } else if pk_type == CLIENT_DISCONNECT {
            match buf.read_string() {
                Ok(reason) => Ok(ClientEvent::Disconnect { reason }),
                Err(_) => Err(EventError::MissingTerminator),
            }
        } else {
            Err(EventError::UnknownType)
        }
    }
}

} // verus!
