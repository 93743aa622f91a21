//! Messages that the server sends to its clients.

use crate::buffer::{first_zero, BitBuffer};
use crate::def::{vector_bytes, Vector3};
use crate::endian::{lemma_u32_round_trip, u32_from_le, u32_le_bytes};
use crate::packet::{
    header_bytes, lemma_frame_round_trip, lemma_header_fields, lemma_patched_at_end, length_field,
    packet_fault, payload_of, timestamp_of, type_of, Packet, PacketBuilder, PACKET_HEADER_SIZE,
};
use crate::text::{has_no_nul, lemma_string_bytes_read_back, lossy_text, string_bytes};
use crate::{EventError, PacketSerialize};
use vstd::prelude::*;

verus! {

/// The type tag of each message.
pub const SERVER_LOGIN: u8 = 0x1;

pub const SERVER_MOVE: u8 = 0x2;

pub const SERVER_PLAYER_SPAWN: u8 = 0x3;

pub const SERVER_DISCONNECT: u8 = 0x4;

/// A message from the server to a client.
#[derive(Debug, PartialEq)]
pub enum ServerEvent {
    /// The session granted to a login: its slot and its auth token.
    Login { client_index: u32, auth_id: u32 },
    /// Where a player now is.
    Move { client_index: u32, position: Vector3, angles: Vector3, velocity: Vector3 },
    /// A player occupies a slot.
    PlayerSpawn { client_index: u32, name: String, position: Vector3, angles: Vector3 },
    /// A player has left its slot.
    Disconnect { client_index: u32, reason: String },
}

/// A server message with its strings as sequences of characters.
pub ghost enum ServerEventView {
    Login { client_index: u32, auth_id: u32 },
    Move { client_index: u32, position: Vector3, angles: Vector3, velocity: Vector3 },
    PlayerSpawn { client_index: u32, name: Seq<char>, position: Vector3, angles: Vector3 },
    Disconnect { client_index: u32, reason: Seq<char> },
}

impl View for ServerEvent {
    type V = ServerEventView;

    open spec fn view(&self) -> ServerEventView {
        match self {
            ServerEvent::Login { client_index, auth_id } => ServerEventView::Login {
                client_index: *client_index,
                auth_id: *auth_id,
            },
            ServerEvent::Move { client_index, position, angles, velocity } => ServerEventView::Move {
                client_index: *client_index,
                position: *position,
                angles: *angles,
                velocity: *velocity,
            },
            ServerEvent::PlayerSpawn {
                client_index,
                name,
                position,
                angles,
            } => ServerEventView::PlayerSpawn {
                client_index: *client_index,
                name: name@,
                position: *position,
                angles: *angles,
            },
            ServerEvent::Disconnect { client_index, reason } => ServerEventView::Disconnect {
                client_index: *client_index,
                reason: reason@,
            },
        }
    }
}

impl ServerEventView {
    /// The type tag of the message.
    pub open spec fn tag(self) -> u8 {
        match self {
            ServerEventView::Login { .. } => SERVER_LOGIN,
            ServerEventView::Move { .. } => SERVER_MOVE,
            ServerEventView::PlayerSpawn { .. } => SERVER_PLAYER_SPAWN,
            ServerEventView::Disconnect { .. } => SERVER_DISCONNECT,
        }
    }

    /// Whether the message must be acknowledged. A move is not: the next one
    /// supersedes it.
    pub open spec fn reliable(self) -> bool {
        !(self is Move)
    }

    /// The payload of the message: its fields in declared order, a string last.
    pub open spec fn payload(self) -> Seq<u8> {
        match self {
            ServerEventView::Login { client_index, auth_id } => u32_le_bytes(client_index)
                + u32_le_bytes(auth_id),
            ServerEventView::Move { client_index, position, angles, velocity } => u32_le_bytes(
                client_index,
            ) + vector_bytes(position) + vector_bytes(angles) + vector_bytes(velocity),
            ServerEventView::PlayerSpawn { client_index, name, position, angles } => u32_le_bytes(
                client_index,
            ) + vector_bytes(position) + vector_bytes(angles) + string_bytes(name),
            ServerEventView::Disconnect { client_index, reason } => u32_le_bytes(client_index)
                + string_bytes(reason),
        }
    }

    /// No string of the message holds U+0000, which would end it early on the wire.
    pub open spec fn text_survives(self) -> bool {
        match self {
            ServerEventView::PlayerSpawn { name, .. } => has_no_nul(name),
            ServerEventView::Disconnect { reason, .. } => has_no_nul(reason),
            _ => true,
        }
    }
}

/// The message can be laid out in memory: header and payload together do not
/// exceed what a buffer can hold.
pub open spec fn event_fits(event: ServerEventView) -> bool {
    PACKET_HEADER_SIZE + event.payload().len() <= usize::MAX
}

/// The vector laid out in the twelve bytes of `payload` that start at `at`.
pub open spec fn vector_at(payload: Seq<u8>, at: int) -> Vector3 {
    Vector3 {
        x: u32_from_le(payload.subrange(at, at + 4)),
        y: u32_from_le(payload.subrange(at + 4, at + 8)),
        z: u32_from_le(payload.subrange(at + 8, at + 12)),
    }
}

/// The message that a payload with type tag `tag` is read as.
pub open spec fn server_event_of(tag: u8, payload: Seq<u8>) -> Result<ServerEventView, EventError> {
    if tag == SERVER_LOGIN {
        if payload.len() < 8 {
            Err(EventError::Truncated)
        } else {
            Ok(
                ServerEventView::Login {
                    client_index: u32_from_le(payload.subrange(0, 4)),
                    auth_id: u32_from_le(payload.subrange(4, 8)),
                },
            )
        }
    } else if tag == SERVER_MOVE {
        if payload.len() < 40 {
            Err(EventError::Truncated)
        } else {
            Ok(
                ServerEventView::Move {
                    client_index: u32_from_le(payload.subrange(0, 4)),
                    position: vector_at(payload, 4),
                    angles: vector_at(payload, 16),
                    velocity: vector_at(payload, 28),
                },
            )
        }
    } else if tag == SERVER_PLAYER_SPAWN {
        if payload.len() < 28 {
            Err(EventError::Truncated)
        } else {
            match first_zero(payload, 28) {
                Some(end) => Ok(
                    ServerEventView::PlayerSpawn {
                        client_index: u32_from_le(payload.subrange(0, 4)),
                        name: lossy_text(payload.subrange(28, end)),
                        position: vector_at(payload, 4),
                        angles: vector_at(payload, 16),
                    },
                ),
                None => Err(EventError::MissingTerminator),
            }
        }
    } else if tag == SERVER_DISCONNECT {
        if payload.len() < 4 {
            Err(EventError::Truncated)
        } else {
            match first_zero(payload, 4) {
                Some(end) => Ok(
                    ServerEventView::Disconnect {
                        client_index: u32_from_le(payload.subrange(0, 4)),
                        reason: lossy_text(payload.subrange(4, end)),
                    },
                ),
                None => Err(EventError::MissingTerminator),
            }
        }
    } else {
        Err(EventError::UnknownType)
    }
}

/// Whether `r` is what `server_event_of` says of the packet bytes `bytes`.
pub open spec fn server_read_as(bytes: Seq<u8>, r: Result<ServerEvent, EventError>) -> bool {
    match server_event_of(type_of(bytes), payload_of(bytes)) {
        Ok(event) => r is Ok && r->Ok_0@ == event,
        Err(fault) => r == Err::<ServerEvent, EventError>(fault),
    }
}

/// A vector is read back from its own bytes, whatever surrounds them.
pub proof fn lemma_vector_read_back(before: Seq<u8>, v: Vector3, after: Seq<u8>)
    ensures
        vector_bytes(v).len() == 12,
        vector_at(before + vector_bytes(v) + after, before.len() as int) == v,
{
    let all = before + vector_bytes(v) + after;
    let at = before.len() as int;
    lemma_u32_round_trip(v.x, Seq::<u8>::empty());
    lemma_u32_round_trip(v.y, Seq::<u8>::empty());
    lemma_u32_round_trip(v.z, Seq::<u8>::empty());
    assert(all.subrange(at, at + 4) =~= u32_le_bytes(v.x) + Seq::<u8>::empty());
    assert(all.subrange(at + 4, at + 8) =~= u32_le_bytes(v.y) + Seq::<u8>::empty());
    assert(all.subrange(at + 8, at + 12) =~= u32_le_bytes(v.z) + Seq::<u8>::empty());
}

/// Reading a server message back from its own payload yields the message,
/// provided none of its strings holds U+0000.
pub proof fn lemma_server_event_round_trip(event: ServerEventView)
    requires
        event.text_survives(),
    ensures
        server_event_of(event.tag(), event.payload()) == Ok::<ServerEventView, EventError>(event),
{
    let payload = event.payload();
    let none = Seq::<u8>::empty();
    match event {
        ServerEventView::Login { client_index, auth_id } => {
            lemma_u32_round_trip(client_index, none);
            lemma_u32_round_trip(auth_id, none);
            assert(payload.subrange(0, 4) =~= u32_le_bytes(client_index) + none);
            assert(payload.subrange(4, 8) =~= u32_le_bytes(auth_id) + none);
        },
        ServerEventView::Move { client_index, position, angles, velocity } => {
            let c = u32_le_bytes(client_index);
            lemma_u32_round_trip(client_index, none);
            assert(payload.subrange(0, 4) =~= c + none);
            lemma_vector_read_back(c, position, vector_bytes(angles) + vector_bytes(velocity));
            assert(payload =~= c + vector_bytes(position) + (vector_bytes(angles) + vector_bytes(
                velocity,
            )));
            lemma_vector_read_back(c + vector_bytes(position), angles, vector_bytes(velocity));
            lemma_vector_read_back(c + vector_bytes(position) + vector_bytes(angles), velocity, none);
            assert(payload =~= c + vector_bytes(position) + vector_bytes(angles) + vector_bytes(
                velocity,
            ) + none);
        },
        ServerEventView::PlayerSpawn { client_index, name, position, angles } => {
            let c = u32_le_bytes(client_index);
            lemma_u32_round_trip(client_index, none);
            assert(payload.subrange(0, 4) =~= c + none);
            lemma_vector_read_back(c, position, vector_bytes(angles) + string_bytes(name));
            assert(payload =~= c + vector_bytes(position) + (vector_bytes(angles) + string_bytes(
                name,
            )));
            lemma_vector_read_back(c + vector_bytes(position), angles, string_bytes(name));
            lemma_string_bytes_read_back(
                c + vector_bytes(position) + vector_bytes(angles),
                name,
                none,
            );
            assert(payload =~= c + vector_bytes(position) + vector_bytes(angles) + string_bytes(
                name,
            ) + none);
        },
        ServerEventView::Disconnect { client_index, reason } => {
            lemma_u32_round_trip(client_index, none);
            assert(payload.subrange(0, 4) =~= u32_le_bytes(client_index) + none);
            lemma_string_bytes_read_back(u32_le_bytes(client_index), reason, none);
            assert(payload =~= u32_le_bytes(client_index) + string_bytes(reason) + none);
        },
    }
}

/// A server message whose payload fits the length field survives the whole
/// path: framed behind any header it is a valid packet, and that packet is
/// read back as the message.
pub proof fn lemma_server_packet_round_trip(event: ServerEventView, timestamp: u32, shared: u32)
    requires
        event.text_survives(),
        event.payload().len() <= u16::MAX,
    ensures
        packet_fault(
            header_bytes(
                length_field(event.payload().len() as int),
                event.tag(),
                timestamp,
                shared,
            ) + event.payload(),
        ) is None,
        server_event_of(
            type_of(
                header_bytes(
                    length_field(event.payload().len() as int),
                    event.tag(),
                    timestamp,
                    shared,
                ) + event.payload(),
            ),
            payload_of(
                header_bytes(
                    length_field(event.payload().len() as int),
                    event.tag(),
                    timestamp,
                    shared,
                ) + event.payload(),
            ),
        ) == Ok::<ServerEventView, EventError>(event),
{
    lemma_server_payload_not_empty(event);
    lemma_server_event_round_trip(event);
    lemma_frame_round_trip(event.tag(), timestamp, shared, event.payload());
}

/// Every server message has at least one payload byte.
pub proof fn lemma_server_payload_not_empty(event: ServerEventView)
    ensures
        event.payload().len() > 0,
{
}

/// Appends the three components of `v` to `buf`.
fn write_vector(buf: &mut BitBuffer, v: Vector3)
    requires
        old(buf).cursor() == old(buf)@.len(),
        old(buf)@.len() + 12 <= usize::MAX,
    ensures
        final(buf)@ == old(buf)@ + vector_bytes(v),
        final(buf).cursor() == final(buf)@.len(),
{
    let ghost start = buf@;
    buf.write_f32(v.x);
    buf.write_f32(v.y);
    buf.write_f32(v.z);
    proof {
        let x = u32_le_bytes(v.x);
        let y = u32_le_bytes(v.y);
        let z = u32_le_bytes(v.z);
        lemma_patched_at_end(start, x);
        lemma_patched_at_end(start + x, y);
        lemma_patched_at_end(start + x + y, z);
        assert(start + x + y + z =~= start + (x + y + z));
    }
}

/// Reads the three components of a vector at the cursor of `buf`.
fn read_vector(buf: &mut BitBuffer) -> (v: Vector3)
    requires
        old(buf).cursor() >= 0,
        old(buf).cursor() + 12 <= old(buf)@.len(),
    ensures
        v == vector_at(old(buf)@, old(buf).cursor()),
        final(buf)@ == old(buf)@,
        final(buf).cursor() == old(buf).cursor() + 12,
{
    let x: u32 = buf.read_f32();
    let y: u32 = buf.read_f32();
    let z: u32 = buf.read_f32();
    Vector3::new(x, y, z)
}

impl ServerEvent {
    /// The type tag of the message.
    pub fn get_packet_type(&self) -> (t: u8)
        ensures
            t == self@.tag(),
    {
        match self {
            ServerEvent::Login { .. } => SERVER_LOGIN,
            ServerEvent::Move { .. } => SERVER_MOVE,
            ServerEvent::PlayerSpawn { .. } => SERVER_PLAYER_SPAWN,
            ServerEvent::Disconnect { .. } => SERVER_DISCONNECT,
        }
    }

    /// Whether the message must be acknowledged.
    pub fn is_reliable(&self) -> (b: bool)
        ensures
            b == self@.reliable(),
    {
        match self {
            ServerEvent::Login { .. } => true,
            ServerEvent::PlayerSpawn { .. } => true,
            ServerEvent::Move { .. } => false,
            ServerEvent::Disconnect { .. } => true,
        }
    }
}

impl Clone for ServerEvent {
    /// A copy that stands for the same message.
    fn clone(&self) -> (r: Self)
        ensures
            r@ == self@,
    {
        match self {
            ServerEvent::Login { client_index, auth_id } => ServerEvent::Login {
                client_index: *client_index,
                auth_id: *auth_id,
            },
            ServerEvent::Move { client_index, position, angles, velocity } => ServerEvent::Move {
                client_index: *client_index,
                position: *position,
                angles: *angles,
                velocity: *velocity,
            },
            ServerEvent::PlayerSpawn { client_index, name, position, angles } => {
                ServerEvent::PlayerSpawn {
                    client_index: *client_index,
                    name: name.clone(),
                    position: *position,
                    angles: *angles,
                }
            },
            ServerEvent::Disconnect { client_index, reason } => ServerEvent::Disconnect {
                client_index: *client_index,
                reason: reason.clone(),
            },
        }
    }
}

impl PacketSerialize for ServerEvent {
    open spec fn wire_tag(&self) -> u8 {
        self@.tag()
    }

    open spec fn wire_payload(&self) -> Seq<u8> {
        self@.payload()
    }

    open spec fn read_as(bytes: Seq<u8>, r: Result<Self, EventError>) -> bool {
        server_read_as(bytes, r)
    }

    fn to_packet_builder(&self) -> (b: PacketBuilder) {
        let mut pk = PacketBuilder::new(self.get_packet_type());
        let ghost head = pk@;
        match self {
            ServerEvent::Login { client_index, auth_id } => {
                let buf = pk.buf_mut();
                buf.write_u32(*client_index);
                buf.write_u32(*auth_id);
                proof {
                    let c = u32_le_bytes(*client_index);
                    lemma_patched_at_end(head, c);
                    lemma_patched_at_end(head + c, u32_le_bytes(*auth_id));
                    assert(head + c + u32_le_bytes(*auth_id) =~= head + (c + u32_le_bytes(
                        *auth_id,
                    )));
                }
            },
            ServerEvent::Move { client_index, position, angles, velocity } => {
                let buf = pk.buf_mut();
                buf.write_u32(*client_index);
                proof {
                    lemma_patched_at_end(head, u32_le_bytes(*client_index));
                }
                write_vector(buf, *position);
                write_vector(buf, *angles);
                write_vector(buf, *velocity);
                proof {
                    let c = u32_le_bytes(*client_index);
                    assert(head + c + vector_bytes(*position) + vector_bytes(*angles)
                        + vector_bytes(*velocity) =~= head + (c + vector_bytes(*position)
                        + vector_bytes(*angles) + vector_bytes(*velocity)));
                }
            },
            ServerEvent::PlayerSpawn { client_index, name, position, angles } => {
                let buf = pk.buf_mut();
                buf.write_u32(*client_index);
                proof {
                    lemma_patched_at_end(head, u32_le_bytes(*client_index));
                }
                write_vector(buf, *position);
                write_vector(buf, *angles);
                let ghost mid = buf@;
                buf.write_string(name.as_str());
                proof {
                    let c = u32_le_bytes(*client_index);
                    lemma_patched_at_end(mid, string_bytes(name@));
                    assert(head + c + vector_bytes(*position) + vector_bytes(*angles)
                        + string_bytes(name@) =~= head + (c + vector_bytes(*position)
                        + vector_bytes(*angles) + string_bytes(name@)));
                }
            },
            ServerEvent::Disconnect { client_index, reason } => {
                let buf = pk.buf_mut();
                buf.write_u32(*client_index);
                buf.write_string(reason.as_str());
                proof {
                    let c = u32_le_bytes(*client_index);
                    lemma_patched_at_end(head, c);
                    lemma_patched_at_end(head + c, string_bytes(reason@));
                    assert(head + c + string_bytes(reason@) =~= head + (c + string_bytes(
                        reason@,
                    )));
                }
            },
        }
        proof {
            lemma_header_fields(u16::MAX, self@.tag(), timestamp_of(head), 0, self@.payload());
        }
        pk
    }

    fn from_packet(packet: &Packet) -> (r: Result<Self, EventError>) {
        let pk_type: u8 = packet.packet_type();
        let mut buf: BitBuffer = packet.payload_buf();
        let len: usize = buf.len();
        if pk_type == SERVER_LOGIN {
            if len < 8 {
                return Err(EventError::Truncated);
            }
            let client_index: u32 = buf.read_u32();
            let auth_id: u32 = buf.read_u32();
            Ok(ServerEvent::Login { client_index, auth_id })
        } else if pk_type == SERVER_MOVE {
            if len < 40 {
                return Err(EventError::Truncated);
            }
            let client_index: u32 = buf.read_u32();
            let position = read_vector(&mut buf);
            let angles = read_vector(&mut buf);
            let velocity = read_vector(&mut buf);
            Ok(ServerEvent::Move { client_index, position, angles, velocity })
        } else if pk_type == SERVER_PLAYER_SPAWN {
            if len < 28 {
                return Err(EventError::Truncated);
            }
            let client_index: u32 = buf.read_u32();
            let position = read_vector(&mut buf);
            let angles = read_vector(&mut buf);
            match buf.read_string() {
                Ok(name) => Ok(ServerEvent::PlayerSpawn { client_index, name, position, angles }),
                Err(_) => Err(EventError::MissingTerminator),
            }
        } else if pk_type == SERVER_DISCONNECT {
            if len < 4 {
                return Err(EventError::Truncated);
            }
            let client_index: u32 = buf.read_u32();
            match buf.read_string() {
                Ok(reason) => Ok(ServerEvent::Disconnect { client_index, reason }),
                Err(_) => Err(EventError::MissingTerminator),
            }
        } else {
            Err(EventError::UnknownType)
        }
    }
}

} // verus!
