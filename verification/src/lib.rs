//! Session-oriented messaging for an authoritative game server over datagrams:
//! byte-level framing, the message protocol, acknowledged delivery, the session
//! table and the decisions of the server's tick loop.

pub mod action;
pub mod buffer;
pub mod client;
pub mod cmds;
pub mod def;
pub mod endian;
pub mod events_client;
pub mod events_server;
pub mod game;
pub mod netstat;
pub mod network;
pub mod outbound;
pub mod packet;
pub mod server;
pub mod session;
pub mod text;
pub mod transport;

use crate::packet::{
    header_bytes, length_field, timestamp_of, Packet, PacketBuilder, PACKET_HEADER_SIZE,
};
use vstd::prelude::*;

verus! {

/// Why a packet was not understood as a message.
#[derive(Debug, Clone, Copy, PartialEq, Eq, Structural)]
pub enum EventError {
    /// The type tag names no message of this direction.
    UnknownType,
    /// The payload ends before the message's fixed fields do.
    Truncated,
    /// No zero byte ends a string of the message.
    MissingTerminator,
}

/// A message that can be put into a packet and read back from one.
pub trait PacketSerialize: Sized {
    /// The type tag of the message.
    spec fn wire_tag(&self) -> u8;

    /// The payload bytes of the message.
    spec fn wire_payload(&self) -> Seq<u8>;

    /// Whether `r` is what the packet bytes `bytes` are read as.
    spec fn read_as(bytes: Seq<u8>, r: Result<Self, EventError>) -> bool;

    /// A builder holding the message: a header stamped with the current time,
    /// a zero shared field, then the payload.
    fn to_packet_builder(&self) -> (b: PacketBuilder)
        requires
            PACKET_HEADER_SIZE + self.wire_payload().len() <= usize::MAX,
        ensures
            b@ == header_bytes(u16::MAX, self.wire_tag(), timestamp_of(b@), 0)
                + self.wire_payload(),
            b.cursor() == b@.len(),
    ;

    /// The message as a closed packet.
    fn to_packet(&self) -> (p: Packet)
        requires
            PACKET_HEADER_SIZE + self.wire_payload().len() <= usize::MAX,
        ensures
            p@ == header_bytes(
                length_field(self.wire_payload().len() as int),
                self.wire_tag(),
                timestamp_of(p@),
                0,
            ) + self.wire_payload(),
            p.cursor() == p@.len(),
    {
        let builder = self.to_packet_builder();
        proof {
            let ts = timestamp_of(builder@);
            let n = length_field(self.wire_payload().len() as int);
            crate::packet::lemma_patched_header(
                u16::MAX,
                self.wire_tag(),
                ts,
                0,
                self.wire_payload(),
                n,
                ts,
                0,
            );
            crate::packet::lemma_header_fields(n, self.wire_tag(), ts, 0, self.wire_payload());
            crate::packet::lemma_header_fields(
                u16::MAX,
                self.wire_tag(),
                ts,
                0,
                self.wire_payload(),
            );
        }
        builder.finalize()
    }

    /// The message that `packet` carries.
    fn from_packet(packet: &Packet) -> (r: Result<Self, EventError>)
        requires
            packet@.len() >= PACKET_HEADER_SIZE + crate::packet::declared_len(packet@),
        ensures
            Self::read_as(packet@, r),
    ;
}

/// Protocol revision spoken by this library; a login carrying any other value is refused.
pub const PACKET_PROTOCOL_VERSION: u32 = 0;

/// Milliseconds after which an unacknowledged reliable message is sent again.
pub const ACK_TIMEOUT_REPLY: u64 = 50;

/// Seconds since the Unix epoch, reduced to 32 bits, read from
/// `std::time::SystemTime::now`. Nothing is claimed of the value: it is
/// whatever the system clock says.
#[verifier::external_body]
pub fn unix_timestamp() -> u32 {
    std::time::SystemTime::now().duration_since(std::time::UNIX_EPOCH).unwrap().as_secs() as u32
}

} // verus!
