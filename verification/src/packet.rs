//! Framing of one datagram: a fixed header followed by the payload.
//!
//! | offset | field                     | size |
//! |--------|---------------------------|------|
//! | 0      | payload length            | 2    |
//! | 2      | message type tag          | 1    |
//! | 3      | timestamp                 | 4    |
//! | 7      | auth token or sequence no | 4    |
//! | 11     | payload                   | n    |
//!
//! The field at offset 7 is shared: packets travelling to the server carry the
//! sender's auth token in it, packets travelling to a client carry the sequence
//! number of a reliable message, or zero.

use crate::buffer::{patched, BitBuffer};
use crate::endian::{u16_from_le, u16_le_bytes, u32_from_le, u32_le_bytes};
use crate::text::{append_hex, decimal_string, decimal_text, hex_text};
use crate::unix_timestamp;
use vstd::string::StringExecFns;
use vstd::prelude::*;
use vstd::std_specs::convert::FromSpec;

verus! {

/// Number of bytes in front of the payload.
pub const PACKET_HEADER_SIZE: usize = 11;

/// Compression level handed to zstd: its documented default.
pub const COMPRESSION_LEVEL: i32 = 3;

/// Header offset of the payload length.
pub const LENGTH_OFFSET: usize = 0;

/// Header offset of the message type tag.
pub const TYPE_OFFSET: usize = 2;

/// Header offset of the timestamp.
pub const TIMESTAMP_OFFSET: usize = 3;

/// Header offset of the field shared by auth token and sequence number.
pub const SHARED_OFFSET: usize = 7;

/// Why bytes were not accepted as a packet, or a packet not turned into bytes.
#[derive(Debug, Clone, Copy, PartialEq, Eq, Structural)]
pub enum PacketError {
    /// Fewer bytes than a header.
    TooShort,
    /// The header declares a payload of zero bytes.
    EmptyPayload,
    /// The header declares more payload than the bytes hold.
    Truncated,
    /// The compressor failed: the bytes are not a compressed frame that
    /// expands within the allowed size, or no frame could be made of them.
    Malformed,
}

/// The eleven header bytes for the given field values.
pub open spec fn header_bytes(length: u16, packet_type: u8, timestamp: u32, shared: u32) -> Seq<
    u8,
> {
    u16_le_bytes(length) + seq![packet_type] + u32_le_bytes(timestamp) + u32_le_bytes(shared)
}

/// Payload length that the header of `bytes` declares.
pub open spec fn declared_len(bytes: Seq<u8>) -> u16 {
    u16_from_le(bytes.subrange(0, 2))
}

/// Message type tag in the header of `bytes`.
pub open spec fn type_of(bytes: Seq<u8>) -> u8 {
    bytes[2]
}

/// Timestamp in the header of `bytes`.
pub open spec fn timestamp_of(bytes: Seq<u8>) -> u32 {
    u32_from_le(bytes.subrange(3, 7))
}

/// The shared field in the header of `bytes`: auth token or sequence number.
pub open spec fn shared_of(bytes: Seq<u8>) -> u32 {
    u32_from_le(bytes.subrange(7, 11))
}

/// The low half of the shared field, where a sequence number is carried.
pub open spec fn sequence_of(bytes: Seq<u8>) -> u16 {
    u16_from_le(bytes.subrange(7, 9))
}

/// The first reason, if any, for which `bytes` are refused as a packet.
pub open spec fn packet_fault(bytes: Seq<u8>) -> Option<PacketError> {
    if bytes.len() < PACKET_HEADER_SIZE {
        Some(PacketError::TooShort)
    } else if declared_len(bytes) == 0 {
        Some(PacketError::EmptyPayload)
    } else if bytes.len() < PACKET_HEADER_SIZE + declared_len(bytes) {
        Some(PacketError::Truncated)
    } else {
        None
    }
}

/// `bytes` hold a header and all of the non-empty payload that it declares.
pub open spec fn valid_packet(bytes: Seq<u8>) -> bool {
    packet_fault(bytes) is None
}

/// The payload that the header of `bytes` declares.
pub open spec fn payload_of(bytes: Seq<u8>) -> Seq<u8> {
    bytes.subrange(PACKET_HEADER_SIZE as int, PACKET_HEADER_SIZE + declared_len(bytes))
}

/// The length field for a payload of `n` bytes: `n` reduced to sixteen bits.
pub open spec fn length_field(n: int) -> u16 {
    (n % 65536) as u16
}

proof fn lemma_low_half(v: u32)
    by (bit_vector)
    ensures
        v % 256 + 256 * (v / 256 % 256) == v % 65536,
{
}

/// The fields of a header can be read back from the bytes it starts.
pub proof fn lemma_header_fields(
    length: u16,
    packet_type: u8,
    timestamp: u32,
    shared: u32,
    payload: Seq<u8>,
)
    ensures
        header_bytes(length, packet_type, timestamp, shared).len() == PACKET_HEADER_SIZE,
        declared_len(header_bytes(length, packet_type, timestamp, shared) + payload) == length,
        type_of(header_bytes(length, packet_type, timestamp, shared) + payload) == packet_type,
        timestamp_of(header_bytes(length, packet_type, timestamp, shared) + payload) == timestamp,
        shared_of(header_bytes(length, packet_type, timestamp, shared) + payload) == shared,
        sequence_of(header_bytes(length, packet_type, timestamp, shared) + payload) == shared
            % 65536,
{
    let b = header_bytes(length, packet_type, timestamp, shared) + payload;
    assert(b.subrange(0, 2) =~= u16_le_bytes(length));
    assert(b.subrange(3, 7) =~= u32_le_bytes(timestamp));
    assert(b.subrange(7, 11) =~= u32_le_bytes(shared));
    assert(b.subrange(7, 9) =~= seq![(shared % 256) as u8, (shared / 256 % 256) as u8]);
    lemma_low_half(shared);
    crate::endian::lemma_u16_round_trip(length, Seq::<u8>::empty());
    assert(u16_le_bytes(length) + Seq::<u8>::empty() =~= u16_le_bytes(length));
    crate::endian::lemma_u32_round_trip(timestamp, Seq::<u8>::empty());
    assert(u32_le_bytes(timestamp) + Seq::<u8>::empty() =~= u32_le_bytes(timestamp));
    crate::endian::lemma_u32_round_trip(shared, Seq::<u8>::empty());
    assert(u32_le_bytes(shared) + Seq::<u8>::empty() =~= u32_le_bytes(shared));
}

/// A header in front of the payload it declares is a valid packet, and the
/// payload can be cut back out of it, whatever follows.
pub proof fn lemma_framed_payload(
    packet_type: u8,
    timestamp: u32,
    shared: u32,
    payload: Seq<u8>,
    rest: Seq<u8>,
)
    requires
        0 < payload.len() <= u16::MAX,
    ensures
        valid_packet(
            header_bytes(payload.len() as u16, packet_type, timestamp, shared) + payload + rest,
        ),
        payload_of(
            header_bytes(payload.len() as u16, packet_type, timestamp, shared) + payload + rest,
        ) == payload,
{
    let h = header_bytes(payload.len() as u16, packet_type, timestamp, shared);
    lemma_header_fields(payload.len() as u16, packet_type, timestamp, shared, payload + rest);
    assert(h + payload + rest =~= h + (payload + rest));
    assert(payload_of(h + payload + rest) =~= payload);
}

/// A payload that fits the length field, framed behind a header with that
/// length, is a valid packet from which tag and payload can be read back.
pub proof fn lemma_frame_round_trip(packet_type: u8, timestamp: u32, shared: u32, payload: Seq<u8>)
    requires
        0 < payload.len() <= u16::MAX,
    ensures
        packet_fault(
            header_bytes(length_field(payload.len() as int), packet_type, timestamp, shared)
                + payload,
        ) is None,
        type_of(
            header_bytes(length_field(payload.len() as int), packet_type, timestamp, shared)
                + payload,
        ) == packet_type,
        payload_of(
            header_bytes(length_field(payload.len() as int), packet_type, timestamp, shared)
                + payload,
        ) == payload,
{
    lemma_framed_payload(packet_type, timestamp, shared, payload, Seq::<u8>::empty());
    lemma_header_fields(payload.len() as u16, packet_type, timestamp, shared, payload);
    let h = header_bytes(payload.len() as u16, packet_type, timestamp, shared);
    assert(h + payload + Seq::<u8>::empty() =~= h + payload);
}

/// Storing at the end of a buffer appends.
pub proof fn lemma_patched_at_end(buf: Seq<u8>, data: Seq<u8>)
    ensures
        patched(buf, buf.len() as int, data) == buf + data,
{
    assert(patched(buf, buf.len() as int, data) =~= buf + data);
}

/// Storing a header field leaves a header with that field replaced.
pub proof fn lemma_patched_header(
    length: u16,
    packet_type: u8,
    timestamp: u32,
    shared: u32,
    payload: Seq<u8>,
    new_length: u16,
    new_timestamp: u32,
    new_shared: u32,
)
    ensures
        patched(
            header_bytes(length, packet_type, timestamp, shared) + payload,
            LENGTH_OFFSET as int,
            u16_le_bytes(new_length),
        ) == header_bytes(new_length, packet_type, timestamp, shared) + payload,
        patched(
            header_bytes(length, packet_type, timestamp, shared) + payload,
            TIMESTAMP_OFFSET as int,
            u32_le_bytes(new_timestamp),
        ) == header_bytes(length, packet_type, new_timestamp, shared) + payload,
        patched(
            header_bytes(length, packet_type, timestamp, shared) + payload,
            SHARED_OFFSET as int,
            u32_le_bytes(new_shared),
        ) == header_bytes(length, packet_type, timestamp, new_shared) + payload,
{
    let b = header_bytes(length, packet_type, timestamp, shared) + payload;
    assert(patched(b, LENGTH_OFFSET as int, u16_le_bytes(new_length)) =~= header_bytes(
        new_length,
        packet_type,
        timestamp,
        shared,
    ) + payload);
    assert(patched(b, TIMESTAMP_OFFSET as int, u32_le_bytes(new_timestamp)) =~= header_bytes(
        length,
        packet_type,
        new_timestamp,
        shared,
    ) + payload);
    assert(patched(b, SHARED_OFFSET as int, u32_le_bytes(new_shared)) =~= header_bytes(
        length,
        packet_type,
        timestamp,
        new_shared,
    ) + payload);
}

/// The frame that `zstd::bulk::compress` makes of `data` at `level`, or `None`
/// where it reports an error.
pub uninterp spec fn zstd_frame(data: Seq<u8>, level: i32) -> Option<Seq<u8>>;

/// What `zstd::bulk::decompress` expands `data` to when allowed `capacity`
/// bytes, or `None` where it reports an error.
pub uninterp spec fn zstd_expanded(data: Seq<u8>, capacity: usize) -> Option<Seq<u8>>;

/// `std::io::Error`, the error of the compressor, carried through unopened.
#[verifier::external_type_specification]
#[verifier::external_body]
pub struct ExIoError(std::io::Error);

/// Compresses `data` with `zstd::bulk::compress`. The contract names the
/// outcome; it claims nothing of what the frame holds.
#[verifier::external_body]
fn zstd_compress(data: &[u8], level: i32) -> (r: Result<Vec<u8>, std::io::Error>)
    ensures
        match r {
            Ok(frame) => zstd_frame(data@, level) == Some(frame@),
            Err(_) => zstd_frame(data@, level) is None,
        },
{
    zstd::bulk::compress(data, level)
}

/// Expands `data` with `zstd::bulk::decompress`. The contract names the
/// outcome; it claims nothing of what the expansion holds.
#[verifier::external_body]
fn zstd_decompress(data: &[u8], capacity: usize) -> (r: Result<Vec<u8>, std::io::Error>)
    ensures
        match r {
            Ok(bytes) => zstd_expanded(data@, capacity) == Some(bytes@),
            Err(_) => zstd_expanded(data@, capacity) is None,
        },
{
    zstd::bulk::decompress(data, capacity)
}

/// A packet under construction: the header is in place and the cursor stands
/// where the payload continues.
#[derive(Debug)]
pub struct PacketBuilder {
    buf: BitBuffer,
}

impl View for PacketBuilder {
    type V = Seq<u8>;

    /// Every byte written so far, header included.
    closed spec fn view(&self) -> Seq<u8> {
        self.buf@
    }
}

impl PacketBuilder {
    /// Position at which the next payload field is appended.
    pub closed spec fn cursor(&self) -> int {
        self.buf.cursor()
    }

    /// A builder for a message of type `packet_type`, stamped with the current
    /// time. The shared field is zero, the length field is a placeholder, and
    /// the payload is empty.
    pub fn new(packet_type: u8) -> (r: Self)
        ensures
            r@ == header_bytes(u16::MAX, packet_type, timestamp_of(r@), 0),
            r.cursor() == PACKET_HEADER_SIZE,
    {
        let timestamp: u32 = unix_timestamp();
        proof {
            lemma_header_fields(u16::MAX, packet_type, timestamp, 0, Seq::<u8>::empty());
            let h = header_bytes(u16::MAX, packet_type, timestamp, 0);
            assert(h + Seq::<u8>::empty() =~= h);
        }
        Self::with_stamp(packet_type, timestamp)
    }

    /// A builder for a message of type `packet_type` stamped with `timestamp`.
    pub fn with_stamp(packet_type: u8, timestamp: u32) -> (r: Self)
        ensures
            r@ == header_bytes(u16::MAX, packet_type, timestamp, 0),
            r.cursor() == PACKET_HEADER_SIZE,
    {
        let buf = BitBuffer::with_capacity(TYPE_OFFSET);
        let mut builder = Self { buf }.with_length(u16::MAX).with_type(packet_type).with_timestamp(
            timestamp,
        ).with_auth_id(0);
        let _ = builder.buf.set_offset_pos(PACKET_HEADER_SIZE);
        assert(builder@ =~= header_bytes(u16::MAX, packet_type, timestamp, 0));
        builder
    }

    fn with_type(self, pk_type: u8) -> (r: Self)
        ensures
            r@ == patched(self@, TYPE_OFFSET as int, seq![pk_type]),
            r.cursor() == self.cursor(),
    {
        let mut builder = self;
        builder.buf.write_u8_at(TYPE_OFFSET, pk_type);
        builder
    }

    fn with_length(self, len: u16) -> (r: Self)
        ensures
            r@ == patched(self@, LENGTH_OFFSET as int, u16_le_bytes(len)),
            r.cursor() == self.cursor(),
    {
        let mut builder = self;
        builder.buf.write_u16_at(LENGTH_OFFSET, len);
        builder
    }

    /// Stores the sender's auth token in the shared field.
    pub fn with_auth_id(self, auth_id: u32) -> (r: Self)
        ensures
            r@ == patched(self@, SHARED_OFFSET as int, u32_le_bytes(auth_id)),
            r.cursor() == self.cursor(),
    {
        let mut builder = self;
        builder.buf.write_u32_at(SHARED_OFFSET, auth_id);
        builder
    }

    /// Stores a sequence number in the shared field, widened to its four bytes.
    pub fn with_sequence_number(self, seq_num: u16) -> (r: Self)
        ensures
            r@ == patched(self@, SHARED_OFFSET as int, u32_le_bytes(seq_num as u32)),
            r.cursor() == self.cursor(),
    {
        let mut builder = self;
        builder.buf.write_u32_at(SHARED_OFFSET, seq_num as u32);
        builder
    }

    /// Replaces the timestamp in the header.
    pub fn with_timestamp(self, timestamp: u32) -> (r: Self)
        ensures
            r@ == patched(self@, TIMESTAMP_OFFSET as int, u32_le_bytes(timestamp)),
            r.cursor() == self.cursor(),
    {
        let mut builder = self;
        builder.buf.write_u32_at(TIMESTAMP_OFFSET, timestamp);
        builder
    }

    /// The buffer behind the builder, for appending payload fields.
    pub fn buf_mut(&mut self) -> (r: &mut BitBuffer)
        ensures
            r@ == old(self)@,
            r.cursor() == old(self).cursor(),
            final(self)@ == final(r)@,
            final(self).cursor() == final(r).cursor(),
    {
        &mut self.buf
    }

    /// Closes the packet: the length field receives the number of bytes that
    /// follow the header.
    pub fn finalize(self) -> (r: Packet)
        requires
            self@.len() >= PACKET_HEADER_SIZE,
        ensures
            r@ == patched(
                self@,
                LENGTH_OFFSET as int,
                u16_le_bytes(length_field(self@.len() - PACKET_HEADER_SIZE)),
            ),
            r.cursor() == self.cursor(),
    {
        let len: usize = self.buf.len() - PACKET_HEADER_SIZE;
        let closed = self.with_length((len % 65536) as u16);
        Packet::new(closed.buf)
    }
}

/// The bytes of one datagram, header first.
#[derive(Debug)]
pub struct Packet {
    buf: BitBuffer,
}

impl View for Packet {
    type V = Seq<u8>;

    /// Every byte of the packet, header included.
    closed spec fn view(&self) -> Seq<u8> {
        self.buf@
    }
}

impl Packet {
    /// End of the written prefix of the underlying buffer.
    pub closed spec fn cursor(&self) -> int {
        self.buf.cursor()
    }

    /// A packet over `buf`, taken as it is.
    pub fn new(buf: BitBuffer) -> (r: Self)
        ensures
            r@ == buf@,
            r.cursor() == buf.cursor(),
    {
        Self { buf }
    }

    /// Accepts `bytes` as a packet where they hold a header and the non-empty
    /// payload that it declares, and names the fault otherwise.
    pub fn try_from(bytes: Vec<u8>) -> (r: Result<Self, PacketError>)
        ensures
            match packet_fault(bytes@) {
                Some(fault) => r == Err::<Self, PacketError>(fault),
                None => r is Ok && r->Ok_0@ == bytes@ && r->Ok_0.cursor() == 0,
            },
    {
        let buf: BitBuffer = BitBuffer::from(bytes);
        if buf.len() < PACKET_HEADER_SIZE {
            return Err(PacketError::TooShort);
        }
        let pk = Self { buf };
        let py_len: u16 = pk.payload_len();
        if py_len == 0 {
            return Err(PacketError::EmptyPayload);
        }
        if pk.buf.len() - PACKET_HEADER_SIZE < py_len as usize {
            return Err(PacketError::Truncated);
        }
        Ok(pk)
    }

    /// What becomes of received bytes once expanded: a packet where the
    /// expansion is one, the fault otherwise.
    pub fn from_expanded(expanded: Result<Vec<u8>, std::io::Error>) -> (r: Result<
        Self,
        PacketError,
    >)
        ensures
            match expanded {
                Ok(bytes) => match packet_fault(bytes@) {
                    Some(fault) => r == Err::<Self, PacketError>(fault),
                    None => r is Ok && r->Ok_0@ == bytes@ && r->Ok_0.cursor() == 0,
                },
                Err(_) => r == Err::<Self, PacketError>(PacketError::Malformed),
            },
    {
        match expanded {
            Ok(bytes) => Self::try_from(bytes),
            Err(_) => Err(PacketError::Malformed),
        }
    }

    /// Expands a received datagram, allowing twice its size, and accepts the
    /// result as a packet.
    pub fn try_decompress_from_slice(slice: &[u8]) -> (r: Result<Self, PacketError>)
        requires
            slice@.len() * 2 <= usize::MAX,
        ensures
            match zstd_expanded(slice@, (slice@.len() * 2) as usize) {
                Some(bytes) => match packet_fault(bytes) {
                    Some(fault) => r == Err::<Self, PacketError>(fault),
                    None => r is Ok && r->Ok_0@ == bytes && r->Ok_0.cursor() == 0,
                },
                None => r == Err::<Self, PacketError>(PacketError::Malformed),
            },
    {
        Self::from_expanded(zstd_decompress(slice, slice.len() * 2))
    }

    /// Payload length that the header declares.
    pub fn payload_len(&self) -> (n: u16)
        requires
            self@.len() >= PACKET_HEADER_SIZE,
        ensures
            n == declared_len(self@),
    {
        self.buf.peek_u16_at(LENGTH_OFFSET)
    }

    /// Number of bytes in the underlying buffer, reduced to 32 bits.
    pub fn buf_len(&self) -> (n: u32)
        ensures
            n == self@.len() % 4294967296,
    {
        (self.buf.len() as u64 % 4294967296u64) as u32
    }

    /// Message type tag in the header.
    pub fn packet_type(&self) -> (t: u8)
        requires
            self@.len() >= PACKET_HEADER_SIZE,
        ensures
            t == type_of(self@),
    {
        self.buf.peek_u8_at(TYPE_OFFSET)
    }

    /// Timestamp in the header.
    pub fn timestamp(&self) -> (t: u32)
        requires
            self@.len() >= PACKET_HEADER_SIZE,
        ensures
            t == timestamp_of(self@),
    {
        self.buf.peek_u32_at(TIMESTAMP_OFFSET)
    }

    /// Sequence number carried in the shared field; zero on a packet that asks
    /// for no acknowledgment.
    pub fn sequence_number(&self) -> (n: u16)
        requires
            self@.len() >= PACKET_HEADER_SIZE,
        ensures
            n == sequence_of(self@),
    {
        self.buf.peek_u16_at(SHARED_OFFSET)
    }

    /// Auth token carried in the shared field; zero on a login.
    pub fn auth_id(&self) -> (id: u32)
        requires
            self@.len() >= PACKET_HEADER_SIZE,
        ensures
            id == shared_of(self@),
    {
        self.buf.peek_u32_at(SHARED_OFFSET)
    }

    /// The buffer behind the packet, for changing it in place.
    pub fn buf_mut(&mut self) -> (r: &mut BitBuffer)
        ensures
            r@ == old(self)@,
            r.cursor() == old(self).cursor(),
            final(self)@ == final(r)@,
            final(self).cursor() == final(r).cursor(),
    {
        &mut self.buf
    }

    /// The buffer behind the packet.
    pub fn buf(&self) -> (r: &BitBuffer)
        ensures
            r@ == self@,
            r.cursor() == self.cursor(),
    {
        &self.buf
    }

    /// The written prefix of the underlying buffer: what is put on the wire.
    pub fn as_slice(&self) -> (r: &[u8])
        requires
            self.cursor() <= self@.len(),
        ensures
            r@ == self@.subrange(0, self.cursor()),
    {
        self.buf.as_bytes()
    }

    /// A detached copy of the payload that the header declares.
    pub fn payload_buf(&self) -> (r: BitBuffer)
        requires
            self@.len() >= PACKET_HEADER_SIZE + declared_len(self@),
        ensures
            r@ == payload_of(self@),
            r.cursor() == 0,
    {
        let start: usize = PACKET_HEADER_SIZE;
        let end: usize = start + self.payload_len() as usize;
        self.buf.slice(start, end)
    }

    /// The packet as text: the length of its buffer in brackets, then `0x`,
    /// the header in base sixteen, a space, and the declared payload in base
    /// sixteen.
    pub fn as_hex_str(&self) -> (s: String)
        requires
            self@.len() >= PACKET_HEADER_SIZE + declared_len(self@),
        ensures
            s@ == seq!['['] + decimal_text((self@.len() % 4294967296) as nat) + seq![
                ']',
                '0',
                'x',
            ] + hex_text(self@.subrange(0, PACKET_HEADER_SIZE as int)) + seq![' '] + hex_text(
                payload_of(self@),
            ),
    {
        proof {
            reveal_strlit("[");
            reveal_strlit("]0x");
            reveal_strlit(" ");
        }
        let header_buf = self.buf.slice(0, PACKET_HEADER_SIZE);
        let payload_buf = self.payload_buf();
        let mut s = String::from_str("[");
        s.append(decimal_string(self.buf_len() as usize).as_str());
        s.append("]0x");
        append_hex(&mut s, header_buf.get_vec_slice(0, PACKET_HEADER_SIZE));
        s.append(" ");
        let ghost head = seq!['['] + decimal_text((self@.len() % 4294967296) as nat) + seq![
            ']',
            '0',
            'x',
        ] + hex_text(self@.subrange(0, PACKET_HEADER_SIZE as int)) + seq![' '];
        assert(header_buf@.subrange(0, PACKET_HEADER_SIZE as int) =~= header_buf@);
        assert(s@ =~= head);
        let n: usize = payload_buf.len();
        append_hex(&mut s, payload_buf.get_vec_slice(0, n));
        assert(payload_buf@.subrange(0, n as int) =~= payload_buf@);
        s
    }

    /// What becomes of a compressor's outcome: its frame, or the failure.
    pub fn from_compressed(compressed: Result<Vec<u8>, std::io::Error>) -> (r: Result<
        Vec<u8>,
        PacketError,
    >)
        ensures
            match compressed {
                Ok(frame) => r is Ok && r->Ok_0@ == frame@,
                Err(_) => r == Err::<Vec<u8>, PacketError>(PacketError::Malformed),
            },
    {
        match compressed {
            Ok(frame) => Ok(frame),
            Err(_) => Err(PacketError::Malformed),
        }
    }

    /// The written prefix, compressed for the wire.
    pub fn compress(&self) -> (r: Result<Vec<u8>, PacketError>)
        requires
            self.cursor() <= self@.len(),
        ensures
            match zstd_frame(self@.subrange(0, self.cursor()), COMPRESSION_LEVEL) {
                Some(frame) => r is Ok && r->Ok_0@ == frame,
                None => r == Err::<Vec<u8>, PacketError>(PacketError::Malformed),
            },
    {
        Self::from_compressed(zstd_compress(self.buf.as_bytes(), COMPRESSION_LEVEL))
    }
}

impl From<Vec<u8>> for Packet {
    /// A packet over `vec`, taken as it is.
    fn from(vec: Vec<u8>) -> (r: Self)
        ensures
            r@ == vec@,
            r.cursor() == 0,
    {
        Packet { buf: BitBuffer::from(vec) }
    }
}

impl vstd::std_specs::convert::FromSpecImpl<Vec<u8>> for Packet {
    open spec fn obeys_from_spec() -> bool {
        true
    }

    closed spec fn from_spec(vec: Vec<u8>) -> Self {
        Packet { buf: <BitBuffer as FromSpec<Vec<u8>>>::from_spec(vec) }
    }
}

impl Clone for Packet {
    /// A copy with the same bytes and the same cursor.
    fn clone(&self) -> (r: Self)
        ensures
            r@ == self@,
            r.cursor() == self.cursor(),
    {
        Packet { buf: self.buf.clone() }
    }
}

} // verus!
