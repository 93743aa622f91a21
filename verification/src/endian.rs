//! Little-endian layout of the fixed-width integers carried on the wire.
//!
//! The layout is stated with plain arithmetic so that callers can reason about
//! individual bytes without bit-vector proofs.

use byteorder::{LittleEndian, ReadBytesExt};
use vstd::prelude::*;

verus! {

/// The two bytes of `v`, least significant first.
pub open spec fn u16_le_bytes(v: u16) -> Seq<u8> {
    seq![(v % 256) as u8, (v / 256) as u8]
}

/// The value whose little-endian layout starts `b`.
pub open spec fn u16_from_le(b: Seq<u8>) -> u16
    recommends
        b.len() >= 2,
{
    (b[0] + 256 * b[1]) as u16
}

/// The four bytes of `v`, least significant first.
pub open spec fn u32_le_bytes(v: u32) -> Seq<u8> {
    seq![
        (v % 256) as u8,
        (v / 256 % 256) as u8,
        (v / 65536 % 256) as u8,
        (v / 16777216) as u8,
    ]
}

/// The value whose little-endian layout starts `b`.
pub open spec fn u32_from_le(b: Seq<u8>) -> u32
    recommends
        b.len() >= 4,
{
    (b[0] + 256 * b[1] + 65536 * b[2] + 16777216 * b[3]) as u32
}

/// Two's-complement pattern of a signed byte.
pub open spec fn i8_bits(v: i8) -> u8 {
    if v >= 0 {
        v as u8
    } else {
        (v + 256) as u8
    }
}

/// The signed byte with two's-complement pattern `b`.
pub open spec fn i8_from_bits(b: u8) -> i8 {
    if b < 128 {
        b as i8
    } else {
        (b - 256) as i8
    }
}

/// Two's-complement pattern of a signed 16-bit value.
pub open spec fn i16_bits(v: i16) -> u16 {
    if v >= 0 {
        v as u16
    } else {
        (v + 65536) as u16
    }
}

/// The signed 16-bit value with two's-complement pattern `b`.
pub open spec fn i16_from_bits(b: u16) -> i16 {
    if b < 32768 {
        b as i16
    } else {
        (b - 65536) as i16
    }
}

/// Two's-complement pattern of a signed 32-bit value.
pub open spec fn i32_bits(v: i32) -> u32 {
    if v >= 0 {
        v as u32
    } else {
        (v + 4294967296) as u32
    }
}

/// The signed 32-bit value with two's-complement pattern `b`.
pub open spec fn i32_from_bits(b: u32) -> i32 {
    if b < 2147483648 {
        b as i32
    } else {
        (b - 4294967296) as i32
    }
}

proof fn lemma_u16_split(v: u16)
    by (bit_vector)
    ensures
        v % 256 + 256 * (v / 256) == v,
        v / 256 < 256,
{
}

proof fn lemma_u16_join(b0: u8, b1: u8)
    by (bit_vector)
    ensures
        b0 as u16 + 256 * (b1 as u16) < 65536,
        (b0 as u16 + 256 * (b1 as u16)) % 256 == b0,
        (b0 as u16 + 256 * (b1 as u16)) / 256 == b1,
{
}

proof fn lemma_u32_split(v: u32)
    by (bit_vector)
    ensures
        v % 256 + 256 * (v / 256 % 256) + 65536 * (v / 65536 % 256) + 16777216 * (v / 16777216)
            == v,
        v / 16777216 < 256,
{
}

proof fn lemma_u32_join(b0: u8, b1: u8, b2: u8, b3: u8)
    by (bit_vector)
    ensures
        b0 as u32 + 256 * (b1 as u32) + 65536 * (b2 as u32) + 16777216 * (b3 as u32)
            < 4294967296,
        (b0 as u32 + 256 * (b1 as u32) + 65536 * (b2 as u32) + 16777216 * (b3 as u32)) % 256
            == b0,
        (b0 as u32 + 256 * (b1 as u32) + 65536 * (b2 as u32) + 16777216 * (b3 as u32)) / 256
            % 256 == b1,
        (b0 as u32 + 256 * (b1 as u32) + 65536 * (b2 as u32) + 16777216 * (b3 as u32)) / 65536
            % 256 == b2,
        (b0 as u32 + 256 * (b1 as u32) + 65536 * (b2 as u32) + 16777216 * (b3 as u32))
            / 16777216 == b3,
{
}

/// Reading back the layout of a 16-bit value yields the value, whatever follows it.
pub proof fn lemma_u16_round_trip(v: u16, rest: Seq<u8>)
    ensures
        u16_le_bytes(v).len() == 2,
        u16_from_le(u16_le_bytes(v) + rest) == v,
{
    let b = u16_le_bytes(v) + rest;
    lemma_u16_split(v);
    assert(b[0] == (v % 256) as u8);
    assert(b[1] == (v / 256) as u8);
}

/// Laying out the value read from two bytes yields those bytes.
pub proof fn lemma_u16_bytes_of_read(b: Seq<u8>)
    requires
        b.len() == 2,
    ensures
        u16_le_bytes(u16_from_le(b)) == b,
{
    lemma_u16_join(b[0], b[1]);
    assert(u16_le_bytes(u16_from_le(b)) =~= b);
}

/// Reading back the layout of a 32-bit value yields the value, whatever follows it.
pub proof fn lemma_u32_round_trip(v: u32, rest: Seq<u8>)
    ensures
        u32_le_bytes(v).len() == 4,
        u32_from_le(u32_le_bytes(v) + rest) == v,
{
    let b = u32_le_bytes(v) + rest;
    lemma_u32_split(v);
    assert(b[0] == (v % 256) as u8);
    assert(b[1] == (v / 256 % 256) as u8);
    assert(b[2] == (v / 65536 % 256) as u8);
    assert(b[3] == (v / 16777216) as u8);
}

/// Laying out the value read from four bytes yields those bytes.
pub proof fn lemma_u32_bytes_of_read(b: Seq<u8>)
    requires
        b.len() == 4,
    ensures
        u32_le_bytes(u32_from_le(b)) == b,
{
    lemma_u32_join(b[0], b[1], b[2], b[3]);
    assert(u32_le_bytes(u32_from_le(b)) =~= b);
}

/// A signed byte is the one with its two's-complement pattern.
pub proof fn lemma_i8_round_trip(v: i8)
    ensures
        i8_from_bits(i8_bits(v)) == v,
{
}

/// A signed 16-bit value is the one with its two's-complement pattern.
pub proof fn lemma_i16_round_trip(v: i16)
    ensures
        i16_from_bits(i16_bits(v)) == v,
{
}

/// A signed 32-bit value is the one with its two's-complement pattern.
pub proof fn lemma_i32_round_trip(v: i32)
    ensures
        i32_from_bits(i32_bits(v)) == v,
{
}

/// Reads one byte at `offset` with `byteorder::ReadBytesExt::read_u8` on a cursor
/// over `bytes`. The contract claims that the byte at that position comes back.
#[verifier::external_body]
pub(crate) fn cursor_read_u8(bytes: &Vec<u8>, offset: usize) -> (v: u8)
    requires
        offset + 1 <= bytes@.len(),
    ensures
        v == bytes@[offset as int],
{
    let mut cursor = std::io::Cursor::new(bytes);
    cursor.set_position(offset as u64);
    cursor.read_u8().unwrap()
}

/// Reads one byte at `offset` with `byteorder::ReadBytesExt::read_i8` on a cursor
/// over `bytes`. The contract claims that the byte at that position comes back,
/// taken as a two's-complement value.
#[verifier::external_body]
pub(crate) fn cursor_read_i8(bytes: &Vec<u8>, offset: usize) -> (v: i8)
    requires
        offset + 1 <= bytes@.len(),
    ensures
        v == i8_from_bits(bytes@[offset as int]),
{
    let mut cursor = std::io::Cursor::new(bytes);
    cursor.set_position(offset as u64);
    cursor.read_i8().unwrap()
}

/// Reads two bytes at `offset` with `byteorder::ReadBytesExt::read_u16::<LittleEndian>`
/// on a cursor over `bytes`. The contract claims that they are combined least
/// significant byte first.
#[verifier::external_body]
pub(crate) fn cursor_read_u16(bytes: &Vec<u8>, offset: usize) -> (v: u16)
    requires
        offset + 2 <= bytes@.len(),
    ensures
        v == u16_from_le(bytes@.subrange(offset as int, offset + 2)),
{
    let mut cursor = std::io::Cursor::new(bytes);
    cursor.set_position(offset as u64);
    cursor.read_u16::<LittleEndian>().unwrap()
}

/// Reads two bytes at `offset` with `byteorder::ReadBytesExt::read_i16::<LittleEndian>`
/// on a cursor over `bytes`. The contract claims that they are combined least
/// significant byte first and taken as a two's-complement value.
#[verifier::external_body]
pub(crate) fn cursor_read_i16(bytes: &Vec<u8>, offset: usize) -> (v: i16)
    requires
        offset + 2 <= bytes@.len(),
    ensures
        v == i16_from_bits(u16_from_le(bytes@.subrange(offset as int, offset + 2))),
{
    let mut cursor = std::io::Cursor::new(bytes);
    cursor.set_position(offset as u64);
    cursor.read_i16::<LittleEndian>().unwrap()
}

/// Reads four bytes at `offset` with `byteorder::ReadBytesExt::read_u32::<LittleEndian>`
/// on a cursor over `bytes`. The contract claims that they are combined least
/// significant byte first.
#[verifier::external_body]
pub(crate) fn cursor_read_u32(bytes: &Vec<u8>, offset: usize) -> (v: u32)
    requires
        offset + 4 <= bytes@.len(),
    ensures
        v == u32_from_le(bytes@.subrange(offset as int, offset + 4)),
{
    let mut cursor = std::io::Cursor::new(bytes);
    cursor.set_position(offset as u64);
    cursor.read_u32::<LittleEndian>().unwrap()
}

/// Reads four bytes at `offset` with `byteorder::ReadBytesExt::read_i32::<LittleEndian>`
/// on a cursor over `bytes`. The contract claims that they are combined least
/// significant byte first and taken as a two's-complement value.
#[verifier::external_body]
pub(crate) fn cursor_read_i32(bytes: &Vec<u8>, offset: usize) -> (v: i32)
    requires
        offset + 4 <= bytes@.len(),
    ensures
        v == i32_from_bits(u32_from_le(bytes@.subrange(offset as int, offset + 4))),
{
    let mut cursor = std::io::Cursor::new(bytes);
    cursor.set_position(offset as u64);
    cursor.read_i32::<LittleEndian>().unwrap()
}

} // verus!
