//! A growable byte buffer with a sequential cursor and explicit-offset access.
//!
//! All multi-byte values are little-endian. Writes past the end grow the buffer and
//! fill the gap with zeros; reads are only defined inside the buffer.

use crate::endian::{
    cursor_read_i16, cursor_read_i32, cursor_read_i8, cursor_read_u16, cursor_read_u32,
    cursor_read_u8, i16_bits, i16_from_bits, i32_bits, i32_from_bits, i8_bits, i8_from_bits,
    u16_from_le, u16_le_bytes, u32_from_le, u32_le_bytes,
};
use crate::text::{
    append_hex, decimal_list, decimal_string, decimal_text, hex_text, lossy_text, string_bytes,
    text_from_bytes,
};
use vstd::prelude::*;
use vstd::string::StringExecFns;
use vstd::utf8::encode_utf8;

verus! {

/// `buf`, padded with zeros up to `len` bytes where it is shorter.
pub open spec fn zero_extended(buf: Seq<u8>, len: int) -> Seq<u8> {
    if len <= buf.len() {
        buf
    } else {
        Seq::new(len as nat, |i: int| if i < buf.len() { buf[i] } else { 0u8 })
    }
}

/// `buf` after `data` has been stored at `offset`: bytes under `data` are
/// replaced, the buffer grows where `data` reaches past its end, and any gap
/// between the old end and `offset` holds zeros.
pub open spec fn patched(buf: Seq<u8>, offset: int, data: Seq<u8>) -> Seq<u8> {
    Seq::new(
        if offset + data.len() <= buf.len() { buf.len() } else { (offset + data.len()) as nat },
        |i: int|
            if offset <= i < offset + data.len() {
                data[i - offset]
            } else if i < buf.len() {
                buf[i]
            } else {
                0u8
            },
    )
}

/// The bytes of `values` in order, each value least significant byte first.
pub open spec fn u32s_le_bytes(values: Seq<u32>) -> Seq<u8>
    decreases values.len(),
{
    if values.len() == 0 {
        Seq::empty()
    } else {
        u32s_le_bytes(values.drop_last()) + u32_le_bytes(values.last())
    }
}

/// Every value takes four bytes.
pub proof fn lemma_u32s_le_bytes_len(values: Seq<u32>)
    ensures
        u32s_le_bytes(values).len() == 4 * values.len(),
    decreases values.len(),
{
    if values.len() > 0 {
        lemma_u32s_le_bytes_len(values.drop_last());
    }
}

/// Storing `second` right behind `first` is storing both at once.
pub proof fn lemma_patched_twice(buf: Seq<u8>, offset: int, first: Seq<u8>, second: Seq<u8>)
    requires
        0 <= offset,
    ensures
        patched(patched(buf, offset, first), offset + first.len(), second) == patched(
            buf,
            offset,
            first + second,
        ),
{
    assert(patched(patched(buf, offset, first), offset + first.len(), second) =~= patched(
        buf,
        offset,
        first + second,
    ));
}

/// Position of the first zero byte of `bytes` at or after `from`, if there is one.
pub open spec fn first_zero(bytes: Seq<u8>, from: int) -> Option<int>
    decreases bytes.len() - from,
{
    if from < 0 || from >= bytes.len() {
        None
    } else if bytes[from] == 0 {
        Some(from)
    } else {
        first_zero(bytes, from + 1)
    }
}

/// What `first_zero` finds: a zero byte with none before it, or no zero byte at all.
pub proof fn lemma_first_zero(bytes: Seq<u8>, from: int)
    requires
        0 <= from <= bytes.len(),
    ensures
        match first_zero(bytes, from) {
            Some(end) => from <= end < bytes.len() && bytes[end] == 0 && forall|i: int|
                from <= i < end ==> bytes[i] != 0,
            None => forall|i: int| from <= i < bytes.len() ==> bytes[i] != 0,
        },
    decreases bytes.len() - from,
{
    if from < bytes.len() && bytes[from] != 0 {
        lemma_first_zero(bytes, from + 1);
    }
}

/// A zero byte with none before it is what `first_zero` finds.
pub proof fn lemma_first_zero_at(bytes: Seq<u8>, from: int, end: int)
    requires
        0 <= from <= end < bytes.len(),
        bytes[end] == 0,
        forall|i: int| from <= i < end ==> bytes[i] != 0,
    ensures
        first_zero(bytes, from) == Some(end),
    decreases end - from,
{
    if from < end {
        lemma_first_zero_at(bytes, from + 1, end);
    }
}

/// Why a buffer operation was refused.
#[derive(Debug, Clone, Copy, PartialEq, Eq, Structural)]
pub enum BufferError {
    /// The requested cursor position lies beyond the storage the buffer has reserved.
    OffsetOutOfRange,
    /// No zero byte ends the string that was asked for.
    MissingTerminator,
}

/// A byte buffer that grows as it is written, with a cursor for sequential
/// access. The cursor may stand anywhere in the reserved storage.
#[derive(Debug)]
pub struct BitBuffer {
    current_offset: usize,
    vec: Vec<u8>,
    /// Number of bytes for which storage was asked when the buffer was made.
    room: usize,
}

impl View for BitBuffer {
    type V = Seq<u8>;

    /// Every byte the buffer holds, written or zero-filled.
    closed spec fn view(&self) -> Seq<u8> {
        self.vec@
    }
}

/// Storage reserved by `v`, read with `Vec::capacity`. The contract claims only
/// what std documents of every vector: the capacity is never below the length.
#[verifier::external_body]
fn reserved(v: &Vec<u8>) -> (n: usize)
    ensures
        n >= v@.len(),
{
    v.capacity()
}

impl BitBuffer {
    /// Position at which the next sequential read or write takes place.
    pub closed spec fn cursor(&self) -> int {
        self.current_offset as int
    }

    /// Number of bytes for which the buffer is known to have storage reserved,
    /// whatever it holds: what was asked for when it was made.
    pub closed spec fn room(&self) -> nat {
        self.room as nat
    }

    /// An empty buffer with room reserved for `capacity` bytes and the cursor at 0.
    pub fn with_capacity(capacity: usize) -> (r: Self)
        ensures
            r@ == Seq::<u8>::empty(),
            r.cursor() == 0,
            r.room() == capacity,
    {
        let vec: Vec<u8> = Vec::with_capacity(capacity);
        Self { current_offset: 0, vec, room: capacity }
    }

    /// The written prefix: the bytes before the cursor.
    pub fn as_bytes(&self) -> (r: &[u8])
        requires
            self.cursor() <= self@.len(),
        ensures
            r@ == self@.subrange(0, self.cursor()),
    {
        &self.vec.as_slice()[0..self.current_offset]
    }

    /// Moves the cursor to `offset`. A position inside the buffer, or inside
    /// the room it was made with, is always accepted; one beyond the reserved
    /// storage is refused and changes nothing.
    pub fn set_offset_pos(&mut self, offset: usize) -> (r: Result<(), BufferError>)
        ensures
            final(self)@ == old(self)@,
            final(self).room() == old(self).room(),
            offset <= old(self)@.len() || offset <= old(self).room() ==> r is Ok,
            r is Ok ==> final(self).cursor() == offset,
            r is Err ==> r == Err::<(), BufferError>(BufferError::OffsetOutOfRange)
                && final(self).cursor() == old(self).cursor(),
    {
        if offset > self.max_size() {
            return Err(BufferError::OffsetOutOfRange);
        }
        self.current_offset = offset;
        Ok(())
    }

    /// Grows the buffer with zeros so that `len` bytes at `offset` lie inside it.
    fn try_expand(&mut self, offset: usize, len: usize)
        requires
            offset + len <= usize::MAX,
        ensures
            final(self)@ == zero_extended(old(self)@, offset + len),
            final(self).room() == old(self).room(),
            final(self).cursor() == old(self).cursor(),
    {
        if offset + len > self.vec.len() {
            let ghost before = self.vec@;
            self.vec.resize(offset + len, 0);
            assert(self.vec@ =~= zero_extended(before, offset + len)) by {
                assert(self.vec@.subrange(0, before.len() as int) == before);
                assert forall|i: int| 0 <= i < before.len() implies self.vec@[i] == before[i] by {
                    assert(self.vec@.subrange(0, before.len() as int)[i] == self.vec@[i]);
                }
            }
        }
    }

    /// Stores `value` at `offset`, which must lie inside the buffer.
    pub fn write_u8_at_unchecked(&mut self, offset: usize, value: u8)
        requires
            offset < old(self)@.len(),
        ensures
            final(self)@ == old(self)@.update(offset as int, value),
            final(self).room() == old(self).room(),
            final(self).cursor() == old(self).cursor(),
    {
        self.vec[offset] = value;
    }

    /// Stores `value` at `offset` without moving the cursor.
    pub fn write_u8_at(&mut self, offset: usize, value: u8)
        requires
            offset + 1 <= usize::MAX,
        ensures
            final(self)@ == patched(old(self)@, offset as int, seq![value]),
            final(self).room() == old(self).room(),
            final(self).cursor() == old(self).cursor(),
    {
        self.try_expand(offset, 1);
        self.write_u8_at_unchecked(offset, value);
        assert(self@ =~= patched(old(self)@, offset as int, seq![value]));
    }

    /// Stores `value` at the cursor and moves the cursor past it.
    pub fn write_u8(&mut self, value: u8)
        requires
            old(self).cursor() + 1 <= usize::MAX,
        ensures
            final(self)@ == patched(old(self)@, old(self).cursor(), seq![value]),
            final(self).room() == old(self).room(),
            final(self).cursor() == old(self).cursor() + 1,
    {
        self.write_u8_at(self.current_offset, value);
        self.current_offset += 1;
    }

    /// Stores `value` at `offset`, least significant byte first, without moving the cursor.
    pub fn write_u16_at(&mut self, offset: usize, value: u16)
        requires
            offset + 2 <= usize::MAX,
        ensures
            final(self)@ == patched(old(self)@, offset as int, u16_le_bytes(value)),
            final(self).room() == old(self).room(),
            final(self).cursor() == old(self).cursor(),
    {
        self.try_expand(offset, 2);
        self.write_u8_at_unchecked(offset, (value % 256) as u8);
        self.write_u8_at_unchecked(offset + 1, (value / 256) as u8);
        assert(self@ =~= patched(old(self)@, offset as int, u16_le_bytes(value)));
    }

    /// Stores `value` at the cursor, least significant byte first, and moves the cursor past it.
    pub fn write_u16(&mut self, value: u16)
        requires
            old(self).cursor() + 2 <= usize::MAX,
        ensures
            final(self)@ == patched(old(self)@, old(self).cursor(), u16_le_bytes(value)),
            final(self).room() == old(self).room(),
            final(self).cursor() == old(self).cursor() + 2,
    {
        self.write_u16_at(self.current_offset, value);
        self.current_offset += 2;
    }

    /// Stores `value` at `offset` as its two's-complement byte, without moving the cursor.
    pub fn write_i8_at(&mut self, offset: usize, value: i8)
        requires
            offset + 1 <= usize::MAX,
        ensures
            final(self)@ == patched(old(self)@, offset as int, seq![i8_bits(value)]),
            final(self).room() == old(self).room(),
            final(self).cursor() == old(self).cursor(),
    {
        let bits: u8 = if value >= 0 {
            value as u8
        } else {
            (value as i16 + 256) as u8
        };
        self.write_u8_at(offset, bits);
    }

    /// Stores `value` at the cursor as its two's-complement byte and moves the cursor past it.
    pub fn write_i8(&mut self, value: i8)
        requires
            old(self).cursor() + 1 <= usize::MAX,
        ensures
            final(self)@ == patched(old(self)@, old(self).cursor(), seq![i8_bits(value)]),
            final(self).room() == old(self).room(),
            final(self).cursor() == old(self).cursor() + 1,
    {
        self.write_i8_at(self.current_offset, value);
        self.current_offset += 1;
    }

    /// Stores the two's-complement pattern of `value` at `offset`, least significant
    /// byte first, without moving the cursor.
    pub fn write_i16_at(&mut self, offset: usize, value: i16)
        requires
            offset + 2 <= usize::MAX,
        ensures
            final(self)@ == patched(old(self)@, offset as int, u16_le_bytes(i16_bits(value))),
            final(self).room() == old(self).room(),
            final(self).cursor() == old(self).cursor(),
    {
        let bits: u16 = if value >= 0 {
            value as u16
        } else {
            (value as i32 + 65536) as u16
        };
        self.write_u16_at(offset, bits);
    }

    /// Stores the two's-complement pattern of `value` at the cursor, least significant
    /// byte first, and moves the cursor past it.
    pub fn write_i16(&mut self, value: i16)
        requires
            old(self).cursor() + 2 <= usize::MAX,
        ensures
            final(self)@ == patched(old(self)@, old(self).cursor(), u16_le_bytes(i16_bits(value))),
            final(self).room() == old(self).room(),
            final(self).cursor() == old(self).cursor() + 2,
    {
        self.write_i16_at(self.current_offset, value);
        self.current_offset += 2;
    }

    /// Stores `value` at `offset`, least significant byte first, without moving the cursor.
    pub fn write_u32_at(&mut self, offset: usize, value: u32)
        requires
            offset + 4 <= usize::MAX,
        ensures
            final(self)@ == patched(old(self)@, offset as int, u32_le_bytes(value)),
            final(self).room() == old(self).room(),
            final(self).cursor() == old(self).cursor(),
    {
        self.try_expand(offset, 4);
        self.write_u8_at_unchecked(offset, (value % 256) as u8);
        self.write_u8_at_unchecked(offset + 1, (value / 256 % 256) as u8);
        self.write_u8_at_unchecked(offset + 2, (value / 65536 % 256) as u8);
        self.write_u8_at_unchecked(offset + 3, (value / 16777216) as u8);
        assert(self@ =~= patched(old(self)@, offset as int, u32_le_bytes(value)));
    }

    /// Stores `value` at the cursor, least significant byte first, and moves the cursor past it.
    pub fn write_u32(&mut self, value: u32)
        requires
            old(self).cursor() + 4 <= usize::MAX,
        ensures
            final(self)@ == patched(old(self)@, old(self).cursor(), u32_le_bytes(value)),
            final(self).room() == old(self).room(),
            final(self).cursor() == old(self).cursor() + 4,
    {
        self.write_u32_at(self.current_offset, value);
        self.current_offset += 4;
    }

    /// Stores the two's-complement pattern of `value` at `offset`, least significant
    /// byte first, without moving the cursor.
    pub fn write_i32_at(&mut self, offset: usize, value: i32)
        requires
            offset + 4 <= usize::MAX,
        ensures
            final(self)@ == patched(old(self)@, offset as int, u32_le_bytes(i32_bits(value))),
            final(self).room() == old(self).room(),
            final(self).cursor() == old(self).cursor(),
    {
        let bits: u32 = if value >= 0 {
            value as u32
        } else {
            (value as i64 + 4294967296) as u32
        };
        self.write_u32_at(offset, bits);
    }

    /// Stores the two's-complement pattern of `value` at the cursor, least significant
    /// byte first, and moves the cursor past it.
    pub fn write_i32(&mut self, value: i32)
        requires
            old(self).cursor() + 4 <= usize::MAX,
        ensures
            final(self)@ == patched(old(self)@, old(self).cursor(), u32_le_bytes(i32_bits(value))),
            final(self).room() == old(self).room(),
            final(self).cursor() == old(self).cursor() + 4,
    {
        self.write_i32_at(self.current_offset, value);
        self.current_offset += 4;
    }

    /// Stores a single-precision value, given as its IEEE-754 bit pattern, at
    /// `offset`, least significant byte first, without moving the cursor.
    pub fn write_f32_at(&mut self, offset: usize, bits: u32)
        requires
            offset + 4 <= usize::MAX,
        ensures
            final(self)@ == patched(old(self)@, offset as int, u32_le_bytes(bits)),
            final(self).room() == old(self).room(),
            final(self).cursor() == old(self).cursor(),
    {
        self.write_u32_at(offset, bits);
    }

    /// Stores a single-precision value, given as its IEEE-754 bit pattern, at the
    /// cursor, least significant byte first, and moves the cursor past it.
    pub fn write_f32(&mut self, bits: u32)
        requires
            old(self).cursor() + 4 <= usize::MAX,
        ensures
            final(self)@ == patched(old(self)@, old(self).cursor(), u32_le_bytes(bits)),
            final(self).room() == old(self).room(),
            final(self).cursor() == old(self).cursor() + 4,
    {
        self.write_f32_at(self.current_offset, bits);
        self.current_offset += 4;
    }

    /// Number of bytes the buffer holds.
    pub fn len(&self) -> (n: usize)
        ensures
            n == self@.len(),
    {
        self.vec.len()
    }

    /// Current cursor position.
    pub fn offset_pos(&self) -> (n: usize)
        ensures
            n == self.cursor(),
    {
        self.current_offset
    }

    /// The byte at `offset`.
    pub fn peek_u8_at(&self, offset: usize) -> (v: u8)
        requires
            offset + 1 <= self@.len(),
        ensures
            v == self@[offset as int],
    {
        cursor_read_u8(&self.vec, offset)
    }

    /// The byte at the cursor; the cursor moves past it.
    pub fn read_u8(&mut self) -> (v: u8)
        requires
            old(self).cursor() + 1 <= old(self)@.len(),
        ensures
            v == old(self)@[old(self).cursor()],
            final(self)@ == old(self)@,
            final(self).room() == old(self).room(),
            final(self).cursor() == old(self).cursor() + 1,
    {
        let v: u8 = self.peek_u8_at(self.current_offset);
        assert(self.vec.len() == self.vec@.len());
        self.current_offset += 1;
        v
    }

    /// The little-endian 16-bit value at `offset`.
    pub fn peek_u16_at(&self, offset: usize) -> (v: u16)
        requires
            offset + 2 <= self@.len(),
        ensures
            v == u16_from_le(self@.subrange(offset as int, offset + 2)),
    {
        cursor_read_u16(&self.vec, offset)
    }

    /// The little-endian 16-bit value at the cursor; the cursor moves past it.
    pub fn read_u16(&mut self) -> (v: u16)
        requires
            old(self).cursor() + 2 <= old(self)@.len(),
        ensures
            v == u16_from_le(old(self)@.subrange(old(self).cursor(), old(self).cursor() + 2)),
            final(self)@ == old(self)@,
            final(self).room() == old(self).room(),
            final(self).cursor() == old(self).cursor() + 2,
    {
        let v: u16 = self.peek_u16_at(self.current_offset);
        assert(self.vec.len() == self.vec@.len());
        self.current_offset += 2;
        v
    }
    /// Stores `text` at `offset` as its UTF-8 bytes and a closing zero, without
    /// moving the cursor.
    pub fn write_string_at(&mut self, offset: usize, text: &str)
        requires
            offset + encode_utf8(text@).len() + 1 <= usize::MAX,
        ensures
            final(self)@ == patched(old(self)@, offset as int, string_bytes(text@)),
            final(self).room() == old(self).room(),
            final(self).cursor() == old(self).cursor(),
    {
        let bytes: &[u8] = text.as_bytes();
        let n: usize = bytes.len();
        self.try_expand(offset, n + 1);
        let ghost grown = self@;
        let mut i: usize = 0;
        while i < n
            invariant
                i <= n,
                n == bytes@.len(),
                offset + n + 1 <= usize::MAX,
                bytes@ == encode_utf8(text@),
                grown == zero_extended(old(self)@, offset + n + 1),
                grown.len() >= offset + n + 1,
                self@.len() == grown.len(),
                self.room() == old(self).room(),
                self.cursor() == old(self).cursor(),
                forall|j: int| offset <= j < offset + i ==> self@[j] == bytes@[j - offset],
                forall|j: int|
                    0 <= j < grown.len() && !(offset <= j < offset + i) ==> self@[j] == grown[j],
            decreases n - i,
        {
            self.write_u8_at_unchecked(offset + i, bytes[i]);
            i += 1;
        }
        let ghost filled = self@;
        self.write_u8_at_unchecked(offset + n, 0);
        proof {
            let data = string_bytes(text@);
            let want = patched(old(self)@, offset as int, data);
            assert(data.len() == n + 1);
            assert(self@.len() == want.len());
            assert forall|j: int| 0 <= j < want.len() implies self@[j] == want[j] by {
                if offset <= j < offset + n {
                    assert(self@[j] == filled[j]);
                    assert(data[j - offset] == bytes@[j - offset]);
                } else if j == offset + n {
                    assert(data[j - offset] == 0);
                } else {
                    assert(self@[j] == filled[j]);
                    assert(filled[j] == grown[j]);
                }
            }
            assert(self@ =~= want);
        }
    }

    /// Stores `text` at the cursor as its UTF-8 bytes and a closing zero, and moves
    /// the cursor past the zero.
    pub fn write_string(&mut self, text: &str)
        requires
            old(self).cursor() + encode_utf8(text@).len() + 1 <= usize::MAX,
        ensures
            final(self)@ == patched(old(self)@, old(self).cursor(), string_bytes(text@)),
            final(self).room() == old(self).room(),
            final(self).cursor() == old(self).cursor() + encode_utf8(text@).len() + 1,
    {
        self.write_string_at(self.current_offset, text);
        self.current_offset += text.as_bytes().len() + 1;
    }

    /// Position of the first zero byte at or after `from`.
    fn find_zero(&self, from: usize) -> (r: Option<usize>)
        requires
            from <= self@.len(),
        ensures
            match r {
                Some(end) => first_zero(self@, from as int) == Some(end as int),
                None => first_zero(self@, from as int) is None,
            },
    {
        let mut end: usize = from;
        while end < self.vec.len() && self.vec[end] != 0
            invariant
                from <= end <= self.vec@.len(),
                first_zero(self.vec@, from as int) == first_zero(self.vec@, end as int),
            decreases self.vec@.len() - end,
        {
            end += 1;
        }
        if end < self.vec.len() {
            Some(end)
        } else {
            None
        }
    }

    /// The string that starts at `offset`: the bytes up to the first zero byte,
    /// decoded as text. Fails where no zero byte follows.
    pub fn peek_string_at(&self, offset: usize) -> (r: Result<String, BufferError>)
        requires
            offset <= self@.len(),
        ensures
            match first_zero(self@, offset as int) {
                Some(end) => r is Ok && r->Ok_0@ == lossy_text(
                    self@.subrange(offset as int, end),
                ),
                None => r == Err::<String, BufferError>(BufferError::MissingTerminator),
            },
    {
        match self.find_zero(offset) {
            Some(end) => {
                proof {
                    lemma_first_zero(self@, offset as int);
                }
                Ok(text_from_bytes(&self.vec.as_slice()[offset..end]))
            },
            None => Err(BufferError::MissingTerminator),
        }
    }

    /// The string that starts at the cursor; the cursor moves past its closing zero.
    /// Fails, and leaves the cursor alone, where no zero byte follows.
    pub fn read_string(&mut self) -> (r: Result<String, BufferError>)
        requires
            old(self).cursor() <= old(self)@.len(),
        ensures
            final(self)@ == old(self)@,
            final(self).room() == old(self).room(),
            match first_zero(old(self)@, old(self).cursor()) {
                Some(end) => r is Ok && r->Ok_0@ == lossy_text(
                    old(self)@.subrange(old(self).cursor(), end),
                ) && final(self).cursor() == end + 1,
                None => r == Err::<String, BufferError>(BufferError::MissingTerminator)
                    && final(self).cursor() == old(self).cursor(),
            },
    {
        match self.find_zero(self.current_offset) {
            Some(end) => {
                proof {
                    lemma_first_zero(self@, self.cursor());
                    assert(self.vec.len() == self.vec@.len());
                }
                let text: String = text_from_bytes(
                    &self.vec.as_slice()[self.current_offset..end],
                );
                self.current_offset = end + 1;
                Ok(text)
            },
            None => Err(BufferError::MissingTerminator),
        }
    }

    /// Stores single-precision values, given as their IEEE-754 bit patterns, one
    /// after the other at the cursor, and moves the cursor past them. Without
    /// values nothing changes.
    pub fn write_f32_vec(&mut self, values: Vec<u32>)
        requires
            old(self).cursor() + 4 * values@.len() <= usize::MAX,
        ensures
            final(self)@ == if values@.len() == 0 {
                old(self)@
            } else {
                patched(old(self)@, old(self).cursor(), u32s_le_bytes(values@))
            },
            final(self).room() == old(self).room(),
            final(self).cursor() == old(self).cursor() + 4 * values@.len(),
    {
        let ghost start = self@;
        let ghost at = self.cursor();
        let mut i: usize = 0;
        while i < values.len()
            invariant
                i <= values@.len(),
                0 <= at,
                at + 4 * values@.len() <= usize::MAX,
                self.room() == old(self).room(),
                self.cursor() == at + 4 * i,
                i == 0 ==> self@ == start,
                i > 0 ==> self@ == patched(start, at, u32s_le_bytes(values@.take(i as int))),
            decreases values@.len() - i,
        {
            proof {
                assert(values@.take(i + 1).drop_last() =~= values@.take(i as int));
                lemma_u32s_le_bytes_len(values@.take(i as int));
                lemma_patched_twice(
                    start,
                    at,
                    u32s_le_bytes(values@.take(i as int)),
                    u32_le_bytes(values@[i as int]),
                );
                assert(Seq::<u8>::empty() + u32_le_bytes(values@[i as int]) =~= u32_le_bytes(
                    values@[i as int],
                ));
            }
            self.write_f32(values[i]);
            i += 1;
        }
        assert(values@.take(values@.len() as int) =~= values@);
    }

    /// Reads `count` single-precision values at the cursor, as their IEEE-754
    /// bit patterns, and moves the cursor past them.
    pub fn read_f32_vec(&mut self, count: usize) -> (r: Vec<u32>)
        requires
            old(self).cursor() + 4 * count <= old(self)@.len(),
        ensures
            final(self)@ == old(self)@,
            final(self).room() == old(self).room(),
            final(self).cursor() == old(self).cursor() + 4 * count,
            r@.len() == count,
            forall|i: int|
                0 <= i < count ==> r@[i] == u32_from_le(
                    old(self)@.subrange(old(self).cursor() + 4 * i, old(self).cursor() + 4 * i + 4),
                ),
    {
        let ghost at = self.cursor();
        let mut vec: Vec<u32> = Vec::with_capacity(count);
        let mut k: usize = 0;
        while k < count
            invariant
                k <= count,
                0 <= at,
                at + 4 * count <= self@.len(),
                self@ == old(self)@,
                self.room() == old(self).room(),
                self.cursor() == at + 4 * k,
                vec@.len() == k,
                forall|i: int|
                    0 <= i < k ==> vec@[i] == u32_from_le(
                        self@.subrange(at + 4 * i, at + 4 * i + 4),
                    ),
            decreases count - k,
        {
            let v: u32 = self.read_f32();
            vec.push(v);
            k += 1;
        }
        vec
    }

    /// The buffer as text: its length in brackets, then `0x` and every byte
    /// as two digits in base sixteen.
    pub fn as_hex_str(&self) -> (s: String)
        ensures
            s@ == seq!['['] + decimal_text(self@.len()) + seq![']', '0', 'x'] + hex_text(self@),
    {
        proof {
            reveal_strlit("[");
            reveal_strlit("]0x");
        }
        let mut s = String::from_str("[");
        s.append(decimal_string(self.vec.len()).as_str());
        s.append("]0x");
        assert(s@ =~= seq!['['] + decimal_text(self@.len()) + seq![']', '0', 'x']);
        append_hex(&mut s, self.vec.as_slice());
        s
    }

    /// The buffer as text: its length in brackets, then every byte in
    /// decimal, each followed by a space.
    pub fn as_dec_str(&self) -> (s: String)
        ensures
            s@ == seq!['['] + decimal_text(self@.len()) + seq![']'] + decimal_list(self@),
    {
        proof {
            reveal_strlit("[");
            reveal_strlit("]");
            reveal_strlit(" ");
        }
        let mut s = String::from_str("[");
        s.append(decimal_string(self.vec.len()).as_str());
        s.append("]");
        let ghost head = seq!['['] + decimal_text(self@.len()) + seq![']'];
        assert(s@ =~= head);
        let mut i: usize = 0;
        while i < self.vec.len()
            invariant
                i <= self.vec@.len(),
                s@ == head + decimal_list(self.vec@.take(i as int)),
            decreases self.vec@.len() - i,
        {
            assert(self.vec@.take(i + 1).drop_last() =~= self.vec@.take(i as int));
            s.append(decimal_string(self.vec[i] as usize).as_str());
            s.append(" ");
            proof {
                reveal_strlit(" ");
                assert(s@ =~= head + decimal_list(self.vec@.take(i + 1)));
            }
            i += 1;
        }
        assert(self.vec@.take(self.vec@.len() as int) =~= self.vec@);
        s
    }

    /// Storage the buffer has reserved: never less than what it holds, and
    /// never less than the room it was made with. A vector reports at least
    /// what it was asked to reserve; taking the larger of the two makes that
    /// part of what is proved here.
    pub fn max_size(&self) -> (n: usize)
        ensures
            n >= self@.len(),
            n >= self.room(),
    {
        let held: usize = reserved(&self.vec);
        if held < self.room {
            self.room
        } else {
            held
        }
    }

    /// Whether at least one byte lies at or after the cursor.
    pub fn can_read(&self) -> (b: bool)
        ensures
            b == (self.cursor() < self@.len()),
    {
        self.current_offset < self.vec.len()
    }

    /// The signed byte at `offset`.
    pub fn peek_i8_at(&self, offset: usize) -> (v: i8)
        requires
            offset + 1 <= self@.len(),
        ensures
            v == i8_from_bits(self@[offset as int]),
    {
        cursor_read_i8(&self.vec, offset)
    }

    /// The signed byte at the cursor; the cursor moves past it.
    pub fn read_i8(&mut self) -> (v: i8)
        requires
            old(self).cursor() + 1 <= old(self)@.len(),
        ensures
            v == i8_from_bits(old(self)@[old(self).cursor()]),
            final(self)@ == old(self)@,
            final(self).room() == old(self).room(),
            final(self).cursor() == old(self).cursor() + 1,
    {
        let v: i8 = self.peek_i8_at(self.current_offset);
        assert(self.vec.len() == self.vec@.len());
        self.current_offset += 1;
        v
    }

    /// The little-endian signed 16-bit value at `offset`.
    pub fn peek_i16_at(&self, offset: usize) -> (v: i16)
        requires
            offset + 2 <= self@.len(),
        ensures
            v == i16_from_bits(u16_from_le(self@.subrange(offset as int, offset + 2))),
    {
        cursor_read_i16(&self.vec, offset)
    }

    /// The little-endian signed 16-bit value at the cursor; the cursor moves past it.
    pub fn read_i16(&mut self) -> (v: i16)
        requires
            old(self).cursor() + 2 <= old(self)@.len(),
        ensures
            v == i16_from_bits(
                u16_from_le(old(self)@.subrange(old(self).cursor(), old(self).cursor() + 2)),
            ),
            final(self)@ == old(self)@,
            final(self).room() == old(self).room(),
            final(self).cursor() == old(self).cursor() + 2,
    {
        let v: i16 = self.peek_i16_at(self.current_offset);
        assert(self.vec.len() == self.vec@.len());
        self.current_offset += 2;
        v
    }

    /// The little-endian 32-bit value at `offset`.
    pub fn peek_u32_at(&self, offset: usize) -> (v: u32)
        requires
            offset + 4 <= self@.len(),
        ensures
            v == u32_from_le(self@.subrange(offset as int, offset + 4)),
    {
        cursor_read_u32(&self.vec, offset)
    }

    /// The little-endian 32-bit value at the cursor; the cursor moves past it.
    pub fn read_u32(&mut self) -> (v: u32)
        requires
            old(self).cursor() + 4 <= old(self)@.len(),
        ensures
            v == u32_from_le(old(self)@.subrange(old(self).cursor(), old(self).cursor() + 4)),
            final(self)@ == old(self)@,
            final(self).room() == old(self).room(),
            final(self).cursor() == old(self).cursor() + 4,
    {
        let v: u32 = self.peek_u32_at(self.current_offset);
        assert(self.vec.len() == self.vec@.len());
        self.current_offset += 4;
        v
    }

    /// The little-endian signed 32-bit value at `offset`.
    pub fn peek_i32_at(&self, offset: usize) -> (v: i32)
        requires
            offset + 4 <= self@.len(),
        ensures
            v == i32_from_bits(u32_from_le(self@.subrange(offset as int, offset + 4))),
    {
        cursor_read_i32(&self.vec, offset)
    }

    /// The little-endian signed 32-bit value at the cursor; the cursor moves past it.
    pub fn read_i32(&mut self) -> (v: i32)
        requires
            old(self).cursor() + 4 <= old(self)@.len(),
        ensures
            v == i32_from_bits(
                u32_from_le(old(self)@.subrange(old(self).cursor(), old(self).cursor() + 4)),
            ),
            final(self)@ == old(self)@,
            final(self).room() == old(self).room(),
            final(self).cursor() == old(self).cursor() + 4,
    {
        let v: i32 = self.peek_i32_at(self.current_offset);
        assert(self.vec.len() == self.vec@.len());
        self.current_offset += 4;
        v
    }

    /// The IEEE-754 bit pattern of the little-endian single-precision value at `offset`.
    pub fn peek_f32_at(&self, offset: usize) -> (bits: u32)
        requires
            offset + 4 <= self@.len(),
        ensures
            bits == u32_from_le(self@.subrange(offset as int, offset + 4)),
    {
        self.peek_u32_at(offset)
    }

    /// The IEEE-754 bit pattern of the little-endian single-precision value at the
    /// cursor; the cursor moves past it.
    pub fn read_f32(&mut self) -> (bits: u32)
        requires
            old(self).cursor() + 4 <= old(self)@.len(),
        ensures
            bits == u32_from_le(old(self)@.subrange(old(self).cursor(), old(self).cursor() + 4)),
            final(self)@ == old(self)@,
            final(self).room() == old(self).room(),
            final(self).cursor() == old(self).cursor() + 4,
    {
        self.read_u32()
    }

    /// The bytes from `start` up to, not including, `end`.
    pub fn get_vec_slice(&self, start: usize, end: usize) -> (r: &[u8])
        requires
            start <= end <= self@.len(),
        ensures
            r@ == self@.subrange(start as int, end as int),
    {
        &self.vec.as_slice()[start..end]
    }

    /// A detached copy of the bytes from `start` up to, not including, `end`, with
    /// its cursor at 0.
    pub fn slice(&self, start: usize, end: usize) -> (r: BitBuffer)
        requires
            start <= end <= self@.len(),
        ensures
            r@ == self@.subrange(start as int, end as int),
            r.cursor() == 0,
            r.room() == 0,
    {
        let part: &[u8] = &self.vec.as_slice()[start..end];
        BitBuffer { current_offset: 0, vec: vstd::slice::slice_to_vec(part), room: 0 }
    }
}

impl Clone for BitBuffer {
    /// A copy with the same bytes and the same cursor. It is known to have
    /// room for its bytes only.
    fn clone(&self) -> (r: Self)
        ensures
            r@ == self@,
            r.cursor() == self.cursor(),
            r.room() == 0,
    {
        let vec: Vec<u8> = self.vec.clone();
        assert(vec@ =~= self.vec@);
        BitBuffer { current_offset: self.current_offset, vec, room: 0 }
    }
}

impl From<Vec<u8>> for BitBuffer {
    /// A buffer over `vec` with the cursor at 0.
    fn from(vec: Vec<u8>) -> (r: Self)
        ensures
            r@ == vec@,
            r.cursor() == 0,
            r.room() == 0,
    {
        BitBuffer { current_offset: 0, vec, room: 0 }
    }
}

impl vstd::std_specs::convert::FromSpecImpl<Vec<u8>> for BitBuffer {
    open spec fn obeys_from_spec() -> bool {
        true
    }

    closed spec fn from_spec(vec: Vec<u8>) -> Self {
        BitBuffer { current_offset: 0, vec, room: 0 }
    }
}

} // verus!
