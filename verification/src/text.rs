//! Zero-terminated text as it travels inside a payload.
//!
//! A string is written as its UTF-8 bytes followed by one zero byte. Reading
//! stops at the first zero byte and decodes what came before it, replacing
//! malformed sequences rather than failing.

use vstd::prelude::*;
use vstd::string::StringExecFns;
use vstd::utf8::*;

verus! {

/// What `String::from_utf8_lossy` makes of `bytes`.
pub uninterp spec fn utf8_lossy(bytes: Seq<u8>) -> Seq<char>;

/// The text that a run of bytes is read as: its decoding where the bytes are
/// well-formed UTF-8, and the lossy decoding otherwise.
pub open spec fn lossy_text(bytes: Seq<u8>) -> Seq<char> {
    if valid_utf8(bytes) {
        decode_utf8(bytes)
    } else {
        utf8_lossy(bytes)
    }
}

/// The bytes a string occupies in a payload: its UTF-8 encoding and a closing zero.
pub open spec fn string_bytes(s: Seq<char>) -> Seq<u8> {
    encode_utf8(s).push(0u8)
}

/// A string short enough to be laid out in any message that carries one:
/// the longest such message takes 29 bytes around its string, behind a
/// header of 11.
pub open spec fn text_fits(s: Seq<char>) -> bool {
    40 + encode_utf8(s).len() <= usize::MAX
}

/// Whether `text` is short enough to be laid out in any message that carries a string.
pub fn fits_message(text: &str) -> (b: bool)
    ensures
        b == text_fits(text@),
{
    text.as_bytes().len() <= usize::MAX - 40
}

/// No character of `s` is U+0000.
pub open spec fn has_no_nul(s: Seq<char>) -> bool {
    forall|i: int| 0 <= i < s.len() ==> (#[trigger] s[i]) as u32 != 0
}

/// No byte of `bytes` is zero.
pub open spec fn has_no_zero_byte(bytes: Seq<u8>) -> bool {
    forall|i: int| 0 <= i < bytes.len() ==> #[trigger] bytes[i] != 0
}

/// Decodes `bytes` with `String::from_utf8_lossy`. The contract names the result
/// and claims, as std documents, that well-formed UTF-8 is decoded unchanged.
#[verifier::external_body]
fn decode_lossy(bytes: &[u8]) -> (s: String)
    ensures
        s@ == utf8_lossy(bytes@),
        valid_utf8(bytes@) ==> s@ == decode_utf8(bytes@),
{
    String::from_utf8_lossy(bytes).into_owned()
}

/// The text that `bytes` is read as.
pub fn text_from_bytes(bytes: &[u8]) -> (s: String)
    ensures
        s@ == lossy_text(bytes@),
{
    decode_lossy(bytes)
}

proof fn lemma_scalar_bytes_nonzero(c: u32)
    by (bit_vector)
    requires
        c != 0,
        c <= 0x10FFFF,
    ensures
        c <= 0x7F ==> (c & 0x7F) as u8 != 0,
        0xC0u8 | ((c >> 6) & 0x1F) as u8 != 0,
        0xE0u8 | ((c >> 12) & 0x0F) as u8 != 0,
        0xF0u8 | ((c >> 18) & 0x7) as u8 != 0,
        0x80u8 | (c & 0x3F) as u8 != 0,
        0x80u8 | ((c >> 6) & 0x3F) as u8 != 0,
        0x80u8 | ((c >> 12) & 0x3F) as u8 != 0,
{
}

/// The UTF-8 encoding of text without U+0000 holds no zero byte.
pub proof fn lemma_encoding_has_no_zero_byte(s: Seq<char>)
    requires
        has_no_nul(s),
    ensures
        has_no_zero_byte(encode_utf8(s)),
    decreases s.len(),
{
    if s.len() > 0 {
        let c = s[0] as u32;
        char_is_scalar(s[0]);
        lemma_scalar_bytes_nonzero(c);
        let head = encode_scalar(c);
        let rest = s.drop_first();
        assert forall|i: int| 0 <= i < rest.len() implies (#[trigger] rest[i]) as u32 != 0 by {
            assert(rest[i] == s[i + 1]);
        }
        lemma_encoding_has_no_zero_byte(rest);
        assert(has_no_zero_byte(head));
        assert forall|i: int| 0 <= i < encode_utf8(s).len() implies #[trigger] encode_utf8(s)[i]
            != 0 by {
            if i < head.len() {
                assert(encode_utf8(s)[i] == head[i]);
            } else {
                assert(encode_utf8(s)[i] == encode_utf8(rest)[i - head.len()]);
            }
        }
    }
}

/// No character takes more than four bytes.
pub proof fn lemma_encoding_length(s: Seq<char>)
    ensures
        encode_utf8(s).len() <= 4 * s.len(),
    decreases s.len(),
{
    if s.len() > 0 {
        lemma_encoding_length(s.drop_first());
    }
}

/// A string without U+0000, laid out after `before` and followed by `after`,
/// is found again by looking for the first zero byte: the zero is its own
/// terminator, and the bytes in front of it decode to the string.
pub proof fn lemma_string_bytes_read_back(before: Seq<u8>, s: Seq<char>, after: Seq<u8>)
    requires
        has_no_nul(s),
    ensures
        crate::buffer::first_zero(before + string_bytes(s) + after, before.len() as int) == Some(
            (before.len() + encode_utf8(s).len()) as int,
        ),
        lossy_text(
            (before + string_bytes(s) + after).subrange(
                before.len() as int,
                (before.len() + encode_utf8(s).len()) as int,
            ),
        ) == s,
{
    let all = before + string_bytes(s) + after;
    let from = before.len() as int;
    let end = from + encode_utf8(s).len();
    lemma_encoding_has_no_zero_byte(s);
    assert forall|i: int| from <= i < end implies all[i] != 0 by {
        assert(all[i] == encode_utf8(s)[i - from]);
    }
    assert(all[end] == 0);
    crate::buffer::lemma_first_zero_at(all, from, end);
    assert(all.subrange(from, end) =~= encode_utf8(s));
    encode_utf8_valid_utf8(s);
    encode_utf8_decode_utf8(s);
}

/// The digit for `n`, in base sixteen with capital letters.
pub open spec fn hex_digit(n: int) -> char {
    seq!['0', '1', '2', '3', '4', '5', '6', '7', '8', '9', 'A', 'B', 'C', 'D', 'E', 'F'][n]
}

/// `n` in decimal, without leading zeros.
pub open spec fn decimal_text(n: nat) -> Seq<char>
    decreases n,
{
    if n < 10 {
        seq![hex_digit(n as int)]
    } else {
        decimal_text(n / 10).push(hex_digit((n % 10) as int))
    }
}

/// Every byte of `bytes` as two digits in base sixteen.
pub open spec fn hex_text(bytes: Seq<u8>) -> Seq<char>
    decreases bytes.len(),
{
    if bytes.len() == 0 {
        Seq::empty()
    } else {
        hex_text(bytes.drop_last()) + seq![
            hex_digit(bytes.last() as int / 16),
            hex_digit(bytes.last() as int % 16),
        ]
    }
}

/// Every byte of `bytes` in decimal, each followed by a space.
pub open spec fn decimal_list(bytes: Seq<u8>) -> Seq<char>
    decreases bytes.len(),
{
    if bytes.len() == 0 {
        Seq::empty()
    } else {
        decimal_list(bytes.drop_last()) + decimal_text(bytes.last() as nat).push(' ')
    }
}

/// The digit for `d` as a string of one character.
pub fn digit_str(d: u8) -> (s: &'static str)
    requires
        d < 16,
    ensures
        s@ == seq![hex_digit(d as int)],
{
    proof {
        reveal_strlit("0");
        reveal_strlit("1");
        reveal_strlit("2");
        reveal_strlit("3");
        reveal_strlit("4");
        reveal_strlit("5");
        reveal_strlit("6");
        reveal_strlit("7");
        reveal_strlit("8");
        reveal_strlit("9");
        reveal_strlit("A");
        reveal_strlit("B");
        reveal_strlit("C");
        reveal_strlit("D");
        reveal_strlit("E");
        reveal_strlit("F");
    }
    let s: &'static str = match d {
        0 => "0",
        1 => "1",
        2 => "2",
        3 => "3",
        4 => "4",
        5 => "5",
        6 => "6",
        7 => "7",
        8 => "8",
        9 => "9",
        10 => "A",
        11 => "B",
        12 => "C",
        13 => "D",
        14 => "E",
        _ => "F",
    };
    assert(s@ =~= seq![hex_digit(d as int)]);
    s
}

/// `n` in decimal, without leading zeros.
pub fn decimal_string(n: usize) -> (s: String)
    ensures
        s@ == decimal_text(n as nat),
    decreases n,
{
    if n < 10 {
        String::from_str(digit_str(n as u8))
    } else {
        let mut s = decimal_string(n / 10);
        s.append(digit_str((n % 10) as u8));
        assert(s@ =~= decimal_text(n as nat));
        s
    }
}

/// Appends every byte of `bytes` to `s` as two digits in base sixteen.
pub fn append_hex(s: &mut String, bytes: &[u8])
    ensures
        final(s)@ == old(s)@ + hex_text(bytes@),
{
    let ghost start = s@;
    let mut i: usize = 0;
    while i < bytes.len()
        invariant
            i <= bytes@.len(),
            s@ == start + hex_text(bytes@.take(i as int)),
        decreases bytes@.len() - i,
    {
        assert(bytes@.take(i + 1).drop_last() =~= bytes@.take(i as int));
        let b: u8 = bytes[i];
        s.append(digit_str(b / 16));
        s.append(digit_str(b % 16));
        assert(s@ =~= start + hex_text(bytes@.take(i + 1)));
        i += 1;
    }
    assert(bytes@.take(bytes@.len() as int) =~= bytes@);
}

} // verus!
