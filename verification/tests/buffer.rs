use mp_game_net::buffer::{BitBuffer, BufferError};

#[test]
fn written_prefix_is_little_endian() {
    let mut buf = BitBuffer::with_capacity(4);
    buf.write_u16(0x1234);
    buf.write_u32(0xA1B2C3D4);
    buf.write_u8(7);
    assert_eq!(buf.as_bytes(), &[0x34, 0x12, 0xD4, 0xC3, 0xB2, 0xA1, 7]);
    assert_eq!(buf.offset_pos(), 7);
    assert_eq!(buf.len(), 7);
}

#[test]
fn patch_past_end_zero_fills_and_keeps_cursor() {
    let mut buf = BitBuffer::with_capacity(0);
    buf.write_u8(9);
    buf.write_u16_at(4, 0xBEEF);
    assert_eq!(buf.offset_pos(), 1);
    assert_eq!(buf.len(), 6);
    assert_eq!(buf.get_vec_slice(0, 6), &[9, 0, 0, 0, 0xEF, 0xBE]);
    assert_eq!(buf.as_bytes(), &[9]);
}

#[test]
fn reads_mirror_writes() {
    let mut buf = BitBuffer::with_capacity(0);
    buf.write_i8(-5);
    buf.write_i16(-1000);
    buf.write_i32(-1_000_000);
    buf.write_u32(4_000_000_000);
    buf.write_f32(1.5f32.to_bits());
    let mut rd = BitBuffer::from(buf.as_bytes().to_vec());
    assert!(rd.can_read());
    assert_eq!(rd.read_i8(), -5);
    assert_eq!(rd.read_i16(), -1000);
    assert_eq!(rd.read_i32(), -1_000_000);
    assert_eq!(rd.read_u32(), 4_000_000_000);
    assert_eq!(f32::from_bits(rd.read_f32()), 1.5);
    assert!(!rd.can_read());
    assert_eq!(rd.peek_u8_at(0), 0xFB);
    assert_eq!(rd.peek_i8_at(0), -5);
    assert_eq!(rd.peek_u16_at(1), 0xFC18);
    assert_eq!(rd.peek_i16_at(1), -1000);
    assert_eq!(rd.peek_i32_at(3), -1_000_000);
    assert_eq!(rd.peek_u32_at(7), 4_000_000_000);
    assert_eq!(rd.peek_f32_at(11), 1.5f32.to_bits());
}

#[test]
fn string_is_zero_terminated_and_read_advances() {
    let mut buf = BitBuffer::with_capacity(0);
    buf.write_string("héllo");
    buf.write_u8(0x55);
    assert_eq!(buf.as_bytes(), &[b'h', 0xC3, 0xA9, b'l', b'l', b'o', 0, 0x55]);
    let mut rd = BitBuffer::from(buf.as_bytes().to_vec());
    assert_eq!(rd.read_string(), Ok("héllo".to_string()));
    assert_eq!(rd.offset_pos(), 7);
    assert_eq!(rd.read_u8(), 0x55);
    assert_eq!(rd.peek_string_at(3), Ok("llo".to_string()));
}

#[test]
fn string_without_terminator_is_refused() {
    let mut rd = BitBuffer::from(vec![b'a', b'b']);
    assert_eq!(rd.read_string(), Err(BufferError::MissingTerminator));
    assert_eq!(rd.offset_pos(), 0);
    assert_eq!(rd.peek_string_at(2), Err(BufferError::MissingTerminator));
}

#[test]
fn malformed_text_is_replaced_not_refused() {
    let rd = BitBuffer::from(vec![b'a', 0xFF, b'b', 0]);
    assert_eq!(rd.peek_string_at(0), Ok("a\u{FFFD}b".to_string()));
}

#[test]
fn cursor_cannot_leave_reserved_storage() {
    let mut buf = BitBuffer::from(vec![1, 2, 3]);
    assert_eq!(buf.set_offset_pos(2), Ok(()));
    assert_eq!(buf.offset_pos(), 2);
    assert!(buf.max_size() >= 3);
    assert_eq!(buf.set_offset_pos(usize::MAX), Err(BufferError::OffsetOutOfRange));
    assert_eq!(buf.offset_pos(), 2);
}

#[test]
fn slice_is_detached() {
    let mut buf = BitBuffer::from(vec![1, 2, 3, 4]);
    let part = buf.slice(1, 3);
    buf.write_u8_at(1, 9);
    assert_eq!(part.len(), 2);
    assert_eq!(part.offset_pos(), 0);
    assert_eq!(part.get_vec_slice(0, 2), &[2, 3]);
    let copy = buf.clone();
    assert_eq!(copy.get_vec_slice(0, 4), &[1, 9, 3, 4]);
}

#[test]
fn vectors_of_values_are_laid_out_in_order() {
    let mut buf = BitBuffer::with_capacity(0);
    buf.write_u8(0xAA);
    buf.write_f32_vec(vec![1, 0x01020304]);
    assert_eq!(buf.as_bytes(), &[0xAA, 1, 0, 0, 0, 4, 3, 2, 1]);
    buf.write_f32_vec(vec![]);
    assert_eq!(buf.len(), 9);
    let mut rd = BitBuffer::from(buf.as_bytes().to_vec());
    rd.read_u8();
    assert_eq!(rd.read_f32_vec(2), vec![1, 0x01020304]);
    assert_eq!(rd.offset_pos(), 9);
    assert_eq!(rd.read_f32_vec(0), Vec::<u32>::new());
}

#[test]
fn empty_vector_does_not_grow_the_buffer() {
    let mut buf = BitBuffer::from(vec![1, 2]);
    buf.set_offset_pos(2).unwrap();
    buf.write_f32_vec(vec![]);
    assert_eq!(buf.len(), 2);
}

#[test]
fn buffer_as_text() {
    let buf = BitBuffer::from(vec![0, 9, 10, 0xAB, 255]);
    assert_eq!(buf.as_hex_str(), "[5]0x00090AABFF");
    assert_eq!(buf.as_dec_str(), "[5]0 9 10 171 255 ");
    let empty = BitBuffer::with_capacity(8);
    assert_eq!(empty.as_hex_str(), "[0]0x");
    assert_eq!(empty.as_dec_str(), "[0]");
    let long = BitBuffer::from(vec![7; 120]);
    assert!(long.as_hex_str().starts_with("[120]0x0707"));
    assert_eq!(long.as_hex_str().len(), "[120]0x".len() + 240);
}

#[test]
fn cursor_may_stand_anywhere_in_the_room_a_buffer_was_made_with() {
    let mut buf = BitBuffer::with_capacity(64);
    assert_eq!(buf.len(), 0);
    assert_eq!(buf.offset_pos(), 0);
    assert!(buf.max_size() >= 64);
    assert_eq!(buf.set_offset_pos(64), Ok(()));
    assert_eq!(buf.offset_pos(), 64);
    assert_eq!(buf.set_offset_pos(3), Ok(()));
    buf.write_u8(7);
    assert_eq!(buf.get_vec_slice(0, 4), &[0, 0, 0, 7]);
    assert_eq!(buf.set_offset_pos(64), Ok(()));
    assert!(buf.max_size() >= 64);

    let mut none = BitBuffer::with_capacity(0);
    assert_eq!(none.set_offset_pos(0), Ok(()));
    assert_eq!(none.set_offset_pos(usize::MAX), Err(BufferError::OffsetOutOfRange));
    let mut big = BitBuffer::with_capacity(4096);
    assert_eq!(big.set_offset_pos(4096), Ok(()));
}
