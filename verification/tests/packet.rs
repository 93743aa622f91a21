use mp_game_net::buffer::BitBuffer;
use mp_game_net::packet::{Packet, PacketBuilder, PacketError, PACKET_HEADER_SIZE};

fn sample(payload: &[u8]) -> Vec<u8> {
    let mut bytes = vec![payload.len() as u8, (payload.len() >> 8) as u8, 7, 1, 0, 0, 0, 9, 0, 0, 0];
    bytes.extend_from_slice(payload);
    bytes
}

#[test]
fn header_is_eleven_bytes() {
    assert_eq!(PACKET_HEADER_SIZE, 11);
}

#[test]
fn builder_lays_out_header_then_payload() {
    let mut builder = PacketBuilder::with_stamp(5, 0x01020304).with_auth_id(0xAABBCCDD);
    builder.buf_mut().write_u16(0xBEEF);
    builder.buf_mut().write_u8(0x11);
    let packet = builder.finalize();
    assert_eq!(
        packet.as_slice(),
        &[3, 0, 5, 0x04, 0x03, 0x02, 0x01, 0xDD, 0xCC, 0xBB, 0xAA, 0xEF, 0xBE, 0x11]
    );
    assert_eq!(packet.payload_len(), 3);
    assert_eq!(packet.packet_type(), 5);
    assert_eq!(packet.timestamp(), 0x01020304);
    assert_eq!(packet.auth_id(), 0xAABBCCDD);
    assert_eq!(packet.buf_len(), 14);
    assert_eq!(packet.payload_buf().get_vec_slice(0, 3), &[0xEF, 0xBE, 0x11]);
}

#[test]
fn fresh_builder_has_placeholder_length_and_zero_shared_field() {
    let packet = Packet::new(BitBuffer::from(
        PacketBuilder::with_stamp(2, 0).finalize().buf().get_vec_slice(0, 11).to_vec(),
    ));
    assert_eq!(packet.payload_len(), 0);
    let mut builder = PacketBuilder::with_stamp(2, 0);
    assert_eq!(builder.buf_mut().get_vec_slice(0, 11), &[0xFF, 0xFF, 2, 0, 0, 0, 0, 0, 0, 0, 0]);
    assert_eq!(builder.buf_mut().offset_pos(), 11);
}

#[test]
fn new_builder_is_stamped_with_the_clock() {
    let before = mp_game_net::unix_timestamp();
    let mut builder = PacketBuilder::new(1);
    builder.buf_mut().write_u8(1);
    let packet = builder.finalize();
    let after = mp_game_net::unix_timestamp();
    assert!(before > 1_600_000_000);
    assert!(before <= packet.timestamp() && packet.timestamp() <= after);
}

#[test]
fn with_timestamp_replaces_the_stamp() {
    let mut builder = PacketBuilder::with_stamp(1, 10).with_timestamp(77);
    builder.buf_mut().write_u8(1);
    assert_eq!(builder.finalize().timestamp(), 77);
}

#[test]
fn sequence_number_shares_the_field_with_the_auth_token() {
    let mut builder = PacketBuilder::with_stamp(1, 0).with_sequence_number(0x1234);
    builder.buf_mut().write_u8(1);
    let packet = builder.finalize();
    assert_eq!(packet.sequence_number(), 0x1234);
    assert_eq!(packet.auth_id(), 0x1234);
    assert_eq!(&packet.as_slice()[7..11], &[0x34, 0x12, 0, 0]);

    let mut builder = PacketBuilder::with_stamp(1, 0).with_auth_id(0xAABB0007);
    builder.buf_mut().write_u8(1);
    assert_eq!(builder.finalize().sequence_number(), 7);
}

#[test]
fn buffer_shorter_than_header_is_rejected() {
    assert_eq!(Packet::try_from(vec![]).unwrap_err(), PacketError::TooShort);
    assert_eq!(Packet::try_from(vec![1; 10]).unwrap_err(), PacketError::TooShort);
}

#[test]
fn zero_payload_length_is_rejected() {
    assert_eq!(Packet::try_from(sample(&[])).unwrap_err(), PacketError::EmptyPayload);
    let mut bytes = sample(&[1, 2, 3]);
    bytes[0] = 0;
    assert_eq!(Packet::try_from(bytes).unwrap_err(), PacketError::EmptyPayload);
}

#[test]
fn declared_length_beyond_buffer_is_rejected() {
    let mut bytes = sample(&[1, 2]);
    bytes[0] = 3;
    assert_eq!(Packet::try_from(bytes).unwrap_err(), PacketError::Truncated);
    let mut bytes = sample(&[1, 2]);
    bytes[1] = 1;
    assert_eq!(Packet::try_from(bytes).unwrap_err(), PacketError::Truncated);
}

#[test]
fn complete_packet_is_accepted_with_trailing_bytes() {
    let packet = Packet::try_from(sample(&[1, 2, 3])).unwrap();
    assert_eq!(packet.payload_len(), 3);
    assert_eq!(packet.packet_type(), 7);
    assert_eq!(packet.timestamp(), 1);
    assert_eq!(packet.auth_id(), 9);
    let mut bytes = sample(&[1, 2, 3]);
    bytes.push(0);
    bytes.push(0);
    let packet = Packet::try_from(bytes).unwrap();
    assert_eq!(packet.payload_buf().len(), 3);
    assert_eq!(packet.buf_len(), 16);
}

#[test]
fn parsed_packet_has_nothing_written() {
    let packet = Packet::try_from(sample(&[1])).unwrap();
    assert_eq!(packet.as_slice(), &[] as &[u8]);
    assert_eq!(packet.buf().len(), 12);
}

#[test]
fn length_field_wraps_at_sixteen_bits() {
    let mut builder = PacketBuilder::with_stamp(1, 0);
    builder.buf_mut().write_u8_at(11 + 65535, 1);
    let packet = builder.finalize();
    assert_eq!(packet.buf().len(), 11 + 65536);
    assert_eq!(packet.payload_len(), 0);
    let mut builder = PacketBuilder::with_stamp(1, 0);
    builder.buf_mut().write_u8_at(11 + 65536, 1);
    assert_eq!(builder.finalize().payload_len(), 1);
}

#[test]
fn compressed_packet_expands_to_itself() {
    let mut builder = PacketBuilder::with_stamp(3, 42).with_sequence_number(6);
    for i in 0..40u8 {
        builder.buf_mut().write_u8(i.wrapping_mul(37));
    }
    let packet = builder.finalize();
    let frame = packet.compress().unwrap();
    assert_ne!(frame.as_slice(), packet.as_slice());
    assert_eq!(&frame[0..4], &[0x28, 0xB5, 0x2F, 0xFD]);
    let back = Packet::try_decompress_from_slice(&frame).unwrap();
    assert_eq!(back.buf().get_vec_slice(0, back.buf().len()), packet.as_slice());
    assert_eq!(back.sequence_number(), 6);
}

#[test]
fn frame_that_expands_beyond_twice_its_size_is_malformed() {
    let mut builder = PacketBuilder::with_stamp(3, 42);
    for _ in 0..2000 {
        builder.buf_mut().write_u8(0);
    }
    let frame = builder.finalize().compress().unwrap();
    assert!(frame.len() * 2 < 2011);
    assert_eq!(Packet::try_decompress_from_slice(&frame).unwrap_err(), PacketError::Malformed);
}

#[test]
fn bytes_that_are_no_frame_are_malformed() {
    assert_eq!(
        Packet::try_decompress_from_slice(&[1, 2, 3, 4, 5]).unwrap_err(),
        PacketError::Malformed
    );
}

#[test]
fn frame_of_too_few_bytes_is_too_short() {
    let mut builder = PacketBuilder::with_stamp(3, 42);
    builder.buf_mut().set_offset_pos(5).unwrap();
    let frame = builder.finalize().compress().unwrap();
    assert_eq!(Packet::try_decompress_from_slice(&frame).unwrap_err(), PacketError::TooShort);
}

#[test]
fn outcomes_of_the_codec_are_passed_on() {
    let failure = std::io::Error::new(std::io::ErrorKind::Other, "no");
    assert_eq!(Packet::from_expanded(Err(failure)).unwrap_err(), PacketError::Malformed);
    assert_eq!(Packet::from_expanded(Ok(vec![1, 2])).unwrap_err(), PacketError::TooShort);
    assert!(Packet::from_expanded(Ok(sample(&[1]))).is_ok());
    let failure = std::io::Error::new(std::io::ErrorKind::Other, "no");
    assert_eq!(Packet::from_compressed(Err(failure)).unwrap_err(), PacketError::Malformed);
    assert_eq!(Packet::from_compressed(Ok(vec![1, 2])).unwrap(), vec![1, 2]);
}

#[test]
fn clone_keeps_bytes_and_cursor() {
    let mut builder = PacketBuilder::with_stamp(3, 42);
    builder.buf_mut().write_u8(1);
    let packet = builder.finalize();
    let copy = packet.clone();
    assert_eq!(copy.as_slice(), packet.as_slice());
    let mut changed = packet;
    changed.buf_mut().write_u8_at(11, 9);
    assert_eq!(copy.as_slice()[11], 1);
    assert_eq!(changed.as_slice()[11], 9);
}

#[test]
fn packet_as_text_sets_the_header_apart() {
    let mut bytes = sample(&[0xDE, 0xAD]);
    bytes.push(0x99);
    let packet = Packet::try_from(bytes).unwrap();
    assert_eq!(packet.as_hex_str(), "[14]0x0200070100000009000000 DEAD");
}

#[test]
fn bytes_can_be_taken_as_a_packet_unexamined() {
    let packet = Packet::from(vec![1, 2, 3]);
    assert_eq!(packet.buf_len(), 3);
    assert_eq!(packet.as_slice(), &[] as &[u8]);
    let packet = Packet::new(BitBuffer::from(sample(&[5])));
    assert_eq!(packet.payload_len(), 1);
}
