use mp_game_net::action::Action;
use mp_game_net::buffer::BitBuffer;
use mp_game_net::def::Vector3;
use mp_game_net::events_client::ClientEvent;
use mp_game_net::events_server::ServerEvent;
use mp_game_net::packet::{Packet, PacketError};
use mp_game_net::PacketSerialize;

struct Lcg(u64);

impl Lcg {
    fn next(&mut self) -> u32 {
        self.0 = self.0.wrapping_mul(6364136223846793005).wrapping_add(1442695040888963407);
        (self.0 >> 32) as u32
    }

    fn bytes(&mut self, n: usize) -> Vec<u8> {
        (0..n).map(|_| self.next() as u8).collect()
    }

    fn text(&mut self) -> String {
        let n = (self.next() % 12) as usize;
        (0..n).map(|_| char::from_u32(1 + self.next() % 0x2FF).unwrap_or('?')).collect()
    }

    fn vector(&mut self) -> Vector3 {
        Vector3::new(self.next(), self.next(), self.next())
    }
}

fn expected_fault(bytes: &[u8]) -> Option<PacketError> {
    if bytes.len() < 11 {
        return Some(PacketError::TooShort);
    }
    let declared = bytes[0] as usize + 256 * bytes[1] as usize;
    if declared == 0 {
        Some(PacketError::EmptyPayload)
    } else if bytes.len() < 11 + declared {
        Some(PacketError::Truncated)
    } else {
        None
    }
}

#[test]
fn arbitrary_bytes_are_judged_by_header_and_length_alone() {
    let mut rng = Lcg(1);
    for round in 0..4000 {
        let n = (rng.next() % 40) as usize;
        let mut bytes = rng.bytes(n);
        if bytes.len() >= 2 && round % 2 == 0 {
            bytes[0] %= 32;
            bytes[1] = 0;
        }
        let verdict = Packet::try_from(bytes.clone()).map(|p| p.buf().len());
        match expected_fault(&bytes) {
            Some(fault) => assert_eq!(verdict, Err(fault), "{:?}", bytes),
            None => assert_eq!(verdict, Ok(bytes.len()), "{:?}", bytes),
        }
    }
}

#[test]
fn arbitrary_packets_are_read_without_failing() {
    let mut rng = Lcg(2);
    let mut understood = 0;
    for _ in 0..4000 {
        let n = 1 + (rng.next() % 48) as usize;
        let mut bytes = vec![n as u8, 0, (rng.next() % 6) as u8];
        bytes.extend(rng.bytes(8 + n));
        let packet = Packet::try_from(bytes).unwrap();
        if let Ok(event) = ClientEvent::from_packet(&packet) {
            understood += 1;
            let again = Packet::try_from(event.to_packet().as_slice().to_vec()).unwrap();
            let back = ClientEvent::from_packet(&again).unwrap();
            match (&event, &back) {
                (ClientEvent::Login { name, .. }, _) if name.contains('\0') => {}
                _ => assert_eq!(back, event),
            }
        }
        if let Ok(event) = ServerEvent::from_packet(&packet) {
            understood += 1;
            let again = Packet::try_from(event.to_packet().as_slice().to_vec()).unwrap();
            assert_eq!(ServerEvent::from_packet(&again), Ok(event));
        }
    }
    assert!(understood > 500);
}

#[test]
fn arbitrary_messages_survive_the_wire() {
    let mut rng = Lcg(3);
    for _ in 0..2000 {
        let client = match rng.next() % 4 {
            0 => ClientEvent::Ack { seq_number: rng.next() as u16 },
            1 => ClientEvent::Login { version: rng.next(), name: rng.text() },
            2 => ClientEvent::PerformAction {
                actions: Action::from_bits_retain(rng.next()),
                angles: rng.vector(),
            },
            _ => ClientEvent::Disconnect { reason: rng.text() },
        };
        let sent = client.to_packet_builder().with_auth_id(rng.next()).finalize();
        let frame = sent.compress().unwrap();
        let received = Packet::try_decompress_from_slice(&frame).unwrap();
        assert_eq!(received.auth_id(), sent.auth_id());
        assert_eq!(received.timestamp(), sent.timestamp());
        assert_eq!(ClientEvent::from_packet(&received), Ok(client));

        let server = match rng.next() % 4 {
            0 => ServerEvent::Login { client_index: rng.next(), auth_id: rng.next() },
            1 => ServerEvent::Move {
                client_index: rng.next(),
                position: rng.vector(),
                angles: rng.vector(),
                velocity: rng.vector(),
            },
            2 => ServerEvent::PlayerSpawn {
                client_index: rng.next(),
                name: rng.text(),
                position: rng.vector(),
                angles: rng.vector(),
            },
            _ => ServerEvent::Disconnect { client_index: rng.next(), reason: rng.text() },
        };
        let seq = rng.next() as u16;
        let sent = server.to_packet_builder().with_sequence_number(seq).finalize();
        let frame = sent.compress().unwrap();
        let received = Packet::try_decompress_from_slice(&frame).unwrap();
        assert_eq!(received.sequence_number(), seq);
        assert_eq!(ServerEvent::from_packet(&received), Ok(server));
    }
}

#[test]
fn values_written_anywhere_are_read_back() {
    let mut rng = Lcg(4);
    for _ in 0..2000 {
        let mut buf = BitBuffer::from(rng.bytes((rng.0 % 16) as usize));
        let at = (rng.next() % 24) as usize;
        let before = buf.get_vec_slice(0, buf.len()).to_vec();
        let value = rng.next();
        buf.write_u32_at(at, value);
        assert_eq!(buf.peek_u32_at(at), value);
        assert_eq!(buf.peek_i32_at(at), value as i32);
        assert_eq!(buf.peek_u16_at(at), value as u16);
        assert_eq!(buf.peek_i16_at(at + 2), (value >> 16) as i16);
        assert_eq!(buf.peek_i8_at(at + 3), (value >> 24) as i8);
        assert_eq!(buf.len(), before.len().max(at + 4));
        for (i, b) in before.iter().enumerate() {
            if i < at || i >= at + 4 {
                assert_eq!(buf.peek_u8_at(i), *b);
            }
        }
        for i in before.len()..at {
            assert_eq!(buf.peek_u8_at(i), 0);
        }
        buf.write_i16_at(at, value as i16);
        assert_eq!(buf.peek_i16_at(at), value as i16);
        buf.write_i32_at(at, !value as i32);
        assert_eq!(buf.peek_u32_at(at), !value);
        buf.write_i8_at(at, value as i8);
        assert_eq!(buf.peek_u8_at(at), value as u8);
    }
}
