use mp_game_net::action::{Action, FORWARD, JUMP};
use mp_game_net::def::Vector3;
use mp_game_net::events_client::ClientEvent;
use mp_game_net::events_server::ServerEvent;
use mp_game_net::packet::Packet;
use mp_game_net::{EventError, PacketSerialize};

fn wire(packet: &Packet) -> Packet {
    Packet::try_from(packet.as_slice().to_vec()).unwrap()
}

fn v(x: f32, y: f32, z: f32) -> Vector3 {
    Vector3::new(x.to_bits(), y.to_bits(), z.to_bits())
}

fn raw(tag: u8, payload: &[u8]) -> Packet {
    let mut bytes = vec![payload.len() as u8, 0, tag, 0, 0, 0, 0, 0, 0, 0, 0];
    bytes.extend_from_slice(payload);
    Packet::try_from(bytes).unwrap()
}

#[test]
fn client_tags_are_fixed() {
    assert_eq!(ClientEvent::Ack { seq_number: 1 }.get_packet_type(), 0);
    assert_eq!(ClientEvent::Login { version: 0, name: "a".into() }.get_packet_type(), 1);
    assert_eq!(
        ClientEvent::PerformAction { actions: Action::empty(), angles: Vector3::zero() }
            .get_packet_type(),
        2
    );
    assert_eq!(ClientEvent::Disconnect { reason: "r".into() }.get_packet_type(), 3);
}

#[test]
fn server_tags_and_reliability_are_fixed() {
    let login = ServerEvent::Login { client_index: 0, auth_id: 0 };
    let moved = ServerEvent::Move {
        client_index: 0,
        position: Vector3::zero(),
        angles: Vector3::zero(),
        velocity: Vector3::zero(),
    };
    let spawn = ServerEvent::PlayerSpawn {
        client_index: 0,
        name: "a".into(),
        position: Vector3::zero(),
        angles: Vector3::zero(),
    };
    let gone = ServerEvent::Disconnect { client_index: 0, reason: "r".into() };
    assert_eq!(login.get_packet_type(), 1);
    assert_eq!(moved.get_packet_type(), 2);
    assert_eq!(spawn.get_packet_type(), 3);
    assert_eq!(gone.get_packet_type(), 4);
    assert!(login.is_reliable());
    assert!(!moved.is_reliable());
    assert!(spawn.is_reliable());
    assert!(gone.is_reliable());
}

#[test]
fn every_client_message_survives_the_wire() {
    let events = vec![
        ClientEvent::Ack { seq_number: 0xFFFE },
        ClientEvent::Login { version: 7, name: "Zoë ☃".into() },
        ClientEvent::Login { version: 0, name: String::new() },
        ClientEvent::PerformAction {
            actions: Action::from_bits_retain(FORWARD | JUMP | 0x8000_0000),
            angles: v(1.5, -2.25, f32::NAN),
        },
        ClientEvent::Disconnect { reason: "bye".into() },
    ];
    for event in events {
        let packet = event.to_packet();
        assert_eq!(packet.packet_type(), event.get_packet_type());
        assert_eq!(packet.auth_id(), 0);
        assert_eq!(ClientEvent::from_packet(&wire(&packet)), Ok(event));
    }
}

#[test]
fn every_server_message_survives_the_wire() {
    let events = vec![
        ServerEvent::Login { client_index: 31, auth_id: 0xDEADBEEF },
        ServerEvent::Move {
            client_index: 3,
            position: v(1.0, 2.0, 3.0),
            angles: v(0.5, 0.25, 0.125),
            velocity: v(-1.0, 0.0, 1e10),
        },
        ServerEvent::PlayerSpawn {
            client_index: 4,
            name: "Heavenira".into(),
            position: v(10.0, 20.0, 0.0),
            angles: v(0.0, 0.0, 3.0),
        },
        ServerEvent::Disconnect { client_index: 5, reason: "Timed out".into() },
    ];
    for event in events {
        let packet = event.to_packet();
        assert_eq!(packet.packet_type(), event.get_packet_type());
        assert_eq!(packet.sequence_number(), 0);
        assert_eq!(ServerEvent::from_packet(&wire(&packet)), Ok(event.clone()));
    }
}

#[test]
fn login_payload_is_version_then_name() {
    let packet = ClientEvent::Login { version: 0x01020304, name: "ab".into() }.to_packet();
    assert_eq!(packet.payload_len(), 7);
    assert_eq!(&packet.as_slice()[11..], &[4, 3, 2, 1, b'a', b'b', 0]);
}

#[test]
fn spawn_payload_puts_the_name_last() {
    let packet = ServerEvent::PlayerSpawn {
        client_index: 2,
        name: "x".into(),
        position: Vector3::new(1, 2, 3),
        angles: Vector3::new(4, 5, 6),
    }
    .to_packet();
    assert_eq!(
        &packet.as_slice()[11..],
        &[2, 0, 0, 0, 1, 0, 0, 0, 2, 0, 0, 0, 3, 0, 0, 0, 4, 0, 0, 0, 5, 0, 0, 0, 6, 0, 0, 0, b'x', 0]
    );
}

#[test]
fn builder_carries_placeholder_until_closed() {
    let mut builder = ClientEvent::Ack { seq_number: 9 }.to_packet_builder();
    assert_eq!(builder.buf_mut().peek_u16_at(0), 0xFFFF);
    assert_eq!(builder.buf_mut().offset_pos(), 13);
    assert_eq!(builder.finalize().payload_len(), 2);
}

#[test]
fn name_with_nul_is_cut_short() {
    let event = ClientEvent::Login { version: 0, name: "a\0b".into() };
    assert_eq!(
        ClientEvent::from_packet(&wire(&event.to_packet())),
        Ok(ClientEvent::Login { version: 0, name: "a".into() })
    );
}

#[test]
fn unknown_tags_are_refused() {
    assert_eq!(ClientEvent::from_packet(&raw(4, &[0; 16])), Err(EventError::UnknownType));
    assert_eq!(ServerEvent::from_packet(&raw(0, &[0; 40])), Err(EventError::UnknownType));
    assert_eq!(ServerEvent::from_packet(&raw(5, &[0; 40])), Err(EventError::UnknownType));
}

#[test]
fn short_payloads_are_refused() {
    assert_eq!(ClientEvent::from_packet(&raw(0, &[1])), Err(EventError::Truncated));
    assert_eq!(ClientEvent::from_packet(&raw(1, &[1, 2, 3])), Err(EventError::Truncated));
    assert_eq!(ClientEvent::from_packet(&raw(2, &[0; 15])), Err(EventError::Truncated));
    assert_eq!(ServerEvent::from_packet(&raw(1, &[0; 7])), Err(EventError::Truncated));
    assert_eq!(ServerEvent::from_packet(&raw(2, &[0; 39])), Err(EventError::Truncated));
    assert_eq!(ServerEvent::from_packet(&raw(3, &[0; 27])), Err(EventError::Truncated));
    assert_eq!(ServerEvent::from_packet(&raw(4, &[0; 3])), Err(EventError::Truncated));
}

#[test]
fn strings_without_terminator_are_refused() {
    assert_eq!(
        ClientEvent::from_packet(&raw(1, &[0, 0, 0, 0, b'a'])),
        Err(EventError::MissingTerminator)
    );
    assert_eq!(ClientEvent::from_packet(&raw(3, &[b'a', b'b'])), Err(EventError::MissingTerminator));
    assert_eq!(ServerEvent::from_packet(&raw(3, &[1; 28])), Err(EventError::MissingTerminator));
    assert_eq!(
        ServerEvent::from_packet(&raw(4, &[0, 0, 0, 0, b'a'])),
        Err(EventError::MissingTerminator)
    );
}

#[test]
fn bytes_behind_the_message_are_ignored() {
    assert_eq!(
        ClientEvent::from_packet(&raw(0, &[5, 0, 9, 9])),
        Ok(ClientEvent::Ack { seq_number: 5 })
    );
    assert_eq!(
        ClientEvent::from_packet(&raw(3, &[b'o', b'k', 0, b'x'])),
        Ok(ClientEvent::Disconnect { reason: "ok".into() })
    );
}

#[test]
fn payload_outside_declared_length_is_not_read() {
    let mut bytes = vec![2, 0, 3, 0, 0, 0, 0, 0, 0, 0, 0, b'a', b'b', 0];
    assert_eq!(
        ClientEvent::from_packet(&Packet::try_from(bytes.clone()).unwrap()),
        Err(EventError::MissingTerminator)
    );
    bytes[0] = 3;
    assert_eq!(
        ClientEvent::from_packet(&Packet::try_from(bytes).unwrap()),
        Ok(ClientEvent::Disconnect { reason: "ab".into() })
    );
}

#[test]
fn ordinary_strings_fit_a_message() {
    assert!(mp_game_net::text::fits_message(""));
    assert!(mp_game_net::text::fits_message("a name"));
    assert!(ClientEvent::Login { version: 0, name: "a name".into() }.fits());
    assert!(ClientEvent::Disconnect { reason: "x".repeat(100_000) }.fits());
    assert!(ClientEvent::Ack { seq_number: 1 }.fits());
}

#[test]
fn client_messages_that_must_not_get_lost() {
    assert!(ClientEvent::Login { version: 0, name: "a".into() }.is_reliable());
    assert!(ClientEvent::Disconnect { reason: "a".into() }.is_reliable());
    assert!(!ClientEvent::Ack { seq_number: 1 }.is_reliable());
    assert!(!ClientEvent::PerformAction { actions: Action::empty(), angles: Vector3::zero() }
        .is_reliable());
}
