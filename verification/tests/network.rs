use mp_game_net::events_server::ServerEvent;
use mp_game_net::network::{PeerAddr, ReliableQueue};
use mp_game_net::packet::Packet;
use mp_game_net::{PacketSerialize, ACK_TIMEOUT_REPLY};

fn dest(n: u16) -> PeerAddr {
    PeerAddr::V4 { ip: 0x7F000001, port: n }
}

fn login_reply() -> ServerEvent {
    ServerEvent::Login { client_index: 0, auth_id: 99 }
}

#[test]
fn retransmission_timeout_is_fifty_milliseconds() {
    assert_eq!(ACK_TIMEOUT_REPLY, 50);
}

#[test]
fn new_manager_has_no_queue() {
    let queue = ReliableQueue::new();
    assert_eq!(queue.current_seq_number(), 0);
    assert_eq!(queue.count(dest(1)), None);
    assert!(queue.front(dest(1)).is_none());
}

#[test]
fn entries_are_numbered_from_one_across_destinations() {
    let mut queue = ReliableQueue::new();
    let a = queue.add_event(dest(1), login_reply(), 5);
    let b = queue.add_event(dest(2), login_reply(), 6);
    let c = queue.add_event(dest(1), login_reply(), 7);
    assert_eq!((a.seq_id, b.seq_id, c.seq_id), (1, 2, 3));
    assert_eq!(queue.current_seq_number(), 3);
    assert_eq!(queue.count(dest(1)), Some(2));
    assert_eq!(queue.count(dest(2)), Some(1));
    assert_eq!(queue.count(dest(3)), None);
    assert_eq!(a.sent_time, 5);
    assert_eq!(queue.front(dest(1)).unwrap().seq_id, 1);
    assert_eq!(queue.front(dest(2)).unwrap().seq_id, 2);
}

#[test]
fn entry_packet_carries_its_sequence_number() {
    let mut queue = ReliableQueue::new();
    let entry = queue.add_event(dest(1), login_reply(), 0);
    assert_eq!(entry.packet.sequence_number(), 1);
    assert_eq!(entry.packet.packet_type(), 1);
    assert_eq!(entry.packet.payload_len(), 8);
    let parsed = Packet::try_from(entry.packet.as_slice().to_vec()).unwrap();
    assert_eq!(ServerEvent::from_packet(&parsed), Ok(login_reply()));
}

#[test]
fn sequence_wraps_to_one_and_skips_zero() {
    let mut queue = ReliableQueue::new();
    let mut last = 0;
    for _ in 0..65535u32 {
        last = queue.add_event(dest(1), login_reply(), 0).seq_id;
        assert!(queue.try_accept_ack(dest(1), last));
    }
    assert_eq!(last, 65535);
    assert_eq!(queue.add_event(dest(1), login_reply(), 0).seq_id, 1);
    assert_eq!(queue.add_event(dest(1), login_reply(), 0).seq_id, 2);
}

#[test]
fn ack_is_accepted_only_for_the_front_entry() {
    let mut queue = ReliableQueue::new();
    queue.add_event(dest(1), login_reply(), 0);
    queue.add_event(dest(1), login_reply(), 0);
    queue.add_event(dest(2), login_reply(), 0);
    assert!(!queue.try_accept_ack(dest(1), 2));
    assert!(!queue.try_accept_ack(dest(1), 3));
    assert!(!queue.try_accept_ack(dest(1), 0));
    assert!(!queue.try_accept_ack(dest(3), 1));
    assert_eq!(queue.count(dest(1)), Some(2));
    assert!(queue.try_accept_ack(dest(1), 1));
    assert_eq!(queue.count(dest(1)), Some(1));
    assert!(!queue.try_accept_ack(dest(1), 1));
    assert!(queue.try_accept_ack(dest(1), 2));
    assert_eq!(queue.count(dest(1)), Some(0));
    assert!(!queue.try_accept_ack(dest(1), 2));
    assert!(queue.front(dest(1)).is_none());
    assert_eq!(queue.count(dest(2)), Some(1));
    assert_eq!(queue.current_seq_number(), 3);
}

#[test]
fn unacknowledged_message_is_resent_verbatim_until_acknowledged() {
    let mut queue = ReliableQueue::new();
    let entry = queue.add_event(dest(1), login_reply(), 1000);
    assert_eq!(entry.seq_id, 1);
    let sent = entry.packet.as_slice().to_vec();

    assert!(queue.next_resend(dest(1), 1000).is_none());
    assert!(queue.next_resend(dest(1), 1050).is_none());
    assert!(queue.next_resend(dest(2), 2000).is_none());

    let again = queue.next_resend(dest(1), 1051).unwrap();
    assert_eq!(again.seq_id, 1);
    assert_eq!(again.packet.as_slice(), sent.as_slice());
    assert_eq!(again.sent_time, 1051);
    assert_eq!(queue.front(dest(1)).unwrap().sent_time, 1051);

    assert!(queue.next_resend(dest(1), 1101).is_none());
    let again = queue.next_resend(dest(1), 1102).unwrap();
    assert_eq!(again.packet.as_slice(), sent.as_slice());
    assert_eq!(queue.count(dest(1)), Some(1));

    assert!(queue.try_accept_ack(dest(1), 1));
    assert_eq!(queue.count(dest(1)), Some(0));
    assert!(queue.next_resend(dest(1), 9999).is_none());
}

#[test]
fn only_the_front_entry_is_resent() {
    let mut queue = ReliableQueue::new();
    queue.add_event(dest(1), login_reply(), 100);
    queue.add_event(dest(1), login_reply(), 0);
    assert!(queue.next_resend(dest(1), 140).is_none());
    assert_eq!(queue.next_resend(dest(1), 151).unwrap().seq_id, 1);
}

#[test]
fn clock_running_backwards_resends_nothing() {
    let mut queue = ReliableQueue::new();
    queue.add_event(dest(1), login_reply(), 1000);
    assert!(queue.next_resend(dest(1), 10).is_none());
}

#[test]
fn delete_all_forgets_one_destination() {
    let mut queue = ReliableQueue::new();
    queue.add_event(dest(1), login_reply(), 0);
    queue.add_event(dest(2), login_reply(), 0);
    queue.delete_all(dest(1));
    queue.delete_all(dest(3));
    assert_eq!(queue.count(dest(1)), None);
    assert_eq!(queue.count(dest(2)), Some(1));
    assert_eq!(queue.current_seq_number(), 2);
    assert_eq!(queue.add_event(dest(1), login_reply(), 0).seq_id, 3);
    assert_eq!(queue.count(dest(1)), Some(1));
}

#[test]
fn addresses_differ_by_every_part() {
    let mut queue = ReliableQueue::new();
    queue.add_event(PeerAddr::V4 { ip: 1, port: 1 }, login_reply(), 0);
    assert_eq!(queue.count(PeerAddr::V4 { ip: 1, port: 2 }), None);
    assert_eq!(queue.count(PeerAddr::V4 { ip: 2, port: 1 }), None);
    assert_eq!(queue.count(PeerAddr::V6 { ip: 1, port: 1, flowinfo: 0, scope_id: 0 }), None);
    assert_eq!(queue.count(PeerAddr::V4 { ip: 1, port: 1 }), Some(1));
}
