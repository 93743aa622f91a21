use mp_game_net::events_client::ClientEvent;
use mp_game_net::events_server::ServerEvent;
use mp_game_net::netstat::{NetContainer, NetStat};
use mp_game_net::network::{PeerAddr, ReliableQueue};
use mp_game_net::packet::{Packet, PacketBuilder, PacketError};
use mp_game_net::transport::{
    client_accept, client_receive, outbound_frame, server_accept, server_receive, ReceiveFault,
    ACK_BURST, ACK_BURST_SPACING, READ_TIMEOUT,
};
use mp_game_net::{EventError, PacketSerialize};

fn remote(n: u16) -> PeerAddr {
    PeerAddr::V6 { ip: 1, port: n, flowinfo: 0, scope_id: 0 }
}

fn granted() -> ServerEvent {
    ServerEvent::Login { client_index: 2, auth_id: 0xFEED }
}

fn frame(packet: &Packet) -> Vec<u8> {
    packet.compress().unwrap()
}

fn parsed(packet: &Packet) -> Result<Packet, PacketError> {
    Packet::try_from(packet.as_slice().to_vec())
}

#[test]
fn acknowledgments_come_in_a_burst_of_three() {
    assert_eq!(ACK_BURST, 3);
    assert_eq!(ACK_BURST_SPACING, 20);
    assert_eq!(READ_TIMEOUT, 1000);
}

#[test]
fn server_hands_messages_to_the_inbound_queue() {
    let mut queue = ReliableQueue::new();
    let mut stat = NetStat::new();
    let sent = ClientEvent::Disconnect { reason: "bye".into() }.to_packet();
    let r = server_receive(&mut queue, &mut stat, &frame(&sent), remote(1), 500);
    let (packet, event) = r.message.unwrap();
    assert_eq!(event, ClientEvent::Disconnect { reason: "bye".into() });
    assert_eq!(packet.buf().get_vec_slice(0, packet.buf().len()), sent.as_slice());
    assert!(r.fault.is_none());
    assert!(r.resend.is_none());
    assert_eq!(stat.pk_count(), NetContainer { tx: 0, rx: 1 });
    assert_eq!(stat.activity_time(), NetContainer { tx: None, rx: Some(500) });
}

#[test]
fn server_consumes_acknowledgments() {
    let mut queue = ReliableQueue::new();
    let mut stat = NetStat::new();
    queue.add_event(remote(1), granted(), 0);
    queue.add_event(remote(1), granted(), 0);
    let ack = |n| frame(&ClientEvent::Ack { seq_number: n }.to_packet());

    let r = server_receive(&mut queue, &mut stat, &ack(2), remote(1), 10);
    assert!(r.message.is_none() && r.fault.is_none() && r.resend.is_none());
    assert_eq!(queue.count(remote(1)), Some(2));

    let r = server_receive(&mut queue, &mut stat, &ack(1), remote(2), 10);
    assert!(r.message.is_none() && r.fault.is_none());
    assert_eq!(queue.count(remote(1)), Some(2));

    let r = server_receive(&mut queue, &mut stat, &ack(1), remote(1), 10);
    assert!(r.message.is_none() && r.fault.is_none() && r.resend.is_none());
    assert_eq!(queue.count(remote(1)), Some(1));
    assert_eq!(queue.front(remote(1)).unwrap().seq_id, 2);
    assert_eq!(stat.pk_count().rx, 3);
}

#[test]
fn server_resends_what_is_due_to_the_source_of_a_datagram() {
    let mut queue = ReliableQueue::new();
    let mut stat = NetStat::new();
    let first = queue.add_event(remote(1), granted(), 0);
    queue.add_event(remote(1), granted(), 0);
    queue.add_event(remote(2), granted(), 0);
    let hello = frame(&ClientEvent::Login { version: 0, name: "x".into() }.to_packet());

    let r = server_receive(&mut queue, &mut stat, &hello, remote(1), 50);
    assert!(r.resend.is_none());
    let r = server_receive(&mut queue, &mut stat, &hello, remote(1), 51);
    assert_eq!(r.resend.unwrap().as_slice(), first.packet.as_slice());
    assert!(r.message.is_some());
    assert_eq!(queue.front(remote(1)).unwrap().sent_time, 51);
    assert_eq!(queue.front(remote(2)).unwrap().sent_time, 0);
    let r = server_receive(&mut queue, &mut stat, &hello, remote(1), 52);
    assert!(r.resend.is_none());

    let r = server_receive(&mut queue, &mut stat, &[], remote(1), 200);
    assert_eq!(r.resend.unwrap().as_slice(), first.packet.as_slice());
    assert!(r.message.is_none() && r.fault.is_none());
    assert_eq!(stat.pk_count().rx, 3);
    assert_eq!(stat.activity_time().rx, Some(200));
}

#[test]
fn acknowledgment_makes_the_next_message_the_one_to_resend() {
    let mut queue = ReliableQueue::new();
    let mut stat = NetStat::new();
    queue.add_event(remote(1), granted(), 0);
    let second = queue.add_event(remote(1), granted(), 0);
    let ack = frame(&ClientEvent::Ack { seq_number: 1 }.to_packet());
    let r = server_receive(&mut queue, &mut stat, &ack, remote(1), 100);
    assert_eq!(r.resend.unwrap().as_slice(), second.packet.as_slice());
    assert_eq!(queue.count(remote(1)), Some(1));
}

#[test]
fn server_drops_what_is_no_packet_without_looking_at_the_queue() {
    let mut queue = ReliableQueue::new();
    let mut stat = NetStat::new();
    queue.add_event(remote(1), granted(), 0);
    let r = server_receive(&mut queue, &mut stat, &[1, 2, 3], remote(1), 1000);
    assert_eq!(r.fault, Some(ReceiveFault::Packet(PacketError::Malformed)));
    assert!(r.message.is_none() && r.resend.is_none());
    assert_eq!(stat.pk_count().rx, 0);
    assert_eq!(stat.activity_time().rx, Some(1000));
    assert_eq!(queue.front(remote(1)).unwrap().sent_time, 0);

    let r = server_accept(&mut queue, &mut stat, Err(PacketError::Truncated), remote(1), 1000);
    assert_eq!(r.fault, Some(ReceiveFault::Packet(PacketError::Truncated)));
    assert!(r.resend.is_none());
}

#[test]
fn server_drops_what_is_no_message_but_still_resends() {
    let mut queue = ReliableQueue::new();
    let mut stat = NetStat::new();
    queue.add_event(remote(1), granted(), 0);
    let mut odd = PacketBuilder::with_stamp(9, 0);
    odd.buf_mut().write_u8(1);
    let r = server_accept(&mut queue, &mut stat, parsed(&odd.finalize()), remote(1), 1000);
    assert_eq!(r.fault, Some(ReceiveFault::Event(EventError::UnknownType)));
    assert!(r.message.is_none());
    assert!(r.resend.is_some());
    assert_eq!(stat.pk_count().rx, 1);
}

#[test]
fn client_acknowledges_numbered_packets_under_the_token_it_holds() {
    let mut queue = ReliableQueue::new();
    let mut stat = NetStat::new();
    let mut auth = 0u32;
    let entry = queue.add_event(remote(1), granted(), 0);

    let r = client_receive(&mut auth, &mut stat, &frame(&entry.packet), 300);
    assert_eq!(r.event, Some(granted()));
    assert!(r.fault.is_none());
    let ack = Packet::try_from(r.ack.unwrap().as_slice().to_vec()).unwrap();
    assert_eq!(ClientEvent::from_packet(&ack), Ok(ClientEvent::Ack { seq_number: 1 }));
    assert_eq!(ack.auth_id(), 0);
    assert_eq!(auth, 0xFEED);
    assert_eq!(stat.pk_count(), NetContainer { tx: 0, rx: 1 });
    assert_eq!(stat.activity_time().rx, Some(300));

    let gone = ServerEvent::Disconnect { client_index: 1, reason: "x".into() };
    let entry = queue.add_event(remote(1), gone.clone(), 0);
    let r = client_accept(&mut auth, &mut stat, parsed(&entry.packet));
    assert_eq!(r.event, Some(gone));
    let ack = Packet::try_from(r.ack.unwrap().as_slice().to_vec()).unwrap();
    assert_eq!(ClientEvent::from_packet(&ack), Ok(ClientEvent::Ack { seq_number: 2 }));
    assert_eq!(ack.auth_id(), 0xFEED);
    assert_eq!(auth, 0xFEED);
}

#[test]
fn client_does_not_acknowledge_unnumbered_packets() {
    let mut stat = NetStat::new();
    let mut auth = 5u32;
    let r = client_receive(&mut auth, &mut stat, &frame(&granted().to_packet()), 0);
    assert!(r.ack.is_none());
    assert_eq!(r.event, Some(granted()));
    assert_eq!(auth, 0xFEED);
}

#[test]
fn client_drops_bad_datagrams() {
    let mut stat = NetStat::new();
    let mut auth = 5u32;
    let r = client_receive(&mut auth, &mut stat, &[9, 9, 9], 10);
    assert_eq!(r.fault, Some(ReceiveFault::Packet(PacketError::Malformed)));
    assert!(r.ack.is_none() && r.event.is_none());
    assert_eq!(stat.pk_count().rx, 0);

    let r = client_receive(&mut auth, &mut stat, &[], 20);
    assert!(r.fault.is_none() && r.ack.is_none() && r.event.is_none());
    assert_eq!(stat.activity_time().rx, Some(20));

    let mut odd = PacketBuilder::with_stamp(9, 0).with_sequence_number(4);
    odd.buf_mut().write_u8(1);
    let r = client_accept(&mut auth, &mut stat, parsed(&odd.finalize()));
    assert_eq!(r.fault, Some(ReceiveFault::Event(EventError::UnknownType)));
    assert!(r.event.is_none());
    assert!(r.ack.is_some());
    assert_eq!(auth, 5);
    assert_eq!(stat.pk_count().rx, 1);
}

#[test]
fn outbound_packets_are_compressed_and_counted() {
    let mut stat = NetStat::new();
    let packet = granted().to_packet();
    let bytes = outbound_frame(&mut stat, &packet, 700).unwrap();
    assert_eq!(bytes, packet.compress().unwrap());
    assert_eq!(stat.pk_count(), NetContainer { tx: 1, rx: 0 });
    assert_eq!(stat.activity_time(), NetContainer { tx: Some(700), rx: None });
    let back = Packet::try_decompress_from_slice(&bytes).unwrap();
    assert_eq!(ServerEvent::from_packet(&back), Ok(granted()));
}
