//! What the two contexts of a transport decide, apart from the socket itself.
//!
//! The receive context hands every datagram to one of the functions here and
//! acts on what comes back: a message for the inbound queue, a packet to send
//! again, an acknowledgment to send. The send context asks for the frame of
//! each outbound packet.

use crate::client::{carries_from_client, packet_for};
use crate::events_client::{client_event_of, ClientEvent, ClientEventView};
use crate::events_server::{server_event_of, ServerEvent, ServerEventView};
use crate::netstat::{NetContainer, NetDirection, NetStat};
use crate::network::{resend_due, EntryView, PeerAddr, ReliableQueue};
use crate::outbound::queue_in;
use crate::packet::{
    packet_fault, payload_of, sequence_of, type_of, valid_packet, zstd_expanded, zstd_frame,
    Packet, PacketError, COMPRESSION_LEVEL,
};
use crate::{EventError, PacketSerialize};
use vstd::prelude::*;

verus! {

/// How often an acknowledgment is sent, to survive the loss of some copies.
pub const ACK_BURST: usize = 3;

/// Milliseconds between two copies of an acknowledgment.
pub const ACK_BURST_SPACING: u64 = 20;

/// Milliseconds a receive context waits for a datagram before it looks at
/// its stop signal again.
pub const READ_TIMEOUT: u64 = 1000;

/// Why a datagram was dropped.
#[derive(Clone, Copy, Debug, PartialEq, Eq, Structural)]
pub enum ReceiveFault {
    /// It is no packet.
    Packet(PacketError),
    /// It is a packet, but no message.
    Event(EventError),
}

/// What the server's receive context is to do with a datagram.
#[derive(Debug)]
pub struct ServerReceipt {
    /// The message to put on the inbound queue, with the packet it came in.
    pub message: Option<(Packet, ClientEvent)>,
    /// The packet to send to the datagram's source again.
    pub resend: Option<Packet>,
    /// Why the datagram was dropped, if it was.
    pub fault: Option<ReceiveFault>,
}

/// What the client's receive context is to do with a datagram.
#[derive(Debug)]
pub struct ClientReceipt {
    /// The acknowledgment to send, `ACK_BURST` times.
    pub ack: Option<Packet>,
    /// The message to put on the inbound queue.
    pub event: Option<ServerEvent>,
    /// Why the datagram was dropped, if it was.
    pub fault: Option<ReceiveFault>,
}

/// A counter after one more packet; it starts over at its maximum.
pub open spec fn counted(n: u16) -> u16 {
    if n == u16::MAX {
        0
    } else {
        (n + 1) as u16
    }
}

/// What a datagram is read as: the bytes of a valid packet, or the fault.
pub open spec fn parsed_datagram(datagram: Seq<u8>) -> Result<Seq<u8>, PacketError> {
    match zstd_expanded(datagram, (datagram.len() * 2) as usize) {
        Some(bytes) => match packet_fault(bytes) {
            Some(fault) => Err(fault),
            None => Ok(bytes),
        },
        None => Err(PacketError::Malformed),
    }
}

/// The queues after an acknowledgment of `seq` from `addr`: the oldest
/// waiting message of `addr` is gone where it carries that number.
pub open spec fn acknowledged(
    queues: Map<PeerAddr, Seq<EntryView>>,
    addr: PeerAddr,
    seq: u16,
) -> Map<PeerAddr, Seq<EntryView>> {
    if queue_in(queues, addr).len() > 0 && queue_in(queues, addr)[0].seq_id == seq {
        queues.insert(addr, queue_in(queues, addr).drop_first())
    } else {
        queues
    }
}

/// The look at what is due for `addr` at `now`, from `queues` to `after`:
/// the oldest waiting message is handed out unchanged and marked as sent at
/// `now` where its timeout has passed, and nothing happens otherwise.
pub open spec fn resend_step(
    queues: Map<PeerAddr, Seq<EntryView>>,
    after: Map<PeerAddr, Seq<EntryView>>,
    resend: Option<Packet>,
    addr: PeerAddr,
    now: u64,
) -> bool {
    let waiting = queue_in(queues, addr);
    if waiting.len() > 0 && resend_due(waiting[0].sent_time, now) {
        &&& resend is Some
        &&& resend->0@ == waiting[0].bytes
        &&& resend->0.cursor() == waiting[0].cursor
        &&& after == queues.insert(
            addr,
            waiting.update(0, EntryView { sent_time: now, ..waiting[0] }),
        )
    } else {
        &&& resend is None
        &&& after == queues
    }
}

/// What the server makes of a datagram from `addr` that was read as `parsed`.
///
/// A datagram that is no packet, or no message, is dropped. An
/// acknowledgment goes to the queue of `addr` and nowhere else. Any other
/// message is handed out for the inbound queue. Whatever the packet held, the
/// queue of `addr` is then looked at for a message that is due again. Every
/// packet is counted as received.
pub open spec fn server_accepted(
    queues0: Map<PeerAddr, Seq<EntryView>>,
    queues1: Map<PeerAddr, Seq<EntryView>>,
    counts0: NetContainer<u16>,
    counts1: NetContainer<u16>,
    parsed: Result<Seq<u8>, PacketError>,
    addr: PeerAddr,
    now: u64,
    r: ServerReceipt,
) -> bool {
    match parsed {
        Err(fault) => {
            &&& r.fault == Some(ReceiveFault::Packet(fault))
            &&& r.message is None
            &&& r.resend is None
            &&& queues1 == queues0
            &&& counts1 == counts0
        },
        Ok(bytes) => {
            &&& counts1 == (NetContainer { tx: counts0.tx, rx: counted(counts0.rx) })
            &&& match client_event_of(type_of(bytes), payload_of(bytes)) {
                Err(fault) => {
                    &&& r.fault == Some(ReceiveFault::Event(fault))
                    &&& r.message is None
                    &&& resend_step(queues0, queues1, r.resend, addr, now)
                },
                Ok(ClientEventView::Ack { seq_number }) => {
                    &&& r.fault is None
                    &&& r.message is None
                    &&& resend_step(
                        acknowledged(queues0, addr, seq_number),
                        queues1,
                        r.resend,
                        addr,
                        now,
                    )
                },
                Ok(event) => {
                    &&& r.fault is None
                    &&& r.message matches Some((packet, message)) && packet@ == bytes && message@
                        == event
                    &&& resend_step(queues0, queues1, r.resend, addr, now)
                },
            }
        },
    }
}

/// Looks at the queue of `addr` for a message that is due again at `now`.
fn due_again(queue: &mut ReliableQueue, addr: PeerAddr, now: u64) -> (r: Option<Packet>)
    ensures
        final(queue).sequence() == old(queue).sequence(),
        resend_step(old(queue).queues(), final(queue).queues(), r, addr, now),
{
    match queue.next_resend(addr, now) {
        Some(entry) => Some(entry.packet),
        None => None,
    }
}

/// Decides what the server does with a datagram from `addr` that was read as `parsed`.
pub fn server_accept(
    queue: &mut ReliableQueue,
    stat: &mut NetStat,
    parsed: Result<Packet, PacketError>,
    addr: PeerAddr,
    now: u64,
) -> (r: ServerReceipt)
    requires
        parsed is Ok ==> valid_packet(parsed->Ok_0@),
    ensures
        final(queue).sequence() == old(queue).sequence(),
        final(stat).last_activity() == old(stat).last_activity(),
        server_accepted(
            old(queue).queues(),
            final(queue).queues(),
            old(stat).counts(),
            final(stat).counts(),
            match parsed {
                Ok(packet) => Ok(packet@),
                Err(fault) => Err(fault),
            },
            addr,
            now,
            r,
        ),
{
    let pk = match parsed {
        Ok(pk) => pk,
        Err(fault) => {
            return ServerReceipt {
                message: None,
                resend: None,
                fault: Some(ReceiveFault::Packet(fault)),
            };
        },
    };
    stat.inc_pk_count(NetDirection::In);
    match ClientEvent::from_packet(&pk) {
        Ok(ClientEvent::Ack { seq_number }) => {
            queue.try_accept_ack(addr, seq_number);
            assert(queue.queues() == acknowledged(old(queue).queues(), addr, seq_number));
            let resend = due_again(queue, addr, now);
            ServerReceipt { message: None, resend, fault: None }
        },
        Ok(event) => {
            let resend = due_again(queue, addr, now);
            ServerReceipt { message: Some((pk, event)), resend, fault: None }
        },
        Err(fault) => {
            let resend = due_again(queue, addr, now);
            ServerReceipt { message: None, resend, fault: Some(ReceiveFault::Event(fault)) }
        },
    }
}

/// Decides what the server does with a datagram that arrived from `addr` at
/// `now`. The arrival is recorded as activity. An empty datagram only has
/// the queue of `addr` looked at for a message that is due again.
pub fn server_receive(
    queue: &mut ReliableQueue,
    stat: &mut NetStat,
    datagram: &[u8],
    addr: PeerAddr,
    now: u64,
) -> (r: ServerReceipt)
    requires
        datagram@.len() * 2 <= usize::MAX,
    ensures
        final(queue).sequence() == old(queue).sequence(),
        final(stat).last_activity() == (NetContainer {
            tx: old(stat).last_activity().tx,
            rx: Some(now),
        }),
        if datagram@.len() == 0 {
            &&& r.fault is None
            &&& r.message is None
            &&& final(stat).counts() == old(stat).counts()
            &&& resend_step(old(queue).queues(), final(queue).queues(), r.resend, addr, now)
        } else {
            server_accepted(
                old(queue).queues(),
                final(queue).queues(),
                old(stat).counts(),
                final(stat).counts(),
                parsed_datagram(datagram@),
                addr,
                now,
                r,
            )
        },
{
    stat.mark_activity(NetDirection::In, now);
    if datagram.len() == 0 {
        let resend = due_again(queue, addr, now);
        return ServerReceipt { message: None, resend, fault: None };
    }
    let parsed = Packet::try_decompress_from_slice(datagram);
    server_accept(queue, stat, parsed, addr, now)
}

/// What the client makes of a datagram that was read as `parsed`, while it
/// holds the auth token `auth0`.
///
/// A datagram that is no packet is dropped. A packet with a sequence number
/// is acknowledged under the token held on arrival. A `Login` then replaces
/// the token. Every message is handed out for the inbound queue, and every
/// packet is counted as received.
pub open spec fn client_accepted(
    auth0: u32,
    auth1: u32,
    counts0: NetContainer<u16>,
    counts1: NetContainer<u16>,
    parsed: Result<Seq<u8>, PacketError>,
    r: ClientReceipt,
) -> bool {
    match parsed {
        Err(fault) => {
            &&& r.fault == Some(ReceiveFault::Packet(fault))
            &&& r.ack is None
            &&& r.event is None
            &&& auth1 == auth0
            &&& counts1 == counts0
        },
        Ok(bytes) => {
            &&& counts1 == (NetContainer { tx: counts0.tx, rx: counted(counts0.rx) })
            &&& if sequence_of(bytes) != 0 {
                &&& r.ack is Some
                &&& carries_from_client(
                    r.ack->0@,
                    ClientEventView::Ack { seq_number: sequence_of(bytes) },
                    auth0,
                )
                &&& r.ack->0.cursor() == r.ack->0@.len()
            } else {
                r.ack is None
            }
            &&& match server_event_of(type_of(bytes), payload_of(bytes)) {
                Err(fault) => {
                    &&& r.fault == Some(ReceiveFault::Event(fault))
                    &&& r.event is None
                    &&& auth1 == auth0
                },
                Ok(event) => {
                    &&& r.fault is None
                    &&& r.event is Some
                    &&& r.event->0@ == event
                    &&& auth1 == match event {
                        ServerEventView::Login { auth_id, .. } => auth_id,
                        _ => auth0,
                    }
                },
            }
        },
    }
}

/// Decides what the client does with a datagram that was read as `parsed`.
/// `current_auth_id` is the token the receive context holds for its
/// acknowledgments.
pub fn client_accept(
    current_auth_id: &mut u32,
    stat: &mut NetStat,
    parsed: Result<Packet, PacketError>,
) -> (r: ClientReceipt)
    requires
        parsed is Ok ==> valid_packet(parsed->Ok_0@),
    ensures
        final(stat).last_activity() == old(stat).last_activity(),
        client_accepted(
            *old(current_auth_id),
            *final(current_auth_id),
            old(stat).counts(),
            final(stat).counts(),
            match parsed {
                Ok(packet) => Ok(packet@),
                Err(fault) => Err(fault),
            },
            r,
        ),
{
    let pk = match parsed {
        Ok(pk) => pk,
        Err(fault) => {
            return ClientReceipt {
                ack: None,
                event: None,
                fault: Some(ReceiveFault::Packet(fault)),
            };
        },
    };
    stat.inc_pk_count(NetDirection::In);
    let seq_num: u16 = pk.sequence_number();
    let ack: Option<Packet> = if seq_num > 0 {
        let event = ClientEvent::Ack { seq_number: seq_num };
        Some(packet_for(&event, *current_auth_id))
    } else {
        None
    };
    match ServerEvent::from_packet(&pk) {
        Ok(event) => {
            if let ServerEvent::Login { auth_id, .. } = &event {
                *current_auth_id = *auth_id;
            }
            ClientReceipt { ack, event: Some(event), fault: None }
        },
        Err(fault) => ClientReceipt { ack, event: None, fault: Some(ReceiveFault::Event(fault)) },
    }
}

/// Decides what the client does with a datagram that arrived at `now`. The
/// arrival is recorded as activity; an empty datagram does nothing more.
pub fn client_receive(
    current_auth_id: &mut u32,
    stat: &mut NetStat,
    datagram: &[u8],
    now: u64,
) -> (r: ClientReceipt)
    requires
        datagram@.len() * 2 <= usize::MAX,
    ensures
        final(stat).last_activity() == (NetContainer {
            tx: old(stat).last_activity().tx,
            rx: Some(now),
        }),
        if datagram@.len() == 0 {
            &&& r.fault is None
            &&& r.ack is None
            &&& r.event is None
            &&& final(stat).counts() == old(stat).counts()
            &&& *final(current_auth_id) == *old(current_auth_id)
        } else {
            client_accepted(
                *old(current_auth_id),
                *final(current_auth_id),
                old(stat).counts(),
                final(stat).counts(),
                parsed_datagram(datagram@),
                r,
            )
        },
{
    stat.mark_activity(NetDirection::In, now);
    if datagram.len() == 0 {
        return ClientReceipt { ack: None, event: None, fault: None };
    }
    let parsed = Packet::try_decompress_from_slice(datagram);
    client_accept(current_auth_id, stat, parsed)
}

/// The frame to write to the socket for `packet`, in the send context. The
/// attempt is recorded as activity at `now`, and a frame that could be made is
/// counted as sent.
pub fn outbound_frame(stat: &mut NetStat, packet: &Packet, now: u64) -> (r: Result<
    Vec<u8>,
    PacketError,
>)
    requires
        packet.cursor() <= packet@.len(),
    ensures
        final(stat).last_activity() == (NetContainer {
            tx: Some(now),
            rx: old(stat).last_activity().rx,
        }),
        match zstd_frame(packet@.subrange(0, packet.cursor()), COMPRESSION_LEVEL) {
            Some(frame) => {
                &&& r is Ok
                &&& r->Ok_0@ == frame
                &&& final(stat).counts() == (NetContainer {
                    tx: counted(old(stat).counts().tx),
                    rx: old(stat).counts().rx,
                })
            },
            None => {
                &&& r == Err::<Vec<u8>, PacketError>(PacketError::Malformed)
                &&& final(stat).counts() == old(stat).counts()
            },
        },
{
    stat.mark_activity(NetDirection::Out, now);
    let r = packet.compress();
    if r.is_ok() {
        stat.inc_pk_count(NetDirection::Out);
    }
    r
}

} // verus!
