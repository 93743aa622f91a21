//! What the server hands to its transport: packets with their destinations.
//!
//! The decisions of the server never touch a socket. They append what is to be
//! sent to a list, in order, and the transport sends the list.

use crate::events_server::{ServerEvent, ServerEventView};
use crate::network::{next_sequence, EntryView, PeerAddr, ReliableQueue};
use crate::packet::{header_bytes, length_field, timestamp_of, Packet, PACKET_HEADER_SIZE};
use crate::PacketSerialize;
use vstd::prelude::*;

verus! {

/// A packet for the transport to send.
#[derive(Debug)]
pub enum OutPacket {
    /// To one destination.
    Single(Packet, PeerAddr),
    /// The same bytes to several destinations.
    Multiple(Packet, Vec<PeerAddr>),
}

/// What a packet for the transport amounts to.
pub ghost struct OutView {
    pub bytes: Seq<u8>,
    pub cursor: int,
    pub dests: Seq<PeerAddr>,
}

impl View for OutPacket {
    type V = OutView;

    open spec fn view(&self) -> OutView {
        match self {
            OutPacket::Single(packet, addr) => OutView {
                bytes: packet@,
                cursor: packet.cursor(),
                dests: seq![*addr],
            },
            OutPacket::Multiple(packet, addrs) => OutView {
                bytes: packet@,
                cursor: packet.cursor(),
                dests: addrs@,
            },
        }
    }
}

/// One message for one destination.
pub ghost struct Send {
    pub event: ServerEventView,
    pub dest: PeerAddr,
}

/// `event` for each of `dests`, in their order.
pub open spec fn fanout(event: ServerEventView, dests: Seq<PeerAddr>) -> Seq<Send> {
    Seq::new(dests.len(), |k: int| Send { event, dest: dests[k] })
}

/// `bytes` are the closed packet of `event` with `seq` in the shared field,
/// whatever its timestamp.
pub open spec fn carries(bytes: Seq<u8>, event: ServerEventView, seq: u16) -> bool {
    bytes == header_bytes(
        length_field(event.payload().len() as int),
        event.tag(),
        timestamp_of(bytes),
        seq as u32,
    ) + event.payload()
}

/// `out` sends the message of `send` to its destination under sequence
/// number `seq`, the whole packet being written.
pub open spec fn sends_one(out: OutView, send: Send, seq: u16) -> bool {
    &&& out.dests == seq![send.dest]
    &&& carries(out.bytes, send.event, seq)
    &&& out.cursor == out.bytes.len()
}

/// The sequence number reached from `seq` after `k` further messages.
pub open spec fn nth_sequence(seq: u16, k: nat) -> u16
    decreases k,
{
    if k == 0 {
        seq
    } else {
        next_sequence(nth_sequence(seq, (k - 1) as nat))
    }
}

/// The packets of `out` from position `from` on send `plan` in order, each
/// without a sequence number.
pub open spec fn sent_plainly(out: Seq<OutPacket>, from: int, plan: Seq<Send>) -> bool {
    &&& out.len() == from + plan.len()
    &&& forall|j: int| from <= j < out.len() ==> sends_one((#[trigger] out[j])@, plan[j - from], 0)
}

/// The packets of `out` from position `from` on send `plan` in order, each
/// under the next sequence number after `seq`.
pub open spec fn sent_reliably(out: Seq<OutPacket>, from: int, plan: Seq<Send>, seq: u16) -> bool {
    &&& out.len() == from + plan.len()
    &&& forall|j: int|
        from <= j < out.len() ==> sends_one(
            (#[trigger] out[j])@,
            plan[j - from],
            nth_sequence(seq, (j - from + 1) as nat),
        )
}

/// The queue of `addr` in `queues`, empty where it has none.
pub open spec fn queue_in(queues: Map<PeerAddr, Seq<EntryView>>, addr: PeerAddr) -> Seq<
    EntryView,
> {
    if queues.dom().contains(addr) {
        queues[addr]
    } else {
        Seq::empty()
    }
}

/// `queues` after the packet `out`, numbered `seq` and sent at `now`, has
/// joined the queue of its destination.
pub open spec fn enqueued(
    queues: Map<PeerAddr, Seq<EntryView>>,
    out: OutView,
    seq: u16,
    now: u64,
) -> Map<PeerAddr, Seq<EntryView>> {
    queues.insert(
        out.dests[0],
        queue_in(queues, out.dests[0]).push(
            EntryView { seq_id: seq, bytes: out.bytes, cursor: out.cursor, sent_time: now },
        ),
    )
}

/// `before` after the packets of `out` from position `from` on have joined
/// the queues of their destinations, in order, numbered after `seq`.
pub open spec fn queues_after(
    before: Map<PeerAddr, Seq<EntryView>>,
    out: Seq<OutPacket>,
    from: int,
    seq: u16,
    now: u64,
) -> Map<PeerAddr, Seq<EntryView>>
    decreases out.len() - from,
{
    if out.len() <= from || from < 0 {
        before
    } else {
        enqueued(
            queues_after(before, out.drop_last(), from, seq, now),
            out.last()@,
            nth_sequence(seq, (out.len() - from) as nat),
            now,
        )
    }
}

/// Sending `plan` under consecutive sequence numbers: the list of packets
/// grows by one packet per message, numbered after `seq0` up to `seq1`.
pub open spec fn numbered_batch(
    out0: Seq<OutPacket>,
    seq0: u16,
    out1: Seq<OutPacket>,
    seq1: u16,
    plan: Seq<Send>,
) -> bool {
    &&& out1.take(out0.len() as int) == out0
    &&& sent_reliably(out1, out0.len() as int, plan, seq0)
    &&& seq1 == nth_sequence(seq0, plan.len())
}

/// Everything that sending `plan` reliably at `now` does: the list of
/// packets grows by one packet per message, the messages are numbered
/// consecutively, and each packet waits in the queue of its destination.
pub open spec fn reliable_batch(
    out0: Seq<OutPacket>,
    queues0: Map<PeerAddr, Seq<EntryView>>,
    seq0: u16,
    out1: Seq<OutPacket>,
    queues1: Map<PeerAddr, Seq<EntryView>>,
    seq1: u16,
    plan: Seq<Send>,
    now: u64,
) -> bool {
    &&& out1.take(out0.len() as int) == out0
    &&& sent_reliably(out1, out0.len() as int, plan, seq0)
    &&& seq1 == nth_sequence(seq0, plan.len())
    &&& queues1 == queues_after(queues0, out1, out0.len() as int, seq0, now)
}

/// Everything that sending `plan` without acknowledgment does: the list of
/// packets grows by one packet per message.
pub open spec fn plain_batch(out0: Seq<OutPacket>, out1: Seq<OutPacket>, plan: Seq<Send>) -> bool {
    &&& out1.take(out0.len() as int) == out0
    &&& sent_plainly(out1, out0.len() as int, plan)
}

/// Counting on by `a` and then by `b` is counting on by `a + b`.
pub proof fn lemma_nth_sequence_add(seq: u16, a: nat, b: nat)
    ensures
        nth_sequence(nth_sequence(seq, a), b) == nth_sequence(seq, a + b),
    decreases b,
{
    if b > 0 {
        lemma_nth_sequence_add(seq, a, (b - 1) as nat);
    }
}

/// No message is ever numbered zero.
pub proof fn lemma_nth_sequence_not_zero(seq: u16, k: nat)
    requires
        k > 0,
    ensures
        nth_sequence(seq, k) != 0,
{
}

/// Sending nothing is a batch.
pub proof fn lemma_batch_empty(
    out: Seq<OutPacket>,
    queues: Map<PeerAddr, Seq<EntryView>>,
    seq: u16,
    now: u64,
)
    ensures
        reliable_batch(out, queues, seq, out, queues, seq, Seq::<Send>::empty(), now),
        plain_batch(out, out, Seq::<Send>::empty()),
{
    assert(out.take(out.len() as int) =~= out);
}

/// A batch followed by one more reliable message is a batch.
pub proof fn lemma_batch_one_more(
    out0: Seq<OutPacket>,
    queues0: Map<PeerAddr, Seq<EntryView>>,
    seq0: u16,
    out1: Seq<OutPacket>,
    queues1: Map<PeerAddr, Seq<EntryView>>,
    seq1: u16,
    plan: Seq<Send>,
    now: u64,
    packet: OutPacket,
    send: Send,
)
    requires
        reliable_batch(out0, queues0, seq0, out1, queues1, seq1, plan, now),
        sends_one(packet@, send, next_sequence(seq1)),
    ensures
        reliable_batch(
            out0,
            queues0,
            seq0,
            out1.push(packet),
            enqueued(queues1, packet@, next_sequence(seq1), now),
            next_sequence(seq1),
            plan.push(send),
            now,
        ),
{
    let out2 = out1.push(packet);
    let from = out0.len() as int;
    assert(out2.take(from) =~= out1.take(from));
    assert(out2.drop_last() =~= out1);
    assert forall|j: int| from <= j < out2.len() implies sends_one(
        (#[trigger] out2[j])@,
        plan.push(send)[j - from],
        nth_sequence(seq0, (j - from + 1) as nat),
    ) by {
        if j < out1.len() {
            assert(out2[j] == out1[j]);
        }
    }
}

/// A numbered batch followed by one more numbered message is a numbered batch.
pub proof fn lemma_numbered_one_more(
    out0: Seq<OutPacket>,
    seq0: u16,
    out1: Seq<OutPacket>,
    seq1: u16,
    plan: Seq<Send>,
    packet: OutPacket,
    send: Send,
)
    requires
        numbered_batch(out0, seq0, out1, seq1, plan),
        sends_one(packet@, send, next_sequence(seq1)),
    ensures
        numbered_batch(out0, seq0, out1.push(packet), next_sequence(seq1), plan.push(send)),
{
    let out2 = out1.push(packet);
    let from = out0.len() as int;
    assert(out2.take(from) =~= out1.take(from));
    assert forall|j: int| from <= j < out2.len() implies sends_one(
        (#[trigger] out2[j])@,
        plan.push(send)[j - from],
        nth_sequence(seq0, (j - from + 1) as nat),
    ) by {
        if j < out1.len() {
            assert(out2[j] == out1[j]);
        }
    }
}

/// Two plain batches in a row are one plain batch of both plans.
pub proof fn lemma_plain_concat(
    out0: Seq<OutPacket>,
    out1: Seq<OutPacket>,
    out2: Seq<OutPacket>,
    first: Seq<Send>,
    second: Seq<Send>,
)
    requires
        plain_batch(out0, out1, first),
        plain_batch(out1, out2, second),
    ensures
        plain_batch(out0, out2, first + second),
{
    let n0 = out0.len() as int;
    let n1 = out1.len() as int;
    assert(out2.take(n0) =~= out1.take(n0));
    assert forall|j: int| n0 <= j < out2.len() implies sends_one(
        (#[trigger] out2[j])@,
        (first + second)[j - n0],
        0,
    ) by {
        if j < n1 {
            assert(out2[j] == out2.take(n1)[j]);
            assert(out2[j] == out1[j]);
        }
    }
}

/// A batch followed by one more plain message is a batch.
pub proof fn lemma_plain_one_more(
    out0: Seq<OutPacket>,
    out1: Seq<OutPacket>,
    plan: Seq<Send>,
    packet: OutPacket,
    send: Send,
)
    requires
        plain_batch(out0, out1, plan),
        sends_one(packet@, send, 0),
    ensures
        plain_batch(out0, out1.push(packet), plan.push(send)),
{
    let out2 = out1.push(packet);
    let from = out0.len() as int;
    assert(out2.take(from) =~= out1.take(from));
    assert forall|j: int| from <= j < out2.len() implies sends_one(
        (#[trigger] out2[j])@,
        plan.push(send)[j - from],
        0,
    ) by {
        if j < out1.len() {
            assert(out2[j] == out1[j]);
        }
    }
}

/// Queues that grew over a list of packets grew first over its front part
/// and then over the rest.
pub proof fn lemma_queues_after_split(
    before: Map<PeerAddr, Seq<EntryView>>,
    out: Seq<OutPacket>,
    from: int,
    mid: int,
    seq: u16,
    now: u64,
)
    requires
        0 <= from <= mid <= out.len(),
    ensures
        queues_after(before, out, from, seq, now) == queues_after(
            queues_after(before, out.take(mid), from, seq, now),
            out,
            mid,
            nth_sequence(seq, (mid - from) as nat),
            now,
        ),
    decreases out.len() - mid,
{
    if mid == out.len() {
        assert(out.take(mid) =~= out);
    } else {
        let front = out.drop_last();
        lemma_queues_after_split(before, front, from, mid, seq, now);
        assert(front.take(mid) =~= out.take(mid));
        lemma_nth_sequence_add(seq, (mid - from) as nat, (out.len() - mid) as nat);
    }
}

/// Two batches in a row are one batch of both plans.
pub proof fn lemma_batch_concat(
    out0: Seq<OutPacket>,
    queues0: Map<PeerAddr, Seq<EntryView>>,
    seq0: u16,
    out1: Seq<OutPacket>,
    queues1: Map<PeerAddr, Seq<EntryView>>,
    seq1: u16,
    out2: Seq<OutPacket>,
    queues2: Map<PeerAddr, Seq<EntryView>>,
    seq2: u16,
    first: Seq<Send>,
    second: Seq<Send>,
    now: u64,
)
    requires
        reliable_batch(out0, queues0, seq0, out1, queues1, seq1, first, now),
        reliable_batch(out1, queues1, seq1, out2, queues2, seq2, second, now),
    ensures
        reliable_batch(out0, queues0, seq0, out2, queues2, seq2, first + second, now),
{
    let n0 = out0.len() as int;
    let n1 = out1.len() as int;
    assert(out2.take(n0) =~= out1.take(n0));
    lemma_nth_sequence_add(seq0, first.len(), second.len());
    assert forall|j: int| n0 <= j < out2.len() implies sends_one(
        (#[trigger] out2[j])@,
        (first + second)[j - n0],
        nth_sequence(seq0, (j - n0 + 1) as nat),
    ) by {
        if j < n1 {
            assert(out2[j] == out2.take(n1)[j]);
            assert(out2[j] == out1[j]);
        } else {
            lemma_nth_sequence_add(seq0, first.len(), (j - n1 + 1) as nat);
        }
    }
    lemma_queues_after_split(queues0, out2, n0, n1, seq0, now);
}

/// Appends the packet of `event` for `addr`, without a sequence number.
pub fn send_plain(out: &mut Vec<OutPacket>, event: &ServerEvent, addr: PeerAddr)
    requires
        PACKET_HEADER_SIZE + event@.payload().len() <= usize::MAX,
    ensures
        final(out)@ == old(out)@.push(final(out)@.last()),
        sends_one(final(out)@.last()@, Send { event: event@, dest: addr }, 0),
{
    let packet = event.to_packet();
    out.push(OutPacket::Single(packet, addr));
}

/// Takes `event` into the queue of `addr` and appends its packet, numbered
/// with the next sequence number, which comes back.
pub fn send_reliable(
    queue: &mut ReliableQueue,
    out: &mut Vec<OutPacket>,
    event: &ServerEvent,
    addr: PeerAddr,
    now: u64,
) -> (seq: u16)
    requires
        PACKET_HEADER_SIZE + event@.payload().len() <= usize::MAX,
    ensures
        seq == next_sequence(old(queue).sequence()),
        seq != 0,
        final(queue).sequence() == seq,
        final(out)@ == old(out)@.push(final(out)@.last()),
        sends_one(final(out)@.last()@, Send { event: event@, dest: addr }, seq),
        final(queue).queues() == enqueued(old(queue).queues(), final(out)@.last()@, seq, now),
{
    let entry = queue.add_event(addr, event.clone(), now);
    let seq: u16 = entry.seq_id;
    out.push(OutPacket::Single(entry.packet, addr));
    seq
}

} // verus!
