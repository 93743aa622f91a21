//! Acknowledged delivery: for each destination a first-in first-out queue of
//! messages that still wait for their acknowledgment.
//!
//! Acknowledgments are accepted strictly in order. Only the oldest waiting
//! message of a destination can be acknowledged or sent again, so a
//! destination's reliable stream is held back behind that message.

use crate::packet::{
    header_bytes, lemma_header_fields, lemma_patched_header, length_field, timestamp_of, Packet,
    PACKET_HEADER_SIZE,
};
use crate::{PacketSerialize, ACK_TIMEOUT_REPLY};
use std::collections::VecDeque;
use vstd::prelude::*;

verus! {

/// The transport address of a peer, as plain values.
#[allow(inconsistent_fields)]
#[derive(Clone, Copy, Debug, PartialEq, Eq, Structural, Hash)]
pub enum PeerAddr {
    V4 { ip: u32, port: u16 },
    V6 { ip: u128, port: u16, flowinfo: u32, scope_id: u32 },
}

/// A message that waits for its acknowledgment.
#[derive(Debug)]
pub struct ReliableEntry {
    /// Sequence number under which the message was sent; never zero.
    pub seq_id: u16,
    /// The encoded packet, sent again unchanged until it is acknowledged.
    pub packet: Packet,
    /// When the packet was last handed to the transport, in milliseconds.
    pub sent_time: u64,
}

/// What a waiting message amounts to.
pub ghost struct EntryView {
    pub seq_id: u16,
    pub bytes: Seq<u8>,
    pub cursor: int,
    pub sent_time: u64,
}

impl View for ReliableEntry {
    type V = EntryView;

    open spec fn view(&self) -> EntryView {
        EntryView {
            seq_id: self.seq_id,
            bytes: self.packet@,
            cursor: self.packet.cursor(),
            sent_time: self.sent_time,
        }
    }
}

impl Clone for ReliableEntry {
    /// A copy that stands for the same waiting message.
    fn clone(&self) -> (r: Self)
        ensures
            r@ == self@,
    {
        ReliableEntry {
            seq_id: self.seq_id,
            packet: self.packet.clone(),
            sent_time: self.sent_time,
        }
    }
}

/// The sequence number after `seq`: zero is never assigned, so the counter
/// wraps from its maximum to one.
pub open spec fn next_sequence(seq: u16) -> u16 {
    if seq == u16::MAX {
        1
    } else {
        (seq + 1) as u16
    }
}

/// Whether a message last sent at `sent_time` is due to be sent again at `now`.
pub open spec fn resend_due(sent_time: u64, now: u64) -> bool {
    now - sent_time > ACK_TIMEOUT_REPLY
}

struct ClientQueue {
    addr: PeerAddr,
    entries: VecDeque<ReliableEntry>,
}

spec fn entry_views(entries: Seq<ReliableEntry>) -> Seq<EntryView> {
    entries.map_values(|e: ReliableEntry| e@)
}

/// `i` is the first position of `list` that belongs to `addr`.
spec fn first_at(list: Seq<ClientQueue>, addr: PeerAddr, i: int) -> bool {
    &&& 0 <= i < list.len()
    &&& list[i].addr == addr
    &&& forall|j: int| 0 <= j < i ==> (#[trigger] list[j]).addr != addr
}

spec fn holds(list: Seq<ClientQueue>, addr: PeerAddr) -> bool {
    exists|i: int| first_at(list, addr, i)
}

spec fn place(list: Seq<ClientQueue>, addr: PeerAddr) -> int {
    choose|i: int| first_at(list, addr, i)
}

spec fn model(list: Seq<ClientQueue>) -> Map<PeerAddr, Seq<EntryView>> {
    Map::new(
        |a: PeerAddr| holds(list, a),
        |a: PeerAddr| entry_views(list[place(list, a)].entries@),
    )
}

proof fn lemma_place(list: Seq<ClientQueue>, addr: PeerAddr, i: int)
    requires
        first_at(list, addr, i),
    ensures
        holds(list, addr),
        place(list, addr) == i,
{
    let p = place(list, addr);
    assert(first_at(list, addr, p));
    if p < i {
        assert(list[p].addr != addr);
    } else if i < p {
        assert(list[i].addr != addr);
    }
}

/// Changing only the entries at the first position of `addr` changes only
/// the queue of `addr`.
proof fn lemma_changed_in_place(
    before: Seq<ClientQueue>,
    after: Seq<ClientQueue>,
    addr: PeerAddr,
    i: int,
)
    requires
        first_at(before, addr, i),
        after.len() == before.len(),
        after[i].addr == addr,
        forall|k: int| 0 <= k < before.len() && k != i ==> after[k] == before[k],
    ensures
        model(after) == model(before).insert(addr, entry_views(after[i].entries@)),
{
    assert forall|a: PeerAddr, x: int| first_at(before, a, x) == first_at(after, a, x) by {
        if first_at(before, a, x) {
            assert forall|j: int| 0 <= j < x implies (#[trigger] after[j]).addr != a by {
                assert(before[j].addr != a);
            }
        }
        if first_at(after, a, x) {
            assert forall|j: int| 0 <= j < x implies (#[trigger] before[j]).addr != a by {
                assert(after[j].addr != a);
            }
        }
    }
    lemma_place(before, addr, i);
    lemma_place(after, addr, i);
    assert forall|a: PeerAddr| holds(after, a) == (a == addr || holds(before, a)) by {
        if holds(after, a) {
            assert(first_at(before, a, place(after, a)));
        }
        if holds(before, a) {
            assert(first_at(after, a, place(before, a)));
        }
    }
    assert forall|a: PeerAddr| holds(after, a) && a != addr implies model(after)[a] == model(
        before,
    )[a] by {
        let x = place(after, a);
        assert(first_at(after, a, x));
        lemma_place(before, a, x);
    }
    assert(model(after) =~= model(before).insert(addr, entry_views(after[i].entries@)));
}

/// Appending a queue for an address that had none adds that queue.
proof fn lemma_appended(before: Seq<ClientQueue>, fresh: ClientQueue)
    requires
        forall|k: int| 0 <= k < before.len() ==> (#[trigger] before[k]).addr != fresh.addr,
    ensures
        model(before.push(fresh)) == model(before).insert(
            fresh.addr,
            entry_views(fresh.entries@),
        ),
{
    let after = before.push(fresh);
    let addr = fresh.addr;
    let last = before.len() as int;
    assert(first_at(after, addr, last)) by {
        assert forall|j: int| 0 <= j < last implies (#[trigger] after[j]).addr != addr by {
            assert(after[j] == before[j]);
        }
    }
    lemma_place(after, addr, last);
    assert forall|a: PeerAddr, x: int| a != addr implies first_at(before, a, x) == first_at(
        after,
        a,
        x,
    ) by {
        if first_at(before, a, x) {
            assert(after[x] == before[x]);
            assert forall|j: int| 0 <= j < x implies (#[trigger] after[j]).addr != a by {
                assert(after[j] == before[j]);
            }
        }
        if first_at(after, a, x) {
            assert(x < last);
            assert(after[x] == before[x]);
            assert forall|j: int| 0 <= j < x implies (#[trigger] before[j]).addr != a by {
                assert(after[j] == before[j]);
            }
        }
    }
    assert forall|a: PeerAddr| holds(after, a) == (a == addr || holds(before, a)) by {
        if holds(after, a) && a != addr {
            assert(first_at(before, a, place(after, a)));
        }
        if holds(before, a) {
            let x = place(before, a);
            assert(first_at(before, a, x));
            assert(before[x].addr != addr);
            assert(first_at(after, a, x));
        }
    }
    assert forall|a: PeerAddr| holds(after, a) && a != addr implies model(after)[a] == model(
        before,
    )[a] by {
        let x = place(after, a);
        assert(first_at(after, a, x));
        lemma_place(before, a, x);
        assert(after[x] == before[x]);
    }
    assert(model(after) =~= model(before).insert(addr, entry_views(fresh.entries@)));
}

/// Taking out one position that belongs to `addr` leaves every other
/// address with the queue it had.
proof fn lemma_removed(before: Seq<ClientQueue>, i: int)
    requires
        0 <= i < before.len(),
    ensures
        model(before.remove(i)).remove(before[i].addr) == model(before).remove(before[i].addr),
{
    let after = before.remove(i);
    let addr = before[i].addr;
    assert forall|a: PeerAddr| a != addr implies (holds(after, a) == holds(before, a)) && (holds(
        after,
        a,
    ) ==> model(after)[a] == model(before)[a]) by {
        if holds(after, a) {
            let x = place(after, a);
            assert(first_at(after, a, x));
            let bx = if x < i { x } else { x + 1 };
            assert(after[x] == before[bx]);
            assert(first_at(before, a, bx)) by {
                assert forall|j: int| 0 <= j < bx implies (#[trigger] before[j]).addr != a by {
                    if j < i {
                        assert(after[j] == before[j]);
                    } else if j > i {
                        assert(after[j - 1] == before[j]);
                    }
                }
            }
            lemma_place(before, a, bx);
        }
        if holds(before, a) {
            let bx = place(before, a);
            assert(first_at(before, a, bx));
            let x = if bx < i { bx } else { bx - 1 };
            assert(after[x] == before[bx]);
            assert(first_at(after, a, x)) by {
                assert forall|j: int| 0 <= j < x implies (#[trigger] after[j]).addr != a by {
                    if j < i {
                        assert(after[j] == before[j]);
                    } else {
                        assert(after[j] == before[j + 1]);
                    }
                }
            }
            lemma_place(after, a, x);
        }
    }
    assert(model(after).remove(addr) =~= model(before).remove(addr));
}

/// Waiting messages of every destination, and the counter that numbers them.
pub struct ReliableQueue {
    client_queue: Vec<ClientQueue>,
    seq_number: u16,
}

impl ReliableQueue {
    /// The queue of each destination that has one, oldest message first.
    pub closed spec fn queues(&self) -> Map<PeerAddr, Seq<EntryView>> {
        model(self.client_queue@)
    }

    /// The sequence number given out last; zero before the first.
    pub closed spec fn sequence(&self) -> u16 {
        self.seq_number
    }

    /// The queue of `addr`, empty where it has none.
    pub open spec fn queue_of(&self, addr: PeerAddr) -> Seq<EntryView> {
        if self.queues().dom().contains(addr) {
            self.queues()[addr]
        } else {
            Seq::empty()
        }
    }

    /// A manager without any queue, whose first message will carry sequence number 1.
    pub fn new() -> (r: Self)
        ensures
            r.queues() == Map::<PeerAddr, Seq<EntryView>>::empty(),
            r.sequence() == 0,
    {
        let r = Self { client_queue: Vec::new(), seq_number: 0 };
        assert(r.queues() =~= Map::<PeerAddr, Seq<EntryView>>::empty());
        r
    }

    fn find(&self, addr: PeerAddr) -> (r: Option<usize>)
        ensures
            match r {
                Some(i) => first_at(self.client_queue@, addr, i as int) && holds(
                    self.client_queue@,
                    addr,
                ) && place(self.client_queue@, addr) == i,
                None => !holds(self.client_queue@, addr) && forall|k: int|
                    0 <= k < self.client_queue@.len() ==> (#[trigger] self.client_queue@[k]).addr
                        != addr,
            },
    {
        let mut i: usize = 0;
        while i < self.client_queue.len()
            invariant
                i <= self.client_queue@.len(),
                forall|j: int| 0 <= j < i ==> (#[trigger] self.client_queue@[j]).addr != addr,
            decreases self.client_queue@.len() - i,
        {
            if self.client_queue[i].addr == addr {
                proof {
                    lemma_place(self.client_queue@, addr, i as int);
                }
                return Some(i);
            }
            i += 1;
        }
        proof {
            if holds(self.client_queue@, addr) {
                let p = place(self.client_queue@, addr);
                assert(first_at(self.client_queue@, addr, p));
                assert(self.client_queue@[p].addr != addr);
            }
        }
        None
    }

    /// Number of messages waiting for `addr`, or `None` where it has no queue.
    pub fn count(&self, addr: PeerAddr) -> (r: Option<usize>)
        ensures
            r == if self.queues().dom().contains(addr) {
                Some(self.queues()[addr].len() as usize)
            } else {
                None::<usize>
            },
    {
        match self.find(addr) {
            Some(i) => Some(self.client_queue[i].entries.len()),
            None => None,
        }
    }

    /// Forgets the queue of `addr` and everything waiting in it.
    pub fn delete_all(&mut self, addr: PeerAddr)
        ensures
            final(self).queues() == old(self).queues().remove(addr),
            final(self).sequence() == old(self).sequence(),
    {
        let ghost before = self.client_queue@;
        loop
            invariant
                model(self.client_queue@).remove(addr) == model(before).remove(addr),
                self.seq_number == old(self).seq_number,
            ensures
                !holds(self.client_queue@, addr),
            decreases self.client_queue@.len(),
        {
            match self.find(addr) {
                Some(i) => {
                    proof {
                        lemma_removed(self.client_queue@, i as int);
                    }
                    self.client_queue.remove(i);
                },
                None => {
                    break ;
                },
            }
        }
        assert(model(self.client_queue@) =~= model(self.client_queue@).remove(addr));
    }

    /// The sequence number given out last; zero before the first.
    pub fn current_seq_number(&self) -> (n: u16)
        ensures
            n == self.sequence(),
    {
        self.seq_number
    }

    /// Takes `event` into the queue of `addr`: gives it the next sequence
    /// number, encodes it with that number in the header's shared field, and
    /// appends it behind whatever already waits. The entry comes back for its
    /// first transmission.
    pub fn add_event<E: PacketSerialize>(&mut self, addr: PeerAddr, event: E, now: u64) -> (r:
        ReliableEntry)
        requires
            PACKET_HEADER_SIZE + event.wire_payload().len() <= usize::MAX,
        ensures
            final(self).sequence() == next_sequence(old(self).sequence()),
            r@.seq_id == final(self).sequence(),
            r@.seq_id != 0,
            r@.sent_time == now,
            r@.bytes == header_bytes(
                length_field(event.wire_payload().len() as int),
                event.wire_tag(),
                timestamp_of(r@.bytes),
                r@.seq_id as u32,
            ) + event.wire_payload(),
            r@.cursor == r@.bytes.len(),
            final(self).queues() == old(self).queues().insert(
                addr,
                old(self).queue_of(addr).push(r@),
            ),
    {
        let seq: u16 = match self.seq_number.checked_add(1) {
            Some(next) => next,
            None => 1,
        };
        self.seq_number = seq;
        let builder = event.to_packet_builder();
        let ghost ts = timestamp_of(builder@);
        let ghost payload = event.wire_payload();
        let ghost tag = event.wire_tag();
        let ghost n = length_field(payload.len() as int);
        proof {
            lemma_patched_header(u16::MAX, tag, ts, 0, payload, n, ts, seq as u32);
            lemma_patched_header(u16::MAX, tag, ts, seq as u32, payload, n, ts, seq as u32);
            lemma_header_fields(u16::MAX, tag, ts, seq as u32, payload);
            lemma_header_fields(n, tag, ts, seq as u32, payload);
        }
        let packet = builder.with_sequence_number(seq).finalize();
        let entry = ReliableEntry { seq_id: seq, packet, sent_time: now };
        let copy = entry.clone();
        let ghost before = self.client_queue@;
        match self.find(addr) {
            Some(i) => {
                self.client_queue[i].entries.push_back(entry);
                proof {
                    lemma_changed_in_place(before, self.client_queue@, addr, i as int);
                    assert(entry_views(self.client_queue@[i as int].entries@) =~= entry_views(
                        before[i as int].entries@,
                    ).push(copy@));
                }
            },
            None => {
                let mut entries: VecDeque<ReliableEntry> = VecDeque::new();
                entries.push_back(entry);
                let fresh = ClientQueue { addr, entries };
                proof {
                    lemma_appended(before, fresh);
                    assert(entry_views(fresh.entries@) =~= Seq::<EntryView>::empty().push(copy@));
                }
                self.client_queue.push(fresh);
            },
        }
        copy
    }

    /// The oldest message waiting for `addr`, if any.
    pub fn front(&self, addr: PeerAddr) -> (r: Option<&ReliableEntry>)
        ensures
            match r {
                Some(entry) => self.queue_of(addr).len() > 0 && entry@ == self.queue_of(addr)[0],
                None => self.queue_of(addr).len() == 0,
            },
    {
        match self.find(addr) {
            Some(i) => {
                if self.client_queue[i].entries.len() > 0 {
                    Some(&self.client_queue[i].entries[0])
                } else {
                    None
                }
            },
            None => None,
        }
    }

    /// The oldest message waiting for `addr`, where it is due to be sent again
    /// at `now`. Its time of sending is then set to `now`, so that it is due
    /// again only after another timeout. Nothing else changes, and nothing at all
    /// where no message is due.
    pub fn next_resend(&mut self, addr: PeerAddr, now: u64) -> (r: Option<ReliableEntry>)
        ensures
            final(self).sequence() == old(self).sequence(),
            r is Some == (old(self).queue_of(addr).len() > 0 && resend_due(
                old(self).queue_of(addr)[0].sent_time,
                now,
            )),
            match r {
                Some(entry) => {
                    &&& entry@ == (EntryView { sent_time: now, ..old(self).queue_of(addr)[0] })
                    &&& final(self).queues() == old(self).queues().insert(
                        addr,
                        old(self).queue_of(addr).update(0, entry@),
                    )
                },
                None => final(self).queues() == old(self).queues(),
            },
    {
        let ghost before = self.client_queue@;
        match self.find(addr) {
            Some(i) => {
                if self.client_queue[i].entries.len() == 0 {
                    return None;
                }
                let sent: u64 = self.client_queue[i].entries[0].sent_time;
                if now <= sent || now - sent <= ACK_TIMEOUT_REPLY {
                    return None;
                }
                let mut entry = self.client_queue[i].entries.pop_front().unwrap();
                entry.sent_time = now;
                let copy = entry.clone();
                self.client_queue[i].entries.push_front(entry);
                proof {
                    lemma_changed_in_place(before, self.client_queue@, addr, i as int);
                    assert(entry_views(self.client_queue@[i as int].entries@) =~= entry_views(
                        before[i as int].entries@,
                    ).update(0, copy@));
                }
                Some(copy)
            },
            None => None,
        }
    }

    /// Takes the acknowledgment of sequence number `seq_number` from `addr`.
    /// It is accepted, and the oldest waiting message of `addr` leaves its
    /// queue, exactly where that message carries this sequence number. Any
    /// other acknowledgment changes nothing.
    pub fn try_accept_ack(&mut self, addr: PeerAddr, seq_number: u16) -> (accepted: bool)
        ensures
            final(self).sequence() == old(self).sequence(),
            accepted == (old(self).queue_of(addr).len() > 0 && old(self).queue_of(addr)[0].seq_id
                == seq_number),
            accepted ==> final(self).queues() == old(self).queues().insert(
                addr,
                old(self).queue_of(addr).drop_first(),
            ),
            !accepted ==> final(self).queues() == old(self).queues(),
    {
        let ghost before = self.client_queue@;
        match self.find(addr) {
            Some(i) => {
                if self.client_queue[i].entries.len() == 0 {
                    return false;
                }
                if self.client_queue[i].entries[0].seq_id != seq_number {
                    return false;
                }
                self.client_queue[i].entries.pop_front();
                proof {
                    lemma_changed_in_place(before, self.client_queue@, addr, i as int);
                    assert(entry_views(self.client_queue@[i as int].entries@) =~= entry_views(
                        before[i as int].entries@,
                    ).drop_first());
                }
                true
            },
            None => false,
        }
    }
}

} // verus!
