//! Sessions: which peer holds which slot, under which auth token.
//!
//! A session is found by its slot, by its auth token or by its transport
//! address. The table is small and fixed, so every lookup walks the slots in
//! order and takes the first that matches.

use crate::network::PeerAddr;
use crate::netstat::elapsed;
use vstd::prelude::*;

verus! {

/// Milliseconds without an accepted message after which a session has timed out.
pub const CLIENT_DISCONNECT_TIMEOUT: u64 = 60_000;

/// What the server keeps about the peer that holds a slot.
#[derive(Clone, Copy, Debug, PartialEq, Eq, Structural)]
pub struct ClientData {
    /// The token that proves the session's identity.
    pub auth_id: u32,
    /// Where the peer is reached.
    pub addr: PeerAddr,
    /// Timestamp of the last message that was accepted from the peer.
    pub last_timestamp: u32,
    /// When the last message was accepted, in milliseconds.
    pub last_packet_time: u64,
}

/// One of the three keys by which a session is found.
#[derive(Clone, Copy, Debug, PartialEq, Eq, Structural)]
pub enum ClientId {
    AuthId(u32),
    Addr(PeerAddr),
    ClientIndex(u32),
}

/// Whether a message stamped `timestamp` is stale for a session that last
/// accepted one stamped `last`: it is no newer.
pub open spec fn is_stale(timestamp: u32, last: u32) -> bool {
    timestamp <= last
}

impl ClientData {
    /// Whether no message has been accepted for longer than the timeout at `now`.
    pub open spec fn timed_out(self, now: u64) -> bool {
        elapsed(self.last_packet_time, now) > CLIENT_DISCONNECT_TIMEOUT
    }

    /// A session that starts at `now`, with `timestamp` as the newest timestamp seen.
    pub fn new(auth_id: u32, addr: PeerAddr, timestamp: u32, now: u64) -> (c: Self)
        ensures
            c == (ClientData { auth_id, addr, last_timestamp: timestamp, last_packet_time: now }),
    {
        ClientData { auth_id, addr, last_timestamp: timestamp, last_packet_time: now }
    }

    /// Records that a message was accepted at `now`.
    pub fn mark(&mut self, now: u64)
        ensures
            *final(self) == (ClientData { last_packet_time: now, ..*old(self) }),
    {
        self.last_packet_time = now;
    }

    /// Whether no message has been accepted for longer than the timeout at `now`.
    pub fn has_timed_out(&self, now: u64) -> (b: bool)
        ensures
            b == self.timed_out(now),
    {
        now.saturating_sub(self.last_packet_time) > CLIENT_DISCONNECT_TIMEOUT
    }
}

/// Whether the session `client` in slot `slot` is the one that `id` names.
pub open spec fn names(id: ClientId, slot: int, client: ClientData) -> bool {
    match id {
        ClientId::AuthId(auth_id) => client.auth_id == auth_id,
        ClientId::Addr(addr) => client.addr == addr,
        ClientId::ClientIndex(index) => slot == index,
    }
}

/// Whether `slot` is the first slot whose session `id` names.
pub open spec fn first_named(sessions: Seq<Option<ClientData>>, id: ClientId, slot: int) -> bool {
    &&& 0 <= slot < sessions.len()
    &&& sessions[slot] is Some
    &&& names(id, slot, sessions[slot]->0)
    &&& forall|j: int|
        0 <= j < slot ==> !((#[trigger] sessions[j]) is Some && names(id, j, sessions[j]->0))
}

/// The first slot whose session `id` names, if there is one.
pub open spec fn slot_named(sessions: Seq<Option<ClientData>>, id: ClientId) -> Option<int> {
    if exists|slot: int| first_named(sessions, id, slot) {
        Some(choose|slot: int| first_named(sessions, id, slot))
    } else {
        None
    }
}

/// The first slot that `id` names is the only one `slot_named` can give.
pub proof fn lemma_slot_named(sessions: Seq<Option<ClientData>>, id: ClientId, slot: int)
    requires
        first_named(sessions, id, slot),
    ensures
        slot_named(sessions, id) == Some(slot),
{
    let p = choose|p: int| first_named(sessions, id, p);
    assert(first_named(sessions, id, p));
    if p < slot {
        assert(!(sessions[p] is Some && names(id, p, sessions[p]->0)));
    } else if slot < p {
        assert(!(sessions[slot] is Some && names(id, slot, sessions[slot]->0)));
    }
}

/// Where no session is named, `slot_named` gives nothing.
pub proof fn lemma_none_named(sessions: Seq<Option<ClientData>>, id: ClientId)
    requires
        forall|j: int|
            0 <= j < sessions.len() ==> !((#[trigger] sessions[j]) is Some && names(
                id,
                j,
                sessions[j]->0,
            )),
    ensures
        slot_named(sessions, id) is None,
{
    if exists|slot: int| first_named(sessions, id, slot) {
        let p = choose|p: int| first_named(sessions, id, p);
        assert(first_named(sessions, id, p));
        assert(!(sessions[p] is Some && names(id, p, sessions[p]->0)));
    }
}

/// The addresses of the occupied slots, in slot order.
pub open spec fn addr_list(sessions: Seq<Option<ClientData>>) -> Seq<PeerAddr>
    decreases sessions.len(),
{
    if sessions.len() == 0 {
        Seq::empty()
    } else {
        match sessions.last() {
            Some(client) => addr_list(sessions.drop_last()).push(client.addr),
            None => addr_list(sessions.drop_last()),
        }
    }
}

} // verus!
