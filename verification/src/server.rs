//! The authoritative server: what it decides on each message and each tick.
//!
//! Nothing here waits or touches a socket. Every function takes the current
//! time and what has arrived, changes the server's state, and appends what is
//! to be sent to a list. The caller owns the clock, the transport and the loop.

use crate::def::{Vector3, MAX_PLAYERS};
use crate::events_client::{client_event_fits, ClientEvent, ClientEventView};
use crate::events_server::{event_fits, ServerEvent, ServerEventView};
use crate::game::{first_free, occupied, CommonGameInstance, PlayerData};
use crate::netstat::{NetContainer, NetStat};
use crate::network::{next_sequence, PeerAddr, ReliableQueue};
use crate::outbound::{
    fanout, lemma_batch_concat, lemma_batch_empty, lemma_batch_one_more, lemma_numbered_one_more,
    lemma_plain_concat, lemma_plain_one_more, numbered_batch, plain_batch, reliable_batch,
    send_plain, send_reliable, sends_one, OutPacket, Send,
};
use crate::packet::{shared_of, timestamp_of, Packet, PACKET_HEADER_SIZE};
use crate::session::{
    addr_list, is_stale, lemma_none_named, lemma_slot_named, names, slot_named, ClientData,
    ClientId,
};
use crate::text::{lemma_encoding_length, text_fits};
use crate::PACKET_PROTOCOL_VERSION;
use vstd::prelude::*;
use vstd::string::StringExecFns;

verus! {

/// Milliseconds within which socket activity wakes a sleeping server.
pub const WAKE_WINDOW: u64 = 1000;

/// Milliseconds without socket activity after which an empty server may sleep.
pub const IDLE_BEFORE_SLEEP: u64 = 30_000;

/// Milliseconds between two looks at the wake conditions while asleep.
pub const SLEEP_INTERVAL: u64 = 1000;

/// Why the server did not do what it was asked.
#[derive(Clone, Copy, Debug, PartialEq, Eq, Structural)]
pub enum ServerError {
    /// No session goes by the given key.
    ClientNotFound,
    /// A login spoke another protocol revision than the server.
    VersionMismatch { theirs: u32, ours: u32 },
    /// A login found every slot occupied.
    ServerFull,
}

/// What became of a message.
#[derive(Clone, Copy, Debug, PartialEq, Eq, Structural)]
pub enum PacketResponse {
    /// It was accepted and applied.
    Applied,
    /// It was dropped without a trace: stale, unauthenticated or out of place.
    Discarded,
    /// It was refused.
    Error(ServerError),
}

/// The player a login creates in `slot`: at the origin, facing nowhere, idle.
pub open spec fn fresh_player(player: PlayerData, slot: int, name: String) -> bool {
    &&& player.client_index == slot
    &&& player.name == name
    &&& player.position == (Vector3 { x: 0, y: 0, z: 0 })
    &&& player.angles == (Vector3 { x: 0, y: 0, z: 0 })
    &&& player.actions@ == 0
}

/// A 32-bit value from `rand::random`. Nothing is claimed of it: every value
/// may come back.
#[verifier::external_body]
fn random_token() -> u32 {
    rand::random::<u32>()
}

/// The announcements of the players in `players`, in slot order, all for `dest`.
pub open spec fn spawns_for(players: Seq<Option<PlayerData>>, dest: PeerAddr) -> Seq<Send>
    decreases players.len(),
{
    if players.len() == 0 {
        Seq::empty()
    } else {
        match players.last() {
            Some(player) => spawns_for(players.drop_last(), dest).push(
                Send { event: player.spawn_event(), dest },
            ),
            None => spawns_for(players.drop_last(), dest),
        }
    }
}

/// What a successful login sends, in order: the reply with slot and token to
/// the new peer, the announcements of the players that were there before to
/// the new peer, and the announcement of the new player to every session, the
/// new one included.
pub open spec fn login_plan(
    players_before: Seq<Option<PlayerData>>,
    sessions_after: Seq<Option<ClientData>>,
    slot: u32,
    token: u32,
    addr: PeerAddr,
    name: Seq<char>,
) -> Seq<Send> {
    seq![Send { event: ServerEventView::Login { client_index: slot, auth_id: token }, dest: addr }]
        + spawns_for(players_before, addr) + fanout(
        ServerEventView::PlayerSpawn {
            client_index: slot,
            name,
            position: Vector3 { x: 0, y: 0, z: 0 },
            angles: Vector3 { x: 0, y: 0, z: 0 },
        },
        addr_list(sessions_after),
    )
}

/// The slot of the session that a packet from `addr` belongs to: the first
/// session at that address, provided the packet carries its auth token.
pub open spec fn sender_slot(sessions: Seq<Option<ClientData>>, addr: PeerAddr, packet: Seq<u8>) -> Option<
    int,
> {
    match slot_named(sessions, ClientId::Addr(addr)) {
        Some(slot) => if sessions[slot]->0.auth_id == shared_of(packet) {
            Some(slot)
        } else {
            None
        },
        None => None,
    }
}

/// The announcement of a player with a fitting name can be laid out in memory.
pub proof fn lemma_spawn_fits(player: PlayerData)
    requires
        text_fits(player.name@),
    ensures
        event_fits(player.spawn_event()),
{
}

/// A notice of disconnection with a fitting reason can be laid out in memory.
pub proof fn lemma_disconnect_fits(client_index: u32, reason: Seq<char>)
    requires
        text_fits(reason),
    ensures
        event_fits(ServerEventView::Disconnect { client_index, reason }),
{
}

/// Why a session that has timed out is told to go.
pub open spec fn timed_out_text() -> Seq<char> {
    "Timed out"@
}

/// Why every session is told to go when the server shuts down.
pub open spec fn closing_text() -> Seq<char> {
    "Server is closing"@
}

/// The players after each occupied slot `i` has moved to `stepped[i]`.
pub open spec fn moved_players(players: Seq<Option<PlayerData>>, stepped: Seq<Vector3>) -> Seq<
    Option<PlayerData>,
> {
    Seq::new(
        players.len(),
        |i: int|
            match players[i] {
                Some(player) => Some(PlayerData { position: stepped[i], ..player }),
                None => None,
            },
    )
}

/// The message that tells where `player` has moved to.
pub open spec fn move_event(player: PlayerData, to: Vector3) -> ServerEventView {
    ServerEventView::Move {
        client_index: player.client_index,
        position: to,
        angles: player.angles,
        velocity: Vector3 { x: 0, y: 0, z: 0 },
    }
}

/// What a simulation step sends: for each player whose position changed, in
/// slot order, the new position to every destination.
pub open spec fn moves_plan(
    players: Seq<Option<PlayerData>>,
    stepped: Seq<Vector3>,
    dests: Seq<PeerAddr>,
) -> Seq<Send>
    decreases players.len(),
{
    if players.len() == 0 {
        Seq::empty()
    } else {
        let front = moves_plan(players.drop_last(), stepped, dests);
        match players.last() {
            Some(player) => if stepped[players.len() - 1] != player.position {
                front + fanout(move_event(player, stepped[players.len() - 1]), dests)
            } else {
                front
            },
            None => front,
        }
    }
}

/// Whether `session` is one that has timed out at `now`.
pub open spec fn evicted(session: Option<ClientData>, now: u64) -> bool {
    session is Some && session->0.timed_out(now)
}

/// `slots` without what belongs to the sessions that have timed out at `now`.
pub open spec fn surviving<T>(
    slots: Seq<Option<T>>,
    sessions: Seq<Option<ClientData>>,
    now: u64,
) -> Seq<Option<T>> {
    Seq::new(slots.len(), |i: int| if evicted(sessions[i], now) { None } else { slots[i] })
}

/// What the sessions that have timed out at `now` are told, in slot order.
pub open spec fn timeout_notices(sessions: Seq<Option<ClientData>>, now: u64) -> Seq<Send>
    decreases sessions.len(),
{
    if sessions.len() == 0 {
        Seq::empty()
    } else {
        let front = timeout_notices(sessions.drop_last(), now);
        if evicted(sessions.last(), now) {
            front.push(
                Send {
                    event: ServerEventView::Disconnect {
                        client_index: (sessions.len() - 1) as u32,
                        reason: timed_out_text(),
                    },
                    dest: sessions.last()->0.addr,
                },
            )
        } else {
            front
        }
    }
}

/// The addresses of the sessions that have timed out at `now`.
pub open spec fn evicted_addrs(sessions: Seq<Option<ClientData>>, now: u64) -> Set<PeerAddr> {
    Set::new(
        |a: PeerAddr|
            exists|i: int|
                0 <= i < sessions.len() && evicted(#[trigger] sessions[i], now)
                    && sessions[i]->0.addr == a,
    )
}

/// What every session is told when the server shuts down, in slot order.
pub open spec fn closing_notices(sessions: Seq<Option<ClientData>>) -> Seq<Send>
    decreases sessions.len(),
{
    if sessions.len() == 0 {
        Seq::empty()
    } else {
        let front = closing_notices(sessions.drop_last());
        match sessions.last() {
            Some(client) => front.push(
                Send {
                    event: ServerEventView::Disconnect {
                        client_index: (sessions.len() - 1) as u32,
                        reason: closing_text(),
                    },
                    dest: client.addr,
                },
            ),
            None => front,
        }
    }
}

/// What the server reports once per statistics interval.
#[derive(Clone, Copy, Debug, PartialEq, Eq, Structural)]
pub struct TickSummary {
    /// Ticks since the previous report.
    pub ticks: u8,
    /// Packets counted since the previous report.
    pub packets: NetContainer<u16>,
    /// Occupied slots.
    pub clients: usize,
}

fn timed_out_reason() -> (s: String)
    ensures
        s@ == timed_out_text(),
        text_fits(s@),
{
    let s = String::from_str("Timed out");
    proof {
        reveal_strlit("Timed out");
        lemma_encoding_length(s@);
    }
    s
}

fn closing_reason() -> (s: String)
    ensures
        s@ == closing_text(),
        text_fits(s@),
{
    let s = String::from_str("Server is closing");
    proof {
        reveal_strlit("Server is closing");
        lemma_encoding_length(s@);
    }
    s
}

/// The server's sessions, its world and the state of its tick loop.
pub struct GameInstance {
    game: CommonGameInstance,
    client_data: Vec<Option<ClientData>>,
    tick_rate: u8,
    tick_count: u8,
    sleeping: bool,
    shutdown_requested: bool,
}

impl GameInstance {
    /// The player of each slot.
    pub closed spec fn players(&self) -> Seq<Option<PlayerData>> {
        self.game.slots()
    }

    /// The session of each slot.
    pub closed spec fn sessions(&self) -> Seq<Option<ClientData>> {
        self.client_data@
    }

    /// Whether the loop is in its sleeping state.
    pub closed spec fn asleep(&self) -> bool {
        self.sleeping
    }

    /// Ticks per second, and per statistics interval.
    pub closed spec fn rate(&self) -> u8 {
        self.tick_rate
    }

    /// Ticks since the last statistics summary.
    pub closed spec fn ticks(&self) -> u8 {
        self.tick_count
    }

    /// Whether a shutdown has been asked for.
    pub closed spec fn stopping(&self) -> bool {
        self.shutdown_requested
    }

    /// Both tables have `MAX_PLAYERS` slots, a slot holds a session exactly
    /// when it holds a player, every player knows its slot and has a name that
    /// fits a message, and the tick counter stays below the tick rate.
    pub open spec fn wf(&self) -> bool {
        &&& self.players().len() == MAX_PLAYERS
        &&& self.sessions().len() == MAX_PLAYERS
        &&& self.ticks() < self.rate()
        &&& forall|i: int|
            0 <= i < MAX_PLAYERS ==> ((#[trigger] self.sessions()[i]) is Some
                <==> self.players()[i] is Some)
        &&& forall|i: int|
            0 <= i < MAX_PLAYERS && (#[trigger] self.players()[i]) is Some ==> {
                &&& self.players()[i]->0.client_index == i
                &&& text_fits(self.players()[i]->0.name@)
            }
    }

    /// A server without sessions, asleep until something wakes it.
    pub fn new(tick_rate: u8) -> (r: Self)
        requires
            tick_rate > 0,
        ensures
            r.wf(),
            r.rate() == tick_rate,
            r.ticks() == 0,
            r.asleep(),
            !r.stopping(),
            forall|i: int| 0 <= i < MAX_PLAYERS ==> r.sessions()[i] is None,
            forall|i: int| 0 <= i < MAX_PLAYERS ==> r.players()[i] is None,
    {
        let mut client_data: Vec<Option<ClientData>> = Vec::with_capacity(MAX_PLAYERS);
        let mut i: usize = 0;
        while i < MAX_PLAYERS
            invariant
                i <= MAX_PLAYERS,
                client_data@.len() == i,
                forall|j: int| 0 <= j < i ==> client_data@[j] is None,
            decreases MAX_PLAYERS - i,
        {
            client_data.push(None);
            i += 1;
        }
        let game = CommonGameInstance::new();
        Self {
            game,
            client_data,
            tick_rate,
            tick_count: 0,
            sleeping: true,
            shutdown_requested: false,
        }
    }

    /// Milliseconds between two ticks of an awake server.
    pub fn per_tick_millis(&self) -> (ms: u64)
        requires
            self.wf(),
        ensures
            ms == 1000int / (self.rate() as int),
    {
        1000 / self.tick_rate as u64
    }

    /// Whether the loop is in its sleeping state.
    pub fn in_sleep(&self) -> (b: bool)
        ensures
            b == self.asleep(),
    {
        self.sleeping
    }

    /// Enters or leaves the sleeping state.
    fn set_sleep(&mut self, value: bool)
        ensures
            final(self).asleep() == value,
            final(self).players() == old(self).players(),
            final(self).sessions() == old(self).sessions(),
            final(self).rate() == old(self).rate(),
            final(self).ticks() == old(self).ticks(),
            final(self).stopping() == old(self).stopping(),
            old(self).wf() ==> final(self).wf(),
    {
        self.sleeping = value;
    }

    /// Asks for a shutdown.
    pub fn shutdown(&mut self)
        ensures
            final(self).stopping(),
            final(self).asleep() == old(self).asleep(),
            final(self).players() == old(self).players(),
            final(self).sessions() == old(self).sessions(),
            final(self).rate() == old(self).rate(),
            final(self).ticks() == old(self).ticks(),
            old(self).wf() ==> final(self).wf(),
    {
        self.shutdown_requested = true;
    }

    /// Whether a shutdown has been asked for.
    pub fn is_shutdown_requested(&self) -> (b: bool)
        ensures
            b == self.stopping(),
    {
        self.shutdown_requested
    }

    /// Number of occupied slots.
    pub fn player_count(&self) -> (n: usize)
        requires
            self.wf(),
        ensures
            n == occupied(self.players()),
    {
        self.game.player_count()
    }

    /// Looks at the wake conditions of a sleeping server: socket activity within
    /// the wake window before `now`, or an occupied slot. Where one holds the
    /// server wakes. Comes back with whether the server stays asleep.
    pub fn try_sleep(&mut self, stat: &NetStat, now: u64) -> (slept: bool)
        requires
            old(self).wf(),
        ensures
            final(self).wf(),
            slept == (old(self).asleep() && !stat.active_within(WAKE_WINDOW, now) && occupied(
                old(self).players(),
            ) == 0),
            final(self).asleep() == slept,
            final(self).players() == old(self).players(),
            final(self).sessions() == old(self).sessions(),
            final(self).rate() == old(self).rate(),
            final(self).ticks() == old(self).ticks(),
            final(self).stopping() == old(self).stopping(),
    {
        if self.sleeping {
            if stat.has_activity_within(WAKE_WINDOW, now) || self.game.player_count() > 0 {
                self.set_sleep(false);
                return false;
            }
            return true;
        }
        false
    }

    /// The first slot whose session `client_id` names.
    pub fn get_client_index(&self, client_id: &ClientId) -> (r: Option<u32>)
        requires
            self.wf(),
        ensures
            match r {
                Some(slot) => slot_named(self.sessions(), *client_id) == Some(slot as int) && slot
                    < MAX_PLAYERS && self.sessions()[slot as int] is Some,
                None => slot_named(self.sessions(), *client_id) is None,
            },
    {
        let mut i: usize = 0;
        while i < MAX_PLAYERS
            invariant
                i <= MAX_PLAYERS,
                self.client_data@.len() == MAX_PLAYERS,
                forall|j: int|
                    0 <= j < i ==> !((#[trigger] self.client_data@[j]) is Some && names(
                        *client_id,
                        j,
                        self.client_data@[j]->0,
                    )),
            decreases MAX_PLAYERS - i,
        {
            if let Some(client) = &self.client_data[i] {
                let found: bool = match client_id {
                    ClientId::AuthId(auth_id) => *auth_id == client.auth_id,
                    ClientId::ClientIndex(client_index) => *client_index == i as u32,
                    ClientId::Addr(addr) => *addr == client.addr,
                };
                if found {
                    proof {
                        lemma_slot_named(self.client_data@, *client_id, i as int);
                    }
                    return Some(i as u32);
                }
            }
            i += 1;
        }
        proof {
            lemma_none_named(self.client_data@, *client_id);
        }
        None
    }

    /// The first session that `client_id` names, with its slot.
    pub fn get_client(&self, client_id: &ClientId) -> (r: Option<(u32, &ClientData)>)
        requires
            self.wf(),
        ensures
            match r {
                Some((slot, client)) => slot_named(self.sessions(), *client_id) == Some(
                    slot as int,
                ) && slot < MAX_PLAYERS && self.sessions()[slot as int] == Some(*client),
                None => slot_named(self.sessions(), *client_id) is None,
            },
    {
        match self.get_client_index(client_id) {
            Some(slot) => {
                match &self.client_data[slot as usize] {
                    Some(client) => Some((slot, client)),
                    None => None,
                }
            },
            None => None,
        }
    }

    /// The first session that `client_id` names, with the player of its slot.
    pub fn get_client_player(&self, client_id: &ClientId) -> (r: Option<
        (&ClientData, &PlayerData),
    >)
        requires
            self.wf(),
        ensures
            match r {
                Some((client, player)) => {
                    &&& slot_named(self.sessions(), *client_id) is Some
                    &&& self.sessions()[slot_named(self.sessions(), *client_id)->0] == Some(
                        *client,
                    )
                    &&& self.players()[slot_named(self.sessions(), *client_id)->0] == Some(
                        *player,
                    )
                },
                None => slot_named(self.sessions(), *client_id) is None,
            },
    {
        match self.get_client_index(client_id) {
            Some(slot) => {
                match (&self.client_data[slot as usize], self.game.get_player(slot)) {
                    (Some(client), Some(player)) => Some((client, player)),
                    _ => None,
                }
            },
            None => None,
        }
    }

    /// The first session that `client_id` names, with its slot, for changing
    /// it in place.
    pub fn get_client_mut(&mut self, client_id: &ClientId) -> (r: Option<(u32, &mut ClientData)>)
        requires
            old(self).wf(),
        ensures
            match r {
                Some((slot, client)) => {
                    &&& slot_named(old(self).sessions(), *client_id) == Some(slot as int)
                    &&& slot < MAX_PLAYERS
                    &&& old(self).sessions()[slot as int] == Some(*client)
                    &&& final(self).sessions() == old(self).sessions().update(
                        slot as int,
                        Some(*final(client)),
                    )
                },
                None => {
                    &&& slot_named(old(self).sessions(), *client_id) is None
                    &&& final(self).sessions() == old(self).sessions()
                },
            },
            final(self).wf(),
            final(self).players() == old(self).players(),
            final(self).asleep() == old(self).asleep(),
            final(self).rate() == old(self).rate(),
            final(self).ticks() == old(self).ticks(),
            final(self).stopping() == old(self).stopping(),
    {
        match self.get_client_index(client_id) {
            Some(slot) => {
                match &mut self.client_data[slot as usize] {
                    Some(client) => Some((slot, client)),
                    None => None,
                }
            },
            None => None,
        }
    }

    /// The first session that `client_id` names, with the player of its
    /// slot, both for changing in place. A player keeps its slot number and
    /// its name.
    pub fn get_client_player_mut(&mut self, client_id: &ClientId) -> (r: Option<
        (&mut ClientData, &mut PlayerData),
    >)
        requires
            old(self).wf(),
        ensures
            match r {
                Some((client, player)) => {
                    let slot = slot_named(old(self).sessions(), *client_id)->0;
                    &&& slot_named(old(self).sessions(), *client_id) is Some
                    &&& old(self).sessions()[slot] == Some(*client)
                    &&& old(self).players()[slot] == Some(*player)
                    &&& final(self).sessions() == old(self).sessions().update(
                        slot,
                        Some(*final(client)),
                    )
                    &&& final(self).players() == old(self).players().update(
                        slot,
                        Some(*final(player)),
                    )
                },
                None => {
                    &&& slot_named(old(self).sessions(), *client_id) is None
                    &&& final(self).sessions() == old(self).sessions()
                    &&& final(self).players() == old(self).players()
                },
            },
            final(self).asleep() == old(self).asleep(),
            final(self).rate() == old(self).rate(),
            final(self).ticks() == old(self).ticks(),
            final(self).stopping() == old(self).stopping(),
    {
        match self.get_client_index(client_id) {
            Some(slot) => {
                match (&mut self.client_data[slot as usize], self.game.get_player_mut(slot)) {
                    (Some(client), Some(player)) => Some((client, player)),
                    _ => None,
                }
            },
            None => None,
        }
    }

    /// The addresses of all sessions, in slot order.
    pub fn _get_addr_list(&self) -> (r: Vec<PeerAddr>)
        requires
            self.wf(),
        ensures
            r@ == addr_list(self.sessions()),
    {
        let mut list: Vec<PeerAddr> = Vec::new();
        let mut i: usize = 0;
        while i < MAX_PLAYERS
            invariant
                i <= MAX_PLAYERS,
                self.client_data@.len() == MAX_PLAYERS,
                list@ == addr_list(self.client_data@.take(i as int)),
            decreases MAX_PLAYERS - i,
        {
            assert(self.client_data@.take(i + 1).drop_last() =~= self.client_data@.take(i as int));
            if let Some(client) = &self.client_data[i] {
                list.push(client.addr);
            }
            i += 1;
        }
        assert(self.client_data@.take(MAX_PLAYERS as int) =~= self.client_data@);
        list
    }

    /// Gives the first free slot to a peer at `addr`: a session under `token`
    /// that starts at `now`, and a fresh player called `name`. A sleeping
    /// server wakes. Comes back with the slot and the token.
    pub fn setup_player_with(
        &mut self,
        addr: PeerAddr,
        name: String,
        token: u32,
        unix_now: u32,
        now: u64,
    ) -> (r: (u32, u32))
        requires
            old(self).wf(),
            first_free(old(self).players()) is Some,
            text_fits(name@),
        ensures
            final(self).wf(),
            r.0 == first_free(old(self).players())->0,
            r.0 < MAX_PLAYERS,
            r.1 == token,
            final(self).sessions() == old(self).sessions().update(
                r.0 as int,
                Some(
                    ClientData {
                        auth_id: token,
                        addr,
                        last_timestamp: unix_now,
                        last_packet_time: now,
                    },
                ),
            ),
            final(self).players().len() == MAX_PLAYERS,
            forall|i: int|
                0 <= i < MAX_PLAYERS && i != r.0 ==> final(self).players()[i] == old(
                    self,
                ).players()[i],
            final(self).players()[r.0 as int] is Some,
            fresh_player(final(self).players()[r.0 as int]->0, r.0 as int, name),
            !final(self).asleep(),
            final(self).rate() == old(self).rate(),
            final(self).ticks() == old(self).ticks(),
            final(self).stopping() == old(self).stopping(),
    {
        let slot: u32 = match self.game.get_empty_slot() {
            Some(slot) => slot,
            None => 0,
        };
        let player = PlayerData::new(slot, name, Vector3::zero(), Vector3::zero());
        self.game.set_player(slot, Some(player));
        self.client_data[slot as usize] = Some(ClientData::new(token, addr, unix_now, now));
        self.set_sleep(false);
        (slot, token)
    }

    /// Gives the first free slot to a peer at `addr`, under a token drawn at
    /// random. Comes back with the slot and the token.
    pub fn setup_player(&mut self, addr: PeerAddr, name: String, unix_now: u32, now: u64) -> (r: (
        u32,
        u32,
    ))
        requires
            old(self).wf(),
            first_free(old(self).players()) is Some,
            text_fits(name@),
        ensures
            final(self).wf(),
            r.0 == first_free(old(self).players())->0,
            r.0 < MAX_PLAYERS,
            final(self).sessions() == old(self).sessions().update(
                r.0 as int,
                Some(
                    ClientData {
                        auth_id: r.1,
                        addr,
                        last_timestamp: unix_now,
                        last_packet_time: now,
                    },
                ),
            ),
            final(self).players().len() == MAX_PLAYERS,
            forall|i: int|
                0 <= i < MAX_PLAYERS && i != r.0 ==> final(self).players()[i] == old(
                    self,
                ).players()[i],
            final(self).players()[r.0 as int] is Some,
            fresh_player(final(self).players()[r.0 as int]->0, r.0 as int, name),
            !final(self).asleep(),
            final(self).rate() == old(self).rate(),
            final(self).ticks() == old(self).ticks(),
            final(self).stopping() == old(self).stopping(),
    {
        let token: u32 = random_token();
        self.setup_player_with(addr, name, token, unix_now, now)
    }

    /// Tears down the first session that `client_id` names, and the player of
    /// its slot. Nothing changes where no session is named.
    pub fn remove_player(&mut self, client_id: &ClientId) -> (r: Option<u32>)
        requires
            old(self).wf(),
        ensures
            final(self).wf(),
            r == match slot_named(old(self).sessions(), *client_id) {
                Some(slot) => Some(slot as u32),
                None => None::<u32>,
            },
            match r {
                Some(slot) => {
                    &&& slot < MAX_PLAYERS
                    &&& final(self).sessions() == old(self).sessions().update(
                        slot as int,
                        None::<ClientData>,
                    )
                    &&& final(self).players() == old(self).players().update(
                        slot as int,
                        None::<PlayerData>,
                    )
                },
                None => {
                    &&& final(self).sessions() == old(self).sessions()
                    &&& final(self).players() == old(self).players()
                },
            },
            final(self).asleep() == old(self).asleep(),
            final(self).rate() == old(self).rate(),
            final(self).ticks() == old(self).ticks(),
            final(self).stopping() == old(self).stopping(),
    {
        match self.get_client_index(client_id) {
            Some(slot) => {
                self.client_data[slot as usize] = None;
                self.game.set_player(slot, None);
                Some(slot)
            },
            None => None,
        }
    }
    /// Appends the packet of `event` for `addr`, without a sequence number.
    pub fn send_to(&self, out: &mut Vec<OutPacket>, event: &ServerEvent, addr: PeerAddr)
        requires
            event_fits(event@),
        ensures
            plain_batch(old(out)@, final(out)@, seq![Send { event: event@, dest: addr }]),
    {
        let ghost out0 = out@;
        send_plain(out, event, addr);
        proof {
            lemma_batch_empty(out0, Map::empty(), 0, 0);
            lemma_plain_one_more(
                out0,
                out0,
                Seq::empty(),
                out@.last(),
                Send { event: event@, dest: addr },
            );
            assert(Seq::<Send>::empty().push(Send { event: event@, dest: addr }) =~= seq![
                Send { event: event@, dest: addr },
            ]);
        }
    }

    /// Sends `event` reliably to the first session that `client_id` names:
    /// the message joins the queue of the session's address and its packet is
    /// appended. Comes back with the sequence number, or with the news that no
    /// session is named, in which case nothing has changed.
    pub fn send_to_reliable(
        &self,
        queue: &mut ReliableQueue,
        out: &mut Vec<OutPacket>,
        event: ServerEvent,
        client_id: &ClientId,
        now: u64,
    ) -> (r: Result<u16, ServerError>)
        requires
            self.wf(),
            event_fits(event@),
        ensures
            match slot_named(self.sessions(), *client_id) {
                Some(slot) => {
                    &&& r == Ok::<u16, ServerError>(final(queue).sequence())
                    &&& reliable_batch(
                        old(out)@,
                        old(queue).queues(),
                        old(queue).sequence(),
                        final(out)@,
                        final(queue).queues(),
                        final(queue).sequence(),
                        seq![Send { event: event@, dest: self.sessions()[slot]->0.addr }],
                        now,
                    )
                },
                None => {
                    &&& r == Err::<u16, ServerError>(ServerError::ClientNotFound)
                    &&& final(out)@ == old(out)@
                    &&& final(queue).queues() == old(queue).queues()
                    &&& final(queue).sequence() == old(queue).sequence()
                },
            },
    {
        match self.get_client(client_id) {
            Some((_, client)) => {
                let ghost out0 = out@;
                let ghost q0 = queue.queues();
                let ghost s0 = queue.sequence();
                let addr = client.addr;
                let seq: u16 = send_reliable(queue, out, &event, addr, now);
                proof {
                    let send = Send { event: event@, dest: addr };
                    lemma_batch_empty(out0, q0, s0, now);
                    lemma_batch_one_more(
                        out0,
                        q0,
                        s0,
                        out0,
                        q0,
                        s0,
                        Seq::empty(),
                        now,
                        out@.last(),
                        send,
                    );
                    assert(Seq::<Send>::empty().push(send) =~= seq![send]);
                }
                Ok(seq)
            },
            None => Err(ServerError::ClientNotFound),
        }
    }

    /// Sends `event` to every session, without sequence numbers. Comes back
    /// with the number of sessions.
    pub fn broadcast(&self, out: &mut Vec<OutPacket>, event: ServerEvent) -> (n: usize)
        requires
            self.wf(),
            event_fits(event@),
        ensures
            n == addr_list(self.sessions()).len(),
            plain_batch(old(out)@, final(out)@, fanout(event@, addr_list(self.sessions()))),
    {
        let addrs = self._get_addr_list();
        let len: usize = addrs.len();
        let ghost out0 = out@;
        proof {
            lemma_batch_empty(out0, Map::empty(), 0, 0);
            assert(fanout(event@, addrs@.take(0)) =~= Seq::<Send>::empty());
        }
        let mut k: usize = 0;
        while k < len
            invariant
                k <= len,
                len == addrs@.len(),
                event_fits(event@),
                plain_batch(out0, out@, fanout(event@, addrs@.take(k as int))),
            decreases len - k,
        {
            let ghost out1 = out@;
            send_plain(out, &event, addrs[k]);
            proof {
                let send = Send { event: event@, dest: addrs@[k as int] };
                lemma_plain_one_more(
                    out0,
                    out1,
                    fanout(event@, addrs@.take(k as int)),
                    out@.last(),
                    send,
                );
                assert(fanout(event@, addrs@.take(k as int)).push(send) =~= fanout(
                    event@,
                    addrs@.take(k + 1),
                ));
            }
            k += 1;
        }
        assert(addrs@.take(len as int) =~= addrs@);
        len
    }

    /// Sends `event` reliably to every session, in slot order: each copy is
    /// numbered and waits in the queue of its destination. Comes back with the
    /// number of sessions.
    pub fn broadcast_reliable(
        &self,
        queue: &mut ReliableQueue,
        out: &mut Vec<OutPacket>,
        event: ServerEvent,
        now: u64,
    ) -> (n: usize)
        requires
            self.wf(),
            event_fits(event@),
        ensures
            n == addr_list(self.sessions()).len(),
            reliable_batch(
                old(out)@,
                old(queue).queues(),
                old(queue).sequence(),
                final(out)@,
                final(queue).queues(),
                final(queue).sequence(),
                fanout(event@, addr_list(self.sessions())),
                now,
            ),
    {
        let addrs = self._get_addr_list();
        let len: usize = addrs.len();
        let ghost out0 = out@;
        let ghost q0 = queue.queues();
        let ghost s0 = queue.sequence();
        proof {
            lemma_batch_empty(out0, q0, s0, now);
            assert(fanout(event@, addrs@.take(0)) =~= Seq::<Send>::empty());
        }
        let mut k: usize = 0;
        while k < len
            invariant
                k <= len,
                len == addrs@.len(),
                event_fits(event@),
                reliable_batch(
                    out0,
                    q0,
                    s0,
                    out@,
                    queue.queues(),
                    queue.sequence(),
                    fanout(event@, addrs@.take(k as int)),
                    now,
                ),
            decreases len - k,
        {
            let ghost out1 = out@;
            let ghost q1 = queue.queues();
            let ghost s1 = queue.sequence();
            send_reliable(queue, out, &event, addrs[k], now);
            proof {
                let send = Send { event: event@, dest: addrs@[k as int] };
                lemma_batch_one_more(
                    out0,
                    q0,
                    s0,
                    out1,
                    q1,
                    s1,
                    fanout(event@, addrs@.take(k as int)),
                    now,
                    out@.last(),
                    send,
                );
                assert(fanout(event@, addrs@.take(k as int)).push(send) =~= fanout(
                    event@,
                    addrs@.take(k + 1),
                ));
            }
            k += 1;
        }
        assert(addrs@.take(len as int) =~= addrs@);
        len
    }

    /// Tells the first session that `client_id` names that it is disconnected,
    /// for the given reason, as a reliable message. The session itself stays.
    /// Comes back with the sequence number, or with the news that no session
    /// is named, in which case nothing has changed.
    pub fn disconnect_player(
        &self,
        queue: &mut ReliableQueue,
        out: &mut Vec<OutPacket>,
        client_id: &ClientId,
        reason: String,
        now: u64,
    ) -> (r: Result<u16, ServerError>)
        requires
            self.wf(),
            text_fits(reason@),
        ensures
            match slot_named(self.sessions(), *client_id) {
                Some(slot) => {
                    &&& r == Ok::<u16, ServerError>(final(queue).sequence())
                    &&& reliable_batch(
                        old(out)@,
                        old(queue).queues(),
                        old(queue).sequence(),
                        final(out)@,
                        final(queue).queues(),
                        final(queue).sequence(),
                        seq![
                            Send {
                                event: ServerEventView::Disconnect {
                                    client_index: slot as u32,
                                    reason: reason@,
                                },
                                dest: self.sessions()[slot]->0.addr,
                            },
                        ],
                        now,
                    )
                },
                None => {
                    &&& r == Err::<u16, ServerError>(ServerError::ClientNotFound)
                    &&& final(out)@ == old(out)@
                    &&& final(queue).queues() == old(queue).queues()
                    &&& final(queue).sequence() == old(queue).sequence()
                },
            },
    {
        match self.get_client_index(client_id) {
            Some(client_index) => {
                let event = ServerEvent::Disconnect { client_index, reason };
                proof {
                    lemma_slot_named(
                        self.sessions(),
                        ClientId::ClientIndex(client_index),
                        client_index as int,
                    );
                }
                self.send_to_reliable(queue, out, event, &ClientId::ClientIndex(client_index), now)
            },
            None => Err(ServerError::ClientNotFound),
        }
    }
    /// Nothing that can be observed of the server differs between `self` and `other`.
    pub open spec fn same_as(&self, other: &GameInstance) -> bool {
        &&& self.players() == other.players()
        &&& self.sessions() == other.sessions()
        &&& self.asleep() == other.asleep()
        &&& self.rate() == other.rate()
        &&& self.ticks() == other.ticks()
        &&& self.stopping() == other.stopping()
    }

    /// The token of the session that a login created: the one found in the
    /// slot that was the first free one before.
    pub open spec fn granted_token(before: &GameInstance, after: &GameInstance) -> u32 {
        after.sessions()[first_free(before.players())->0]->0.auth_id
    }

    /// What a login does to the server `before`, given the token drawn for it.
    ///
    /// A login that speaks another protocol revision is refused, and so is one
    /// that finds no free slot; neither changes anything. Any other login takes
    /// the first free slot, wakes the server, and sends what `login_plan` lists.
    pub open spec fn login_outcome(
        before: &GameInstance,
        after: &GameInstance,
        out0: Seq<OutPacket>,
        queue0: &ReliableQueue,
        out1: Seq<OutPacket>,
        queue1: &ReliableQueue,
        r: PacketResponse,
        addr: PeerAddr,
        version: u32,
        name: Seq<char>,
        token: u32,
        unix_now: u32,
        now: u64,
    ) -> bool {
        if version != PACKET_PROTOCOL_VERSION {
            &&& r == PacketResponse::Error(
                ServerError::VersionMismatch { theirs: version, ours: PACKET_PROTOCOL_VERSION },
            )
            &&& after.same_as(before)
            &&& out1 == out0
            &&& queue1.queues() == queue0.queues()
            &&& queue1.sequence() == queue0.sequence()
        } else if first_free(before.players()) is None {
            &&& r == PacketResponse::Error(ServerError::ServerFull)
            &&& after.same_as(before)
            &&& out1 == out0
            &&& queue1.queues() == queue0.queues()
            &&& queue1.sequence() == queue0.sequence()
        } else {
            let slot = first_free(before.players())->0;
            &&& r == PacketResponse::Applied
            &&& after.sessions() == before.sessions().update(
                slot,
                Some(
                    ClientData {
                        auth_id: token,
                        addr,
                        last_timestamp: unix_now,
                        last_packet_time: now,
                    },
                ),
            )
            &&& after.players().len() == MAX_PLAYERS
            &&& forall|i: int|
                0 <= i < MAX_PLAYERS && i != slot ==> after.players()[i] == before.players()[i]
            &&& after.players()[slot] is Some
            &&& after.players()[slot]->0.client_index == slot
            &&& after.players()[slot]->0.name@ == name
            &&& after.players()[slot]->0.position == (Vector3 { x: 0, y: 0, z: 0 })
            &&& after.players()[slot]->0.angles == (Vector3 { x: 0, y: 0, z: 0 })
            &&& after.players()[slot]->0.actions@ == 0
            &&& !after.asleep()
            &&& after.rate() == before.rate()
            &&& after.ticks() == before.ticks()
            &&& after.stopping() == before.stopping()
            &&& reliable_batch(
                out0,
                queue0.queues(),
                queue0.sequence(),
                out1,
                queue1.queues(),
                queue1.sequence(),
                login_plan(before.players(), after.sessions(), slot as u32, token, addr, name),
                now,
            )
        }
    }

    /// Handles a login from `addr` under the given token.
    pub fn _process_login_with(
        &mut self,
        queue: &mut ReliableQueue,
        out: &mut Vec<OutPacket>,
        addr: PeerAddr,
        version: u32,
        name: String,
        token: u32,
        unix_now: u32,
        now: u64,
    ) -> (r: PacketResponse)
        requires
            old(self).wf(),
            text_fits(name@),
        ensures
            final(self).wf(),
            GameInstance::login_outcome(
                old(self),
                final(self),
                old(out)@,
                old(queue),
                final(out)@,
                final(queue),
                r,
                addr,
                version,
                name@,
                token,
                unix_now,
                now,
            ),
    {
        if version != PACKET_PROTOCOL_VERSION {
            return PacketResponse::Error(
                ServerError::VersionMismatch { theirs: version, ours: PACKET_PROTOCOL_VERSION },
            );
        }
        if self.game.get_empty_slot().is_none() {
            return PacketResponse::Error(ServerError::ServerFull);
        }
        let ghost players0 = self.players();
        let ghost text = name@;
        let ghost out0 = out@;
        let ghost q0 = queue.queues();
        let ghost s0 = queue.sequence();
        let (client_index, auth_id) = self.setup_player_with(addr, name, token, unix_now, now);

        // The reply: slot and token, for the new peer.
        let login_event = ServerEvent::Login { client_index, auth_id };
        let ghost reply = Send { event: login_event@, dest: addr };
        send_reliable(queue, out, &login_event, addr, now);
        let ghost out1 = out@;
        let ghost q1 = queue.queues();
        let ghost s1 = queue.sequence();
        proof {
            lemma_batch_empty(out0, q0, s0, now);
            lemma_batch_one_more(out0, q0, s0, out0, q0, s0, Seq::empty(), now, out@.last(), reply);
            assert(Seq::<Send>::empty().push(reply) =~= seq![reply]);
            lemma_batch_empty(out1, q1, s1, now);
        }

        // The players that were there before, for the new peer.
        let mut i: usize = 0;
        while i < MAX_PLAYERS
            invariant
                i <= MAX_PLAYERS,
                self.wf(),
                client_index < MAX_PLAYERS,
                players0.len() == MAX_PLAYERS,
                players0[client_index as int] is None,
                self.players().len() == MAX_PLAYERS,
                forall|j: int|
                    0 <= j < MAX_PLAYERS && j != client_index ==> self.players()[j] == players0[j],
                reliable_batch(
                    out1,
                    q1,
                    s1,
                    out@,
                    queue.queues(),
                    queue.sequence(),
                    spawns_for(players0.take(i as int), addr),
                    now,
                ),
            decreases MAX_PLAYERS - i,
        {
            assert(players0.take(i + 1).drop_last() =~= players0.take(i as int));
            if i != client_index as usize {
                if let Some(player) = self.game.get_player(i as u32) {
                    let event = player.get_spawn_event();
                    let ghost out2 = out@;
                    let ghost q2 = queue.queues();
                    let ghost s2 = queue.sequence();
                    proof {
                        lemma_spawn_fits(*player);
                    }
                    send_reliable(queue, out, &event, addr, now);
                    proof {
                        lemma_batch_one_more(
                            out1,
                            q1,
                            s1,
                            out2,
                            q2,
                            s2,
                            spawns_for(players0.take(i as int), addr),
                            now,
                            out@.last(),
                            Send { event: event@, dest: addr },
                        );
                    }
                }
            }
            i += 1;
        }
        assert(players0.take(MAX_PLAYERS as int) =~= players0);
        let ghost out2 = out@;
        let ghost q2 = queue.queues();
        let ghost s2 = queue.sequence();

        // The new player, for everybody.
        match self.game.get_player(client_index) {
            Some(player) => {
                let spawn_event = player.get_spawn_event();
                proof {
                    lemma_spawn_fits(*player);
                }
                self.broadcast_reliable(queue, out, spawn_event, now);
            },
            None => {},
        }
        proof {
            let announce = fanout(
                ServerEventView::PlayerSpawn {
                    client_index,
                    name: text,
                    position: Vector3 { x: 0, y: 0, z: 0 },
                    angles: Vector3 { x: 0, y: 0, z: 0 },
                },
                addr_list(self.sessions()),
            );
            lemma_batch_concat(
                out0,
                q0,
                s0,
                out1,
                q1,
                s1,
                out2,
                q2,
                s2,
                seq![reply],
                spawns_for(players0, addr),
                now,
            );
            lemma_batch_concat(
                out0,
                q0,
                s0,
                out2,
                q2,
                s2,
                out@,
                queue.queues(),
                queue.sequence(),
                seq![reply] + spawns_for(players0, addr),
                announce,
                now,
            );
        }
        PacketResponse::Applied
    }

    /// Handles a login from `addr`, drawing its token at random. The token is
    /// the one found in the new session afterwards.
    pub fn _process_login_packet(
        &mut self,
        queue: &mut ReliableQueue,
        out: &mut Vec<OutPacket>,
        addr: PeerAddr,
        version: u32,
        name: String,
        unix_now: u32,
        now: u64,
    ) -> (r: PacketResponse)
        requires
            old(self).wf(),
            text_fits(name@),
        ensures
            final(self).wf(),
            GameInstance::login_outcome(
                old(self),
                final(self),
                old(out)@,
                old(queue),
                final(out)@,
                final(queue),
                r,
                addr,
                version,
                name@,
                GameInstance::granted_token(old(self), final(self)),
                unix_now,
                now,
            ),
    {
        let token: u32 = random_token();
        self._process_login_with(queue, out, addr, version, name, token, unix_now, now)
    }
    /// What a message other than a login does to the server `before`.
    ///
    /// The message must come from the address of a session and carry that
    /// session's auth token; otherwise it is discarded. A stale `PerformAction`
    /// is discarded as well. Whatever is discarded changes nothing at all. An
    /// accepted `PerformAction` stores the actions on the player and records the
    /// timestamp and the time of arrival on the session. A `Disconnect` is told
    /// reliably to every session, the leaving one included, and then the
    /// session and its player are torn down. An `Ack` has no business here and
    /// is discarded.
    pub open spec fn message_outcome(
        before: &GameInstance,
        after: &GameInstance,
        out0: Seq<OutPacket>,
        queue0: &ReliableQueue,
        out1: Seq<OutPacket>,
        queue1: &ReliableQueue,
        r: PacketResponse,
        addr: PeerAddr,
        packet: Seq<u8>,
        event: ClientEventView,
        now: u64,
    ) -> bool {
        let unchanged = {
            &&& r == PacketResponse::Discarded
            &&& after.same_as(before)
            &&& out1 == out0
            &&& queue1.queues() == queue0.queues()
            &&& queue1.sequence() == queue0.sequence()
        };
        match sender_slot(before.sessions(), addr, packet) {
            None => unchanged,
            Some(slot) => {
                let client = before.sessions()[slot]->0;
                match event {
                    ClientEventView::PerformAction { actions, angles } => {
                        if is_stale(timestamp_of(packet), client.last_timestamp) {
                            unchanged
                        } else {
                            &&& r == PacketResponse::Applied
                            &&& after.sessions() == before.sessions().update(
                                slot,
                                Some(
                                    ClientData {
                                        last_timestamp: timestamp_of(packet),
                                        last_packet_time: now,
                                        ..client
                                    },
                                ),
                            )
                            &&& after.players().len() == MAX_PLAYERS
                            &&& forall|i: int|
                                0 <= i < MAX_PLAYERS && i != slot ==> after.players()[i]
                                    == before.players()[i]
                            &&& after.players()[slot] is Some
                            &&& after.players()[slot]->0.actions@ == actions
                            &&& after.players()[slot]->0.position
                                == before.players()[slot]->0.position
                            &&& after.players()[slot]->0.angles == before.players()[slot]->0.angles
                            &&& after.players()[slot]->0.name == before.players()[slot]->0.name
                            &&& after.players()[slot]->0.client_index
                                == before.players()[slot]->0.client_index
                            &&& after.asleep() == before.asleep()
                            &&& after.rate() == before.rate()
                            &&& after.ticks() == before.ticks()
                            &&& after.stopping() == before.stopping()
                            &&& out1 == out0
                            &&& queue1.queues() == queue0.queues()
                            &&& queue1.sequence() == queue0.sequence()
                        }
                    },
                    ClientEventView::Disconnect { reason } => {
                        &&& r == PacketResponse::Applied
                        &&& after.sessions() == before.sessions().update(slot, None::<ClientData>)
                        &&& after.players() == before.players().update(slot, None::<PlayerData>)
                        &&& after.asleep() == before.asleep()
                        &&& after.rate() == before.rate()
                        &&& after.ticks() == before.ticks()
                        &&& after.stopping() == before.stopping()
                        &&& reliable_batch(
                            out0,
                            queue0.queues(),
                            queue0.sequence(),
                            out1,
                            queue1.queues(),
                            queue1.sequence(),
                            fanout(
                                ServerEventView::Disconnect { client_index: slot as u32, reason },
                                addr_list(before.sessions()),
                            ),
                            now,
                        )
                    },
                    _ => unchanged,
                }
            },
        }
    }

    /// What one message does to the server `before`: a login what
    /// `login_outcome` says, under the token found in the new session, and
    /// any other message what `message_outcome` says.
    pub open spec fn event_outcome(
        before: &GameInstance,
        after: &GameInstance,
        out0: Seq<OutPacket>,
        queue0: &ReliableQueue,
        out1: Seq<OutPacket>,
        queue1: &ReliableQueue,
        r: PacketResponse,
        addr: PeerAddr,
        packet: Seq<u8>,
        event: ClientEventView,
        unix_now: u32,
        now: u64,
    ) -> bool {
        match event {
            ClientEventView::Login { version, name } => GameInstance::login_outcome(
                before,
                after,
                out0,
                queue0,
                out1,
                queue1,
                r,
                addr,
                version,
                name,
                GameInstance::granted_token(before, after),
                unix_now,
                now,
            ),
            _ => GameInstance::message_outcome(
                before,
                after,
                out0,
                queue0,
                out1,
                queue1,
                r,
                addr,
                packet,
                event,
                now,
            ),
        }
    }

    /// A state of server, outbound list and queues, as one that a run of
    /// messages passes through.
    pub open spec fn passed_through(
        mid: &GameInstance,
        out_mid: Seq<OutPacket>,
        queue_mid: &ReliableQueue,
    ) -> bool {
        mid.wf()
    }

    /// What a run of messages does to the server `before`, one after the
    /// other: each finds the server as the one before it left it, and
    /// `responses` holds what became of each.
    pub open spec fn drained(
        before: &GameInstance,
        out0: Seq<OutPacket>,
        queue0: &ReliableQueue,
        inbound: Seq<(Packet, ClientEvent, PeerAddr)>,
        responses: Seq<PacketResponse>,
        after: &GameInstance,
        out1: Seq<OutPacket>,
        queue1: &ReliableQueue,
        unix_now: u32,
        now: u64,
    ) -> bool
        decreases inbound.len(),
    {
        if inbound.len() == 0 {
            &&& responses.len() == 0
            &&& after.same_as(before)
            &&& out1 == out0
            &&& queue1.queues() == queue0.queues()
            &&& queue1.sequence() == queue0.sequence()
        } else {
            exists|mid: GameInstance, out_mid: Seq<OutPacket>, queue_mid: ReliableQueue|
                {
                    &&& #[trigger] GameInstance::passed_through(&mid, out_mid, &queue_mid)
                    &&& responses.len() == inbound.len()
                    &&& GameInstance::drained(
                        before,
                        out0,
                        queue0,
                        inbound.drop_last(),
                        responses.drop_last(),
                        &mid,
                        out_mid,
                        &queue_mid,
                        unix_now,
                        now,
                    )
                    &&& GameInstance::event_outcome(
                        &mid,
                        after,
                        out_mid,
                        &queue_mid,
                        out1,
                        queue1,
                        responses.last(),
                        inbound.last().2,
                        inbound.last().0@,
                        inbound.last().1@,
                        unix_now,
                        now,
                    )
                }
        }
    }

    /// Applies every message of `inbound`, in order: what has arrived since
    /// the last look at the inbound queue. Comes back with what became of each.
    pub fn process_inbound(
        &mut self,
        queue: &mut ReliableQueue,
        out: &mut Vec<OutPacket>,
        inbound: Vec<(Packet, ClientEvent, PeerAddr)>,
        unix_now: u32,
        now: u64,
    ) -> (responses: Vec<PacketResponse>)
        requires
            old(self).wf(),
            forall|i: int|
                0 <= i < inbound@.len() ==> (#[trigger] inbound@[i]).0@.len() >= PACKET_HEADER_SIZE
                    && client_event_fits(inbound@[i].1@),
        ensures
            final(self).wf(),
            responses@.len() == inbound@.len(),
            GameInstance::drained(
                old(self),
                old(out)@,
                old(queue),
                inbound@,
                responses@,
                final(self),
                final(out)@,
                final(queue),
                unix_now,
                now,
            ),
    {
        let mut responses: Vec<PacketResponse> = Vec::new();
        let ghost all = inbound@;
        assert(all.take(0) =~= Seq::<(Packet, ClientEvent, PeerAddr)>::empty());
        for item in iter: inbound
            invariant
                iter.seq() == all,
                self.wf(),
                forall|i: int|
                    0 <= i < all.len() ==> (#[trigger] all[i]).0@.len() >= PACKET_HEADER_SIZE
                        && client_event_fits(all[i].1@),
                responses@.len() == iter.index(),
                GameInstance::drained(
                    old(self),
                    old(out)@,
                    old(queue),
                    all.take(iter.index() as int),
                    responses@,
                    self,
                    out@,
                    queue,
                    unix_now,
                    now,
                ),
        {
            let ghost i = iter.index() as int;
            let ghost mid = *self;
            let ghost out_mid = out@;
            let ghost queue_mid = *queue;
            let ghost so_far = responses@;
            assert(item == all[i]);
            let (packet, event, addr) = item;
            let r = self.process_event(queue, out, addr, &packet, event, unix_now, now);
            responses.push(r);
            proof {
                assert(all.take(i + 1).drop_last() =~= all.take(i));
                assert(all.take(i + 1).last() == all[i]);
                assert(responses@.drop_last() =~= so_far);
                assert(GameInstance::passed_through(&mid, out_mid, &queue_mid));
            }
        }
        assert(all.take(all.len() as int) =~= all);
        responses
    }

    /// Applies one message that arrived from `addr` in `packet`. `unix_now` is
    /// the wall clock in seconds, `now` the monotonic clock in milliseconds.
    pub fn process_event(
        &mut self,
        queue: &mut ReliableQueue,
        out: &mut Vec<OutPacket>,
        addr: PeerAddr,
        packet: &Packet,
        event: ClientEvent,
        unix_now: u32,
        now: u64,
    ) -> (r: PacketResponse)
        requires
            old(self).wf(),
            packet@.len() >= PACKET_HEADER_SIZE,
            client_event_fits(event@),
        ensures
            final(self).wf(),
            GameInstance::event_outcome(
                old(self),
                final(self),
                old(out)@,
                old(queue),
                final(out)@,
                final(queue),
                r,
                addr,
                packet@,
                event@,
                unix_now,
                now,
            ),
    {
        match event {
            ClientEvent::Login { version, name } => {
                self._process_login_packet(queue, out, addr, version, name, unix_now, now)
            },
            other => self.process_message(queue, out, addr, packet, other, now),
        }
    }

    /// Applies one message other than a login that arrived from `addr` in `packet`.
    pub fn process_message(
        &mut self,
        queue: &mut ReliableQueue,
        out: &mut Vec<OutPacket>,
        addr: PeerAddr,
        packet: &Packet,
        event: ClientEvent,
        now: u64,
    ) -> (r: PacketResponse)
        requires
            old(self).wf(),
            packet@.len() >= PACKET_HEADER_SIZE,
            client_event_fits(event@),
            !(event@ is Login),
        ensures
            final(self).wf(),
            GameInstance::message_outcome(
                old(self),
                final(self),
                old(out)@,
                old(queue),
                final(out)@,
                final(queue),
                r,
                addr,
                packet@,
                event@,
                now,
            ),
    {
        let client_index: u32 = match self.get_client_index(&ClientId::Addr(addr)) {
            Some(client_index) => client_index,
            None => {
                return PacketResponse::Discarded;
            },
        };
        let client: ClientData = match self.client_data[client_index as usize] {
            Some(client) => client,
            None => {
                return PacketResponse::Discarded;
            },
        };
        // The token must be the one of the session at this address.
        if client.auth_id != packet.auth_id() {
            return PacketResponse::Discarded;
        }
        match event {
            ClientEvent::PerformAction { actions, angles } => {
                let timestamp: u32 = packet.timestamp();
                if timestamp <= client.last_timestamp {
                    return PacketResponse::Discarded;
                }
                let mut accepted = client;
                accepted.last_timestamp = timestamp;
                accepted.mark(now);
                self.client_data[client_index as usize] = Some(accepted);
                match self.game.get_player_mut(client_index) {
                    Some(player) => {
                        player.actions = actions;
                    },
                    None => {},
                }
                PacketResponse::Applied
            },
            ClientEvent::Disconnect { reason } => {
                let departure = ServerEvent::Disconnect { client_index, reason };
                proof {
                    lemma_disconnect_fits(client_index, reason@);
                }
                self.broadcast_reliable(queue, out, departure, now);
                self.client_data[client_index as usize] = None;
                self.game.set_player(client_index, None);
                PacketResponse::Applied
            },
            _ => PacketResponse::Discarded,
        }
    }
    /// Evicts the session in `slot` where no message of it has been accepted
    /// for longer than the timeout at `now`: the peer is told so in a numbered
    /// message, whatever still waited for it is forgotten, and the session and
    /// its player leave the slot. Comes back with whether that happened;
    /// otherwise nothing has changed.
    pub fn evict_if_timed_out(
        &mut self,
        queue: &mut ReliableQueue,
        out: &mut Vec<OutPacket>,
        slot: u32,
        now: u64,
    ) -> (gone: bool)
        requires
            old(self).wf(),
            slot < MAX_PLAYERS,
        ensures
            final(self).wf(),
            gone == evicted(old(self).sessions()[slot as int], now),
            final(self).asleep() == old(self).asleep(),
            final(self).rate() == old(self).rate(),
            final(self).ticks() == old(self).ticks(),
            final(self).stopping() == old(self).stopping(),
            gone ==> {
                &&& final(self).sessions() == old(self).sessions().update(
                    slot as int,
                    None::<ClientData>,
                )
                &&& final(self).players() == old(self).players().update(
                    slot as int,
                    None::<PlayerData>,
                )
                &&& final(out)@ == old(out)@.push(final(out)@.last())
                &&& sends_one(
                    final(out)@.last()@,
                    Send {
                        event: ServerEventView::Disconnect {
                            client_index: slot,
                            reason: timed_out_text(),
                        },
                        dest: old(self).sessions()[slot as int]->0.addr,
                    },
                    next_sequence(old(queue).sequence()),
                )
                &&& final(queue).sequence() == next_sequence(old(queue).sequence())
                &&& final(queue).queues() == old(queue).queues().remove(
                    old(self).sessions()[slot as int]->0.addr,
                )
            },
            !gone ==> {
                &&& final(self).sessions() == old(self).sessions()
                &&& final(self).players() == old(self).players()
                &&& final(out)@ == old(out)@
                &&& final(queue).sequence() == old(queue).sequence()
                &&& final(queue).queues() == old(queue).queues()
            },
    {
        let client: ClientData = match self.client_data[slot as usize] {
            Some(client) => client,
            None => {
                return false;
            },
        };
        if !client.has_timed_out(now) {
            return false;
        }
        let notice = ServerEvent::Disconnect { client_index: slot, reason: timed_out_reason() };
        proof {
            lemma_disconnect_fits(slot, timed_out_text());
        }
        send_reliable(queue, out, &notice, client.addr, now);
        queue.delete_all(client.addr);
        assert(queue.queues() =~= old(queue).queues().remove(client.addr));
        self.client_data[slot as usize] = None;
        self.game.set_player(slot, None);
        true
    }

    /// Moves every player to where the simulation step has put it: the
    /// player in slot `i` to `stepped[i]`. Each player whose position changed is
    /// reported to every session in a message that needs no acknowledgment.
    pub fn advance_players(&mut self, out: &mut Vec<OutPacket>, stepped: &Vec<Vector3>)
        requires
            old(self).wf(),
            stepped@.len() == MAX_PLAYERS,
        ensures
            final(self).wf(),
            final(self).players() == moved_players(old(self).players(), stepped@),
            final(self).sessions() == old(self).sessions(),
            final(self).asleep() == old(self).asleep(),
            final(self).rate() == old(self).rate(),
            final(self).ticks() == old(self).ticks(),
            final(self).stopping() == old(self).stopping(),
            plain_batch(
                old(out)@,
                final(out)@,
                moves_plan(old(self).players(), stepped@, addr_list(old(self).sessions())),
            ),
    {
        let ghost players0 = self.players();
        let ghost sessions0 = self.sessions();
        let ghost out0 = out@;
        let ghost dests = addr_list(sessions0);
        proof {
            lemma_batch_empty(out0, Map::empty(), 0, 0);
        }
        let mut i: usize = 0;
        while i < MAX_PLAYERS
            invariant
                i <= MAX_PLAYERS,
                self.wf(),
                stepped@.len() == MAX_PLAYERS,
                players0.len() == MAX_PLAYERS,
                self.players().len() == MAX_PLAYERS,
                self.sessions() == sessions0,
                dests == addr_list(sessions0),
                self.asleep() == old(self).asleep(),
                self.rate() == old(self).rate(),
                self.ticks() == old(self).ticks(),
                self.stopping() == old(self).stopping(),
                forall|j: int|
                    0 <= j < i ==> self.players()[j] == moved_players(players0, stepped@)[j],
                forall|j: int| i <= j < MAX_PLAYERS ==> self.players()[j] == players0[j],
                plain_batch(out0, out@, moves_plan(players0.take(i as int), stepped@, dests)),
            decreases MAX_PLAYERS - i,
        {
            assert(players0.take(i + 1).drop_last() =~= players0.take(i as int));
            let ghost before = self.players();
            let target: Vector3 = stepped[i];
            let report: Option<ServerEvent> = match self.game.get_player_mut(i as u32) {
                Some(player) => {
                    if player.position != target {
                        player.position = target;
                        Some(
                            ServerEvent::Move {
                                client_index: player.client_index,
                                position: target,
                                angles: player.angles,
                                velocity: Vector3::zero(),
                            },
                        )
                    } else {
                        None
                    }
                },
                None => None,
            };
            assert(self.players()[i as int] == moved_players(players0, stepped@)[i as int]);
            assert forall|j: int| 0 <= j < MAX_PLAYERS && j != i implies self.players()[j]
                == before[j] by {}
            match report {
                Some(event) => {
                    let ghost out1 = out@;
                    self.broadcast(out, event);
                    proof {
                        lemma_plain_concat(
                            out0,
                            out1,
                            out@,
                            moves_plan(players0.take(i as int), stepped@, dests),
                            fanout(event@, dests),
                        );
                    }
                },
                None => {},
            }
            i += 1;
        }
        assert(players0.take(MAX_PLAYERS as int) =~= players0);
        assert(self.players() =~= moved_players(players0, stepped@));
    }

    /// Evicts every session that has timed out at `now`, in slot order. Comes
    /// back with their number.
    pub fn evict_timed_out(
        &mut self,
        queue: &mut ReliableQueue,
        out: &mut Vec<OutPacket>,
        now: u64,
    ) -> (n: usize)
        requires
            old(self).wf(),
        ensures
            final(self).wf(),
            final(self).sessions() == surviving(old(self).sessions(), old(self).sessions(), now),
            final(self).players() == surviving(old(self).players(), old(self).sessions(), now),
            final(self).asleep() == old(self).asleep(),
            final(self).rate() == old(self).rate(),
            final(self).ticks() == old(self).ticks(),
            final(self).stopping() == old(self).stopping(),
            n == timeout_notices(old(self).sessions(), now).len(),
            numbered_batch(
                old(out)@,
                old(queue).sequence(),
                final(out)@,
                final(queue).sequence(),
                timeout_notices(old(self).sessions(), now),
            ),
            final(queue).queues() == old(queue).queues().remove_keys(
                evicted_addrs(old(self).sessions(), now),
            ),
    {
        let ghost players0 = self.players();
        let ghost sessions0 = self.sessions();
        let ghost out0 = out@;
        let ghost q0 = queue.queues();
        let ghost s0 = queue.sequence();
        proof {
            lemma_batch_empty(out0, q0, s0, now);
            assert(q0 =~= q0.remove_keys(evicted_addrs(sessions0.take(0), now)));
        }
        let mut n: usize = 0;
        let mut i: usize = 0;
        while i < MAX_PLAYERS
            invariant
                i <= MAX_PLAYERS,
                self.wf(),
                players0.len() == MAX_PLAYERS,
                sessions0.len() == MAX_PLAYERS,
                self.players().len() == MAX_PLAYERS,
                self.sessions().len() == MAX_PLAYERS,
                self.asleep() == old(self).asleep(),
                self.rate() == old(self).rate(),
                self.ticks() == old(self).ticks(),
                self.stopping() == old(self).stopping(),
                forall|j: int|
                    0 <= j < i ==> self.sessions()[j] == surviving(sessions0, sessions0, now)[j]
                        && self.players()[j] == surviving(players0, sessions0, now)[j],
                forall|j: int|
                    i <= j < MAX_PLAYERS ==> self.sessions()[j] == sessions0[j]
                        && self.players()[j] == players0[j],
                n == timeout_notices(sessions0.take(i as int), now).len(),
                n <= i,
                numbered_batch(
                    out0,
                    s0,
                    out@,
                    queue.sequence(),
                    timeout_notices(sessions0.take(i as int), now),
                ),
                queue.queues() == q0.remove_keys(evicted_addrs(sessions0.take(i as int), now)),
            decreases MAX_PLAYERS - i,
        {
            assert(sessions0.take(i + 1).drop_last() =~= sessions0.take(i as int));
            let ghost out1 = out@;
            let ghost s1 = queue.sequence();
            let ghost q1 = queue.queues();
            let gone: bool = self.evict_if_timed_out(queue, out, i as u32, now);
            proof {
                let sooner = evicted_addrs(sessions0.take(i as int), now);
                let later = evicted_addrs(sessions0.take(i + 1), now);
                if gone {
                    let addr = sessions0[i as int]->0.addr;
                    lemma_numbered_one_more(
                        out0,
                        s0,
                        out1,
                        s1,
                        timeout_notices(sessions0.take(i as int), now),
                        out@.last(),
                        Send {
                            event: ServerEventView::Disconnect {
                                client_index: i as u32,
                                reason: timed_out_text(),
                            },
                            dest: addr,
                        },
                    );
                    assert forall|a: PeerAddr| later.contains(a) == (sooner.contains(a) || a
                        == addr) by {
                        if sooner.contains(a) {
                            let k = choose|k: int|
                                0 <= k < sessions0.take(i as int).len() && evicted(
                                    #[trigger] sessions0.take(i as int)[k],
                                    now,
                                ) && sessions0.take(i as int)[k]->0.addr == a;
                            assert(sessions0.take(i + 1)[k] == sessions0.take(i as int)[k]);
                        }
                        if a == addr {
                            assert(evicted(sessions0.take(i + 1)[i as int], now));
                        }
                        if later.contains(a) && a != addr {
                            let k = choose|k: int|
                                0 <= k < sessions0.take(i + 1).len() && evicted(
                                    #[trigger] sessions0.take(i + 1)[k],
                                    now,
                                ) && sessions0.take(i + 1)[k]->0.addr == a;
                            assert(sessions0.take(i as int)[k] == sessions0.take(i + 1)[k]);
                        }
                    }
                    assert(q1.remove(addr) =~= q0.remove_keys(later));
                } else {
                    assert forall|a: PeerAddr| later.contains(a) == sooner.contains(a) by {
                        if sooner.contains(a) {
                            let k = choose|k: int|
                                0 <= k < sessions0.take(i as int).len() && evicted(
                                    #[trigger] sessions0.take(i as int)[k],
                                    now,
                                ) && sessions0.take(i as int)[k]->0.addr == a;
                            assert(sessions0.take(i + 1)[k] == sessions0.take(i as int)[k]);
                        }
                        if later.contains(a) {
                            let k = choose|k: int|
                                0 <= k < sessions0.take(i + 1).len() && evicted(
                                    #[trigger] sessions0.take(i + 1)[k],
                                    now,
                                ) && sessions0.take(i + 1)[k]->0.addr == a;
                            assert(sessions0.take(i as int)[k] == sessions0.take(i + 1)[k]);
                        }
                    }
                    assert(later =~= sooner);
                }
            }
            if gone {
                n += 1;
            }
            i += 1;
        }
        assert(sessions0.take(MAX_PLAYERS as int) =~= sessions0);
        assert(self.sessions() =~= surviving(sessions0, sessions0, now));
        assert(self.players() =~= surviving(players0, sessions0, now));
        n
    }

    /// Counts a tick. Once per statistics interval, that is every `rate()`
    /// ticks, the traffic counters are read and reset, the counting starts
    /// over, and the server goes to sleep where no slot is occupied and the
    /// sockets have been silent for the idle time before `now`. Comes back with
    /// the report of that interval, or with nothing between two reports.
    pub fn end_tick(&mut self, stat: &mut NetStat, now: u64) -> (r: Option<TickSummary>)
        requires
            old(self).wf(),
        ensures
            final(self).wf(),
            final(self).players() == old(self).players(),
            final(self).sessions() == old(self).sessions(),
            final(self).rate() == old(self).rate(),
            final(self).stopping() == old(self).stopping(),
            final(stat).last_activity() == old(stat).last_activity(),
            if old(self).ticks() + 1 == old(self).rate() {
                &&& r == Some(
                    TickSummary {
                        ticks: old(self).rate(),
                        packets: old(stat).counts(),
                        clients: occupied(old(self).players()) as usize,
                    },
                )
                &&& final(self).ticks() == 0
                &&& final(stat).counts() == (NetContainer { tx: 0u16, rx: 0u16 })
                &&& final(self).asleep() == (old(self).asleep() || (!old(stat).active_within(
                    IDLE_BEFORE_SLEEP,
                    now,
                ) && occupied(old(self).players()) == 0))
            } else {
                &&& r is None
                &&& final(self).ticks() == old(self).ticks() + 1
                &&& final(stat).counts() == old(stat).counts()
                &&& final(self).asleep() == old(self).asleep()
            },
    {
        self.tick_count += 1;
        if self.tick_count == self.tick_rate {
            let clients: usize = self.game.player_count();
            let packets = stat.pk_count();
            stat.reset_pk_count();
            let ticks: u8 = self.tick_count;
            self.tick_count = 0;
            if !stat.has_activity_within(IDLE_BEFORE_SLEEP, now) && clients == 0 {
                self.set_sleep(true);
            }
            Some(TickSummary { ticks, packets, clients })
        } else {
            None
        }
    }

    /// One tick of an awake server, after the inbound messages have been
    /// applied: players move to where the simulation step has put them and the
    /// changes are reported, sessions that have timed out are evicted, and the
    /// tick is counted.
    pub fn process(
        &mut self,
        queue: &mut ReliableQueue,
        out: &mut Vec<OutPacket>,
        stat: &mut NetStat,
        stepped: &Vec<Vector3>,
        now: u64,
    ) -> (r: Option<TickSummary>)
        requires
            old(self).wf(),
            stepped@.len() == MAX_PLAYERS,
        ensures
            final(self).wf(),
            final(self).sessions() == surviving(old(self).sessions(), old(self).sessions(), now),
            final(self).players() == surviving(
                moved_players(old(self).players(), stepped@),
                old(self).sessions(),
                now,
            ),
            final(self).rate() == old(self).rate(),
            final(self).stopping() == old(self).stopping(),
            final(stat).last_activity() == old(stat).last_activity(),
            ({
                let moves = moves_plan(
                    old(self).players(),
                    stepped@,
                    addr_list(old(self).sessions()),
                );
                let mid = final(out)@.take((old(out)@.len() + moves.len()) as int);
                &&& plain_batch(old(out)@, mid, moves)
                &&& numbered_batch(
                    mid,
                    old(queue).sequence(),
                    final(out)@,
                    final(queue).sequence(),
                    timeout_notices(old(self).sessions(), now),
                )
            }),
            final(queue).queues() == old(queue).queues().remove_keys(
                evicted_addrs(old(self).sessions(), now),
            ),
            if old(self).ticks() + 1 == old(self).rate() {
                &&& r == Some(
                    TickSummary {
                        ticks: old(self).rate(),
                        packets: old(stat).counts(),
                        clients: occupied(final(self).players()) as usize,
                    },
                )
                &&& final(self).ticks() == 0
                &&& final(stat).counts() == (NetContainer { tx: 0u16, rx: 0u16 })
                &&& final(self).asleep() == (old(self).asleep() || (!old(stat).active_within(
                    IDLE_BEFORE_SLEEP,
                    now,
                ) && occupied(final(self).players()) == 0))
            } else {
                &&& r is None
                &&& final(self).ticks() == old(self).ticks() + 1
                &&& final(stat).counts() == old(stat).counts()
                &&& final(self).asleep() == old(self).asleep()
            },
    {
        self.advance_players(out, stepped);
        let ghost mid = out@;
        self.evict_timed_out(queue, out, now);
        assert(out@.take(mid.len() as int) == mid);
        self.end_tick(stat, now)
    }

    /// Tells every session that the server is closing, each in a reliable
    /// message, in slot order. The transport is the caller's to stop.
    pub fn _shutdown(self, queue: &mut ReliableQueue, out: &mut Vec<OutPacket>, now: u64)
        requires
            self.wf(),
        ensures
            reliable_batch(
                old(out)@,
                old(queue).queues(),
                old(queue).sequence(),
                final(out)@,
                final(queue).queues(),
                final(queue).sequence(),
                closing_notices(self.sessions()),
                now,
            ),
    {
        let ghost out0 = out@;
        let ghost q0 = queue.queues();
        let ghost s0 = queue.sequence();
        proof {
            lemma_batch_empty(out0, q0, s0, now);
        }
        let mut i: usize = 0;
        while i < MAX_PLAYERS
            invariant
                i <= MAX_PLAYERS,
                self.wf(),
                self.client_data@.len() == MAX_PLAYERS,
                reliable_batch(
                    out0,
                    q0,
                    s0,
                    out@,
                    queue.queues(),
                    queue.sequence(),
                    closing_notices(self.client_data@.take(i as int)),
                    now,
                ),
            decreases MAX_PLAYERS - i,
        {
            assert(self.client_data@.take(i + 1).drop_last() =~= self.client_data@.take(i as int));
            if let Some(client) = &self.client_data[i] {
                let notice = ServerEvent::Disconnect {
                    client_index: i as u32,
                    reason: closing_reason(),
                };
                let ghost out1 = out@;
                let ghost q1 = queue.queues();
                let ghost s1 = queue.sequence();
                proof {
                    lemma_disconnect_fits(i as u32, closing_text());
                }
                send_reliable(queue, out, &notice, client.addr, now);
                proof {
                    lemma_batch_one_more(
                        out0,
                        q0,
                        s0,
                        out1,
                        q1,
                        s1,
                        closing_notices(self.client_data@.take(i as int)),
                        now,
                        out@.last(),
                        Send { event: notice@, dest: client.addr },
                    );
                }
            }
            i += 1;
        }
        assert(self.client_data@.take(MAX_PLAYERS as int) =~= self.client_data@);
    }
}

} // verus!
