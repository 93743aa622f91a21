//! The client's side of a session: what it knows of itself and of the world,
//! what it puts on the wire, and what it makes of the server's messages.
//!
//! Nothing here touches a socket. Functions that have something to say to the
//! server hand back the packet to send.

use crate::action::Action;
use crate::def::{Vector3, MAX_PLAYERS};
use crate::events_client::{ClientEvent, ClientEventView, CLIENT_LOGIN};
use crate::events_server::{ServerEvent, ServerEventView};
use crate::game::{CommonGameInstance, PlayerData};
use crate::packet::{
    header_bytes, lemma_header_fields, lemma_patched_header, length_field, timestamp_of, Packet,
    PACKET_HEADER_SIZE,
};
use crate::text::text_fits;
use crate::{PacketSerialize, PACKET_PROTOCOL_VERSION};
use vstd::prelude::*;

verus! {

/// Why the client did not do what it was asked.
#[derive(Clone, Copy, Debug, PartialEq, Eq, Structural)]
pub enum ClientError {
    /// A connection is already open.
    AlreadyConnected,
    /// No connection is open.
    NotConnected,
    /// The server has not granted a session yet.
    NotAuthenticated,
    /// The server has not announced this client's player yet.
    PlayerNotActive,
}

/// `bytes` are the closed packet of `event`, with `auth_id` in the shared
/// field, whatever its timestamp.
pub open spec fn carries_from_client(bytes: Seq<u8>, event: ClientEventView, auth_id: u32) -> bool {
    bytes == header_bytes(
        length_field(event.payload().len() as int),
        event.tag(),
        timestamp_of(bytes),
        auth_id,
    ) + event.payload()
}

/// The message can be laid out in memory: header and payload together do not
/// exceed what a buffer can hold.
pub open spec fn client_event_encodable(event: ClientEventView) -> bool {
    PACKET_HEADER_SIZE + event.payload().len() <= usize::MAX
}

/// The closed packet of `event` with `auth_id` in the shared field.
pub fn packet_for(event: &ClientEvent, auth_id: u32) -> (p: Packet)
    requires
        client_event_encodable(event@),
    ensures
        carries_from_client(p@, event@, auth_id),
        p.cursor() == p@.len(),
{
    let builder = event.to_packet_builder();
    proof {
        let ts = timestamp_of(builder@);
        let payload = event@.payload();
        let n = length_field(payload.len() as int);
        lemma_patched_header(u16::MAX, event@.tag(), ts, 0, payload, n, ts, auth_id);
        lemma_patched_header(u16::MAX, event@.tag(), ts, auth_id, payload, n, ts, auth_id);
        lemma_header_fields(u16::MAX, event@.tag(), ts, auth_id, payload);
        lemma_header_fields(n, event@.tag(), ts, auth_id, payload);
    }
    builder.with_auth_id(auth_id).finalize()
}

/// What a client knows: whether it is connected, the session the server has
/// granted it, the actions it holds down, and the world as announced.
pub struct GameInstance {
    game: CommonGameInstance,
    connected: bool,
    client_id: Option<u32>,
    auth_id: Option<u32>,
    actions: Action,
}

impl GameInstance {
    /// The player of each slot, as far as announced.
    pub closed spec fn players(&self) -> Seq<Option<PlayerData>> {
        self.game.slots()
    }

    /// Whether a connection is open.
    pub closed spec fn connected(&self) -> bool {
        self.connected
    }

    /// The slot that the server has granted.
    pub closed spec fn slot(&self) -> Option<u32> {
        self.client_id
    }

    /// The auth token that the server has granted.
    pub closed spec fn token(&self) -> Option<u32> {
        self.auth_id
    }

    /// The actions held down.
    pub closed spec fn held(&self) -> Action {
        self.actions
    }

    /// The world has its slots.
    pub open spec fn wf(&self) -> bool {
        self.players().len() == MAX_PLAYERS
    }

    /// This client's own player, where the server has granted a slot and
    /// announced the player in it.
    pub open spec fn own_player(&self) -> Option<PlayerData> {
        match self.slot() {
            Some(slot) => if slot < MAX_PLAYERS {
                self.players()[slot as int]
            } else {
                None
            },
            None => None,
        }
    }

    /// A client that is not connected and knows of no player.
    pub fn new() -> (r: Self)
        ensures
            r.wf(),
            !r.connected(),
            r.slot() is None,
            r.token() is None,
            r.held()@ == 0,
            forall|i: int| 0 <= i < MAX_PLAYERS ==> r.players()[i] is None,
    {
        Self {
            game: CommonGameInstance::new(),
            connected: false,
            client_id: None,
            auth_id: None,
            actions: Action::empty(),
        }
    }

    /// Opens a connection, unless one is open. Comes back with the login to
    /// send: the protocol revision and `name`, under a zero auth token.
    pub fn connect(&mut self, name: String) -> (r: Result<Packet, ClientError>)
        requires
            text_fits(name@),
        ensures
            final(self).players() == old(self).players(),
            final(self).slot() == old(self).slot(),
            final(self).token() == old(self).token(),
            final(self).held() == old(self).held(),
            final(self).connected(),
            old(self).wf() ==> final(self).wf(),
            match r {
                Ok(packet) => !old(self).connected() && carries_from_client(
                    packet@,
                    ClientEventView::Login { version: PACKET_PROTOCOL_VERSION, name: name@ },
                    match old(self).token() {
                        Some(token) => token,
                        None => 0,
                    },
                ) && packet.cursor() == packet@.len(),
                Err(e) => old(self).connected() && e == ClientError::AlreadyConnected,
            },
    {
        if self.connected {
            return Err(ClientError::AlreadyConnected);
        }
        self.connected = true;
        let event = ClientEvent::Login { version: PACKET_PROTOCOL_VERSION, name };
        Ok(packet_for(&event, self.token_or_zero()))
    }

    /// Whether a connection is open.
    pub fn is_connected(&self) -> (b: bool)
        ensures
            b == self.connected(),
    {
        self.connected
    }

    /// The slot that the server has granted.
    pub fn client_id(&self) -> (r: Option<u32>)
        ensures
            r == self.slot(),
    {
        self.client_id
    }

    /// The auth token that the server has granted.
    pub fn auth_id(&self) -> (r: Option<u32>)
        ensures
            r == self.token(),
    {
        self.auth_id
    }

    fn token_or_zero(&self) -> (t: u32)
        ensures
            t == match self.token() {
                Some(token) => token,
                None => 0,
            },
    {
        match self.auth_id {
            Some(token) => token,
            None => 0,
        }
    }

    /// Whether a connection is open and the server has granted a session.
    pub fn is_authenticated(&self) -> (b: bool)
        ensures
            b == (self.connected() && self.token() is Some),
    {
        self.connected && self.auth_id.is_some()
    }

    /// Takes note of the session that the server has granted.
    pub fn _on_login(&mut self, client_id: u32, auth_id: u32)
        ensures
            final(self).slot() == Some(client_id),
            final(self).token() == Some(auth_id),
            final(self).players() == old(self).players(),
            final(self).connected() == old(self).connected(),
            final(self).held() == old(self).held(),
            old(self).wf() ==> final(self).wf(),
    {
        self.client_id = Some(client_id);
        self.auth_id = Some(auth_id);
    }

    /// This client's own player.
    pub fn player(&self) -> (r: Option<&PlayerData>)
        requires
            self.wf(),
        ensures
            match r {
                Some(player) => self.own_player() == Some(*player),
                None => self.own_player() is None,
            },
    {
        match self.client_id {
            Some(slot) => {
                if (slot as usize) < MAX_PLAYERS {
                    self.game.get_player(slot).as_ref()
                } else {
                    None
                }
            },
            None => None,
        }
    }

    /// This client's own player, for changing it in place.
    pub fn player_mut(&mut self) -> (r: Option<&mut PlayerData>)
        requires
            old(self).wf(),
        ensures
            final(self).wf(),
            final(self).connected() == old(self).connected(),
            final(self).slot() == old(self).slot(),
            final(self).token() == old(self).token(),
            final(self).held() == old(self).held(),
            match r {
                Some(player) => {
                    &&& old(self).own_player() == Some(*player)
                    &&& final(self).players() == old(self).players().update(
                        old(self).slot()->0 as int,
                        Some(*final(player)),
                    )
                },
                None => {
                    &&& old(self).own_player() is None
                    &&& final(self).players() == old(self).players()
                },
            },
    {
        match self.client_id {
            Some(slot) => {
                if (slot as usize) < MAX_PLAYERS {
                    self.game.get_player_mut(slot).as_mut()
                } else {
                    None
                }
            },
            None => None,
        }
    }

    /// Whether every action of `action` is held down.
    pub fn has_action(&self, action: Action) -> (b: bool)
        ensures
            b == self.held().has(action),
    {
        self.actions.contains(action)
    }

    /// The packet that carries `event` to the server, under the granted auth
    /// token. Only a login may be sent before a session is granted, under a
    /// zero token.
    pub fn send(&self, event: &ClientEvent) -> (r: Result<Packet, ClientError>)
        requires
            client_event_encodable(event@),
        ensures
            match r {
                Ok(packet) => {
                    &&& self.connected()
                    &&& event@ is Login || self.token() is Some
                    &&& carries_from_client(
                        packet@,
                        event@,
                        match self.token() {
                            Some(token) => token,
                            None => 0,
                        },
                    )
                    &&& packet.cursor() == packet@.len()
                },
                Err(e) => e == if !self.connected() {
                    ClientError::NotConnected
                } else {
                    ClientError::NotAuthenticated
                } && (!self.connected() || (!(event@ is Login) && self.token() is None)),
            },
    {
        if !self.connected {
            return Err(ClientError::NotConnected);
        }
        if event.get_packet_type() != CLIENT_LOGIN && self.auth_id.is_none() {
            return Err(ClientError::NotAuthenticated);
        }
        Ok(packet_for(event, self.token_or_zero()))
    }

    /// Closes the connection. Comes back with the farewell to send first,
    /// where one can be sent: the client must be connected, and it must hold a
    /// session for the farewell to carry its token.
    pub fn disconnect(&mut self, reason: String) -> (r: Result<Packet, ClientError>)
        requires
            text_fits(reason@),
        ensures
            !final(self).connected(),
            final(self).players() == old(self).players(),
            final(self).slot() == old(self).slot(),
            final(self).token() == old(self).token(),
            final(self).held() == old(self).held(),
            old(self).wf() ==> final(self).wf(),
            match r {
                Ok(packet) => {
                    &&& old(self).connected()
                    &&& old(self).token() is Some
                    &&& carries_from_client(
                        packet@,
                        ClientEventView::Disconnect { reason: reason@ },
                        old(self).token()->0,
                    )
                    &&& packet.cursor() == packet@.len()
                },
                Err(e) => e == if !old(self).connected() {
                    ClientError::NotConnected
                } else {
                    ClientError::NotAuthenticated
                } && (!old(self).connected() || old(self).token() is None),
            },
    {
        let event = ClientEvent::Disconnect { reason };
        let farewell = self.send(&event);
        self.connected = false;
        farewell
    }

    /// Holds the actions of `action` down, or lets them go. Comes back with
    /// the message that tells the server which actions are now held down and
    /// where the player faces. The actions are recorded even where no message
    /// can be sent.
    pub fn set_action(&mut self, action: Action, value: bool) -> (r: Result<Packet, ClientError>)
        requires
            old(self).wf(),
        ensures
            final(self).wf(),
            final(self).held()@ == if value {
                old(self).held()@ | action@
            } else {
                old(self).held()@ & !action@
            },
            final(self).players() == old(self).players(),
            final(self).slot() == old(self).slot(),
            final(self).token() == old(self).token(),
            final(self).connected() == old(self).connected(),
            match r {
                Ok(packet) => {
                    &&& old(self).own_player() is Some
                    &&& old(self).connected()
                    &&& old(self).token() is Some
                    &&& carries_from_client(
                        packet@,
                        ClientEventView::PerformAction {
                            actions: final(self).held()@,
                            angles: old(self).own_player()->0.angles,
                        },
                        old(self).token()->0,
                    )
                    &&& packet.cursor() == packet@.len()
                },
                Err(e) => e == if old(self).own_player() is None {
                    ClientError::PlayerNotActive
                } else if !old(self).connected() {
                    ClientError::NotConnected
                } else {
                    ClientError::NotAuthenticated
                } && (old(self).own_player() is None || !old(self).connected() || old(
                    self,
                ).token() is None),
            },
    {
        self.actions.set(action, value);
        let angles: Vector3 = match self.player() {
            Some(player) => player.angles,
            None => {
                return Err(ClientError::PlayerNotActive);
            },
        };
        let event = ClientEvent::PerformAction { actions: self.actions, angles };
        self.send(&event)
    }

    /// Applies a message of the server.
    ///
    /// The first `Login` grants the session; any later one is ignored. A
    /// `PlayerSpawn` puts a player, idle, into its slot. A `Move` updates
    /// position and orientation of the player in its slot, if there is one. A
    /// `Disconnect` frees its slot. A message about a slot that does not exist
    /// is ignored.
    pub fn process_event(&mut self, event: ServerEvent)
        requires
            old(self).wf(),
        ensures
            final(self).wf(),
            final(self).connected() == old(self).connected(),
            final(self).held() == old(self).held(),
            final(self).players().len() == MAX_PLAYERS,
            match event@ {
                ServerEventView::Login { client_index, auth_id } => {
                    &&& final(self).players() == old(self).players()
                    &&& if old(self).token() is Some {
                        final(self).slot() == old(self).slot() && final(self).token() == old(
                            self,
                        ).token()
                    } else {
                        final(self).slot() == Some(client_index) && final(self).token() == Some(
                            auth_id,
                        )
                    }
                },
                ServerEventView::PlayerSpawn { client_index, name, position, angles } => {
                    &&& final(self).slot() == old(self).slot()
                    &&& final(self).token() == old(self).token()
                    &&& forall|i: int|
                        0 <= i < MAX_PLAYERS && i != client_index ==> final(self).players()[i]
                            == old(self).players()[i]
                    &&& client_index < MAX_PLAYERS ==> {
                        let player = final(self).players()[client_index as int];
                        &&& player is Some
                        &&& player->0.client_index == client_index
                        &&& player->0.name@ == name
                        &&& player->0.position == position
                        &&& player->0.angles == angles
                        &&& player->0.actions@ == 0
                    }
                },
                ServerEventView::Move { client_index, position, angles, velocity } => {
                    &&& final(self).slot() == old(self).slot()
                    &&& final(self).token() == old(self).token()
                    &&& forall|i: int|
                        0 <= i < MAX_PLAYERS && i != client_index ==> final(self).players()[i]
                            == old(self).players()[i]
                    &&& client_index < MAX_PLAYERS ==> final(self).players()[client_index as int]
                        == match old(self).players()[client_index as int] {
                        Some(player) => Some(PlayerData { position, angles, ..player }),
                        None => None,
                    }
                },
                ServerEventView::Disconnect { client_index, reason } => {
                    &&& final(self).slot() == old(self).slot()
                    &&& final(self).token() == old(self).token()
                    &&& forall|i: int|
                        0 <= i < MAX_PLAYERS && i != client_index ==> final(self).players()[i]
                            == old(self).players()[i]
                    &&& client_index < MAX_PLAYERS ==> final(self).players()[client_index as int]
                        is None
                },
            },
    {
        match event {
            ServerEvent::Login { client_index, auth_id } => {
                if self.auth_id.is_some() {
                    return ;
                }
                self._on_login(client_index, auth_id);
            },
            ServerEvent::PlayerSpawn { client_index, name, position, angles } => {
                if (client_index as usize) < MAX_PLAYERS {
                    let player = PlayerData::new(client_index, name, position, angles);
                    self.game.set_player(client_index, Some(player));
                }
            },
            ServerEvent::Move { client_index, position, angles, velocity } => {
                if (client_index as usize) < MAX_PLAYERS {
                    match self.game.get_player_mut(client_index) {
                        Some(player) => {
                            player.position = position;
                            player.angles = angles;
                        },
                        None => {},
                    }
                }
            },
            ServerEvent::Disconnect { client_index, reason } => {
                if (client_index as usize) < MAX_PLAYERS {
                    self.game.set_player(client_index, None);
                }
            },
        }
    }
}

} // verus!
