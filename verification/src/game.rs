//! The world as both sides hold it: one optional player per slot.

use crate::action::{Action, BACKWARD, FORWARD, LEFT, RIGHT};
use crate::def::{Vector3, MAX_PLAYERS};
use crate::events_server::{ServerEvent, ServerEventView};
use vstd::prelude::*;

verus! {

/// The world is a square from zero to this edge, along x and along y.
pub const WORLD_EDGE: u32 = 1000;

/// Per-player simulation state beyond position and orientation.
#[derive(Debug, Default, Clone, Copy, PartialEq, Eq, Structural)]
pub struct PlayerState {}

/// The player that occupies a slot.
#[derive(Debug, PartialEq)]
pub struct PlayerData {
    pub position: Vector3,
    pub angles: Vector3,
    pub name: String,
    pub client_index: u32,
    pub state: PlayerState,
    pub actions: Action,
}

impl PlayerData {
    /// A player in slot `client_id` that holds no action down.
    pub fn new(client_id: u32, name: String, position: Vector3, angles: Vector3) -> (p: Self)
        ensures
            p == (PlayerData {
                position,
                angles,
                name,
                client_index: client_id,
                state: PlayerState {  },
                actions: p.actions,
            }),
            p.actions@ == 0,
    {
        PlayerData {
            position,
            angles,
            name,
            client_index: client_id,
            state: PlayerState {  },
            actions: Action::empty(),
        }
    }

    /// The step that the held actions ask for along x and along y, in whole
    /// units: forward is one down on y and backward one up, left is one up on
    /// x and right one down. Opposite actions cancel.
    pub open spec fn step(&self) -> (int, int) {
        (
            if self.actions@ & LEFT != 0 {
                1int
            } else {
                0int
            } - if self.actions@ & RIGHT != 0 {
                1int
            } else {
                0int
            },
            if self.actions@ & BACKWARD != 0 {
                1int
            } else {
                0int
            } - if self.actions@ & FORWARD != 0 {
                1int
            } else {
                0int
            },
        )
    }

    /// The step that the held actions ask for along x and along y, in whole units.
    pub fn process_actions(&self) -> (r: (i8, i8))
        ensures
            r.0 == self.step().0,
            r.1 == self.step().1,
    {
        let mut dx: i8 = 0;
        let mut dy: i8 = 0;
        if self.actions.intersects(Action::from_bits_retain(FORWARD)) {
            dy -= 1;
        }
        if self.actions.intersects(Action::from_bits_retain(BACKWARD)) {
            dy += 1;
        }
        if self.actions.intersects(Action::from_bits_retain(LEFT)) {
            dx += 1;
        }
        if self.actions.intersects(Action::from_bits_retain(RIGHT)) {
            dx -= 1;
        }
        (dx, dy)
    }

    /// The message that announces this player.
    pub open spec fn spawn_event(&self) -> ServerEventView {
        ServerEventView::PlayerSpawn {
            client_index: self.client_index,
            name: self.name@,
            position: self.position,
            angles: self.angles,
        }
    }

    /// The message that announces this player.
    pub fn get_spawn_event(&self) -> (e: ServerEvent)
        ensures
            e@ == self.spawn_event(),
    {
        ServerEvent::PlayerSpawn {
            client_index: self.client_index,
            name: self.name.clone(),
            position: self.position,
            angles: self.angles,
        }
    }
}

/// Number of occupied slots among `slots`.
pub open spec fn occupied<T>(slots: Seq<Option<T>>) -> nat
    decreases slots.len(),
{
    if slots.len() == 0 {
        0
    } else {
        occupied(slots.drop_last()) + if slots.last() is Some {
            1nat
        } else {
            0nat
        }
    }
}

/// The first free slot among `slots`, if there is one.
pub open spec fn first_free<T>(slots: Seq<Option<T>>) -> Option<int> {
    if exists|i: int| 0 <= i < slots.len() && slots[i] is None {
        Some(
            choose|i: int|
                0 <= i < slots.len() && slots[i] is None && forall|j: int|
                    0 <= j < i ==> slots[j] is Some,
        )
    } else {
        None
    }
}

/// The first free slot is free, and every slot before it is occupied.
pub proof fn lemma_first_free<T>(slots: Seq<Option<T>>, i: int)
    requires
        0 <= i < slots.len(),
        slots[i] is None,
        forall|j: int| 0 <= j < i ==> slots[j] is Some,
    ensures
        first_free(slots) == Some(i),
{
    let p = choose|p: int|
        0 <= p < slots.len() && slots[p] is None && forall|j: int| 0 <= j < p ==> slots[j] is Some;
    if p < i {
        assert(slots[p] is Some);
    } else if i < p {
        assert(slots[i] is Some);
    }
}

/// No slot is occupied exactly when the count of occupied slots is zero.
pub proof fn lemma_occupied_zero<T>(slots: Seq<Option<T>>)
    ensures
        occupied(slots) == 0 <==> forall|i: int| 0 <= i < slots.len() ==> slots[i] is None,
    decreases slots.len(),
{
    if slots.len() > 0 {
        let front = slots.drop_last();
        lemma_occupied_zero(front);
        if occupied(slots) == 0 {
            assert forall|i: int| 0 <= i < slots.len() implies slots[i] is None by {
                if i < front.len() {
                    assert(front[i] == slots[i]);
                }
            }
        }
        if forall|i: int| 0 <= i < slots.len() ==> slots[i] is None {
            assert forall|i: int| 0 <= i < front.len() implies front[i] is None by {
                assert(front[i] == slots[i]);
            }
        }
    }
}

/// The slot table of the world. It always has `MAX_PLAYERS` slots.
#[derive(Debug)]
pub struct CommonGameInstance {
    players: Vec<Option<PlayerData>>,
}

impl CommonGameInstance {
    /// The slots in order.
    pub closed spec fn slots(&self) -> Seq<Option<PlayerData>> {
        self.players@
    }

    /// The table has exactly `MAX_PLAYERS` slots.
    pub open spec fn wf(&self) -> bool {
        self.slots().len() == MAX_PLAYERS
    }

    /// A world in which every slot is free.
    pub fn new() -> (r: Self)
        ensures
            r.wf(),
            forall|i: int| 0 <= i < MAX_PLAYERS ==> r.slots()[i] is None,
    {
        let mut players: Vec<Option<PlayerData>> = Vec::with_capacity(MAX_PLAYERS);
        let mut i: usize = 0;
        while i < MAX_PLAYERS
            invariant
                i <= MAX_PLAYERS,
                players@.len() == i,
                forall|j: int| 0 <= j < i ==> players@[j] is None,
            decreases MAX_PLAYERS - i,
        {
            players.push(None);
            i += 1;
        }
        Self { players }
    }

    /// Number of occupied slots.
    pub fn player_count(&self) -> (n: usize)
        requires
            self.wf(),
        ensures
            n == occupied(self.slots()),
    {
        let mut count: usize = 0;
        let mut i: usize = 0;
        while i < MAX_PLAYERS
            invariant
                i <= MAX_PLAYERS,
                self.players@.len() == MAX_PLAYERS,
                count == occupied(self.players@.take(i as int)),
                count <= i,
            decreases MAX_PLAYERS - i,
        {
            assert(self.players@.take(i + 1).drop_last() =~= self.players@.take(i as int));
            if self.players[i].is_some() {
                count += 1;
            }
            i += 1;
        }
        assert(self.players@.take(MAX_PLAYERS as int) =~= self.players@);
        count
    }

    /// The first free slot, if there is one.
    pub fn get_empty_slot(&self) -> (r: Option<u32>)
        requires
            self.wf(),
        ensures
            match r {
                Some(i) => first_free(self.slots()) == Some(i as int) && i < MAX_PLAYERS
                    && self.slots()[i as int] is None,
                None => first_free(self.slots()) is None,
            },
    {
        let mut i: usize = 0;
        while i < MAX_PLAYERS
            invariant
                i <= MAX_PLAYERS,
                self.players@.len() == MAX_PLAYERS,
                forall|j: int| 0 <= j < i ==> self.players@[j] is Some,
            decreases MAX_PLAYERS - i,
        {
            if self.players[i].is_none() {
                proof {
                    lemma_first_free(self.players@, i as int);
                }
                return Some(i as u32);
            }
            i += 1;
        }
        None
    }

    /// Puts `player` into slot `client_index`, or frees the slot.
    pub fn set_player(&mut self, client_index: u32, player: Option<PlayerData>)
        requires
            old(self).wf(),
            client_index < MAX_PLAYERS,
        ensures
            final(self).wf(),
            final(self).slots() == old(self).slots().update(client_index as int, player),
    {
        self.players[client_index as usize] = player;
    }

    /// What slot `client_index` holds.
    pub fn get_player(&self, client_index: u32) -> (r: &Option<PlayerData>)
        requires
            self.wf(),
            client_index < MAX_PLAYERS,
        ensures
            *r == self.slots()[client_index as int],
    {
        &self.players[client_index as usize]
    }

    /// What slot `client_index` holds, for changing it in place.
    pub fn get_player_mut(&mut self, client_index: u32) -> (r: &mut Option<PlayerData>)
        requires
            old(self).wf(),
            client_index < MAX_PLAYERS,
        ensures
            *r == old(self).slots()[client_index as int],
            final(self).wf(),
            final(self).slots() == old(self).slots().update(client_index as int, *final(r)),
    {
        &mut self.players[client_index as usize]
    }
}

} // verus!
