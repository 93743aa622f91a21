use mp_game_net::action::{Action, BACKWARD, FORWARD, JUMP, LEFT, RIGHT};
use mp_game_net::def::{Vector3, MAX_PLAYERS};
use mp_game_net::events_server::ServerEvent;
use mp_game_net::game::{CommonGameInstance, PlayerData, WORLD_EDGE};

fn player(slot: u32) -> PlayerData {
    PlayerData::new(slot, format!("p{}", slot), Vector3::new(1, 2, 3), Vector3::new(4, 5, 6))
}

#[test]
fn capacity_is_thirty_two() {
    assert_eq!(MAX_PLAYERS, 32);
}

#[test]
fn vector_components_come_in_order() {
    assert_eq!(Vector3::new(1, 2, 3).to_vec(), vec![1, 2, 3]);
    assert_eq!(Vector3::zero(), Vector3 { x: 0, y: 0, z: 0 });
    assert_eq!(f32::from_bits(Vector3::zero().x), 0.0);
}

#[test]
fn new_player_is_idle() {
    let p = player(3);
    assert_eq!(p.client_index, 3);
    assert_eq!(p.name, "p3");
    assert!(p.actions.is_empty());
    assert_eq!(
        p.get_spawn_event(),
        ServerEvent::PlayerSpawn {
            client_index: 3,
            name: "p3".into(),
            position: Vector3::new(1, 2, 3),
            angles: Vector3::new(4, 5, 6),
        }
    );
}

#[test]
fn slots_fill_from_the_front() {
    let mut game = CommonGameInstance::new();
    assert_eq!(game.player_count(), 0);
    assert_eq!(game.get_empty_slot(), Some(0));
    game.set_player(0, Some(player(0)));
    game.set_player(2, Some(player(2)));
    assert_eq!(game.player_count(), 2);
    assert_eq!(game.get_empty_slot(), Some(1));
    game.set_player(1, Some(player(1)));
    assert_eq!(game.get_empty_slot(), Some(3));
    assert_eq!(game.get_player(2).as_ref().unwrap().name, "p2");
    assert!(game.get_player(31).is_none());
    game.set_player(0, None);
    assert_eq!(game.get_empty_slot(), Some(0));
    assert_eq!(game.player_count(), 2);
}

#[test]
fn full_table_has_no_empty_slot() {
    let mut game = CommonGameInstance::new();
    for slot in 0..32 {
        game.set_player(slot, Some(player(slot)));
    }
    assert_eq!(game.player_count(), 32);
    assert_eq!(game.get_empty_slot(), None);
}

#[test]
fn player_can_be_changed_in_place() {
    let mut game = CommonGameInstance::new();
    game.set_player(5, Some(player(5)));
    if let Some(p) = game.get_player_mut(5) {
        p.position = Vector3::new(9, 9, 9);
    }
    assert_eq!(game.get_player(5).as_ref().unwrap().position, Vector3::new(9, 9, 9));
    *game.get_player_mut(5) = None;
    assert_eq!(game.player_count(), 0);
}

#[test]
fn held_actions_say_which_way_to_step() {
    assert_eq!(WORLD_EDGE, 1000);
    let mut p = player(0);
    assert_eq!(p.process_actions(), (0, 0));
    p.actions = Action::from_bits_retain(FORWARD);
    assert_eq!(p.process_actions(), (0, -1));
    p.actions = Action::from_bits_retain(BACKWARD | LEFT);
    assert_eq!(p.process_actions(), (1, 1));
    p.actions = Action::from_bits_retain(RIGHT | JUMP);
    assert_eq!(p.process_actions(), (-1, 0));
    p.actions = Action::from_bits_retain(FORWARD | BACKWARD | LEFT | RIGHT);
    assert_eq!(p.process_actions(), (0, 0));
}
