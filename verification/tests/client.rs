use mp_game_net::action::{Action, FORWARD, LEFT};
use mp_game_net::client::{ClientError, GameInstance};
use mp_game_net::def::Vector3;
use mp_game_net::events_client::ClientEvent;
use mp_game_net::events_server::ServerEvent;
use mp_game_net::packet::Packet;
use mp_game_net::{PacketSerialize, PACKET_PROTOCOL_VERSION};

fn read(packet: &Packet) -> (ClientEvent, u32) {
    let parsed = Packet::try_from(packet.as_slice().to_vec()).unwrap();
    (ClientEvent::from_packet(&parsed).unwrap(), parsed.auth_id())
}

fn own_spawn(slot: u32) -> ServerEvent {
    ServerEvent::PlayerSpawn {
        client_index: slot,
        name: "me".into(),
        position: Vector3::new(1, 2, 3),
        angles: Vector3::new(4, 5, 6),
    }
}

#[test]
fn connect_sends_a_login_once() {
    let mut game = GameInstance::new();
    assert!(!game.is_connected());
    let packet = game.connect("me".into()).unwrap();
    assert_eq!(
        read(&packet),
        (ClientEvent::Login { version: PACKET_PROTOCOL_VERSION, name: "me".into() }, 0)
    );
    assert!(game.is_connected());
    assert!(!game.is_authenticated());
    assert_eq!(game.connect("me".into()).unwrap_err(), ClientError::AlreadyConnected);
}

#[test]
fn first_login_reply_grants_the_session() {
    let mut game = GameInstance::new();
    game.connect("me".into()).unwrap();
    game.process_event(ServerEvent::Login { client_index: 4, auth_id: 77 });
    assert_eq!(game.client_id(), Some(4));
    assert_eq!(game.auth_id(), Some(77));
    assert!(game.is_authenticated());
    game.process_event(ServerEvent::Login { client_index: 5, auth_id: 88 });
    assert_eq!(game.client_id(), Some(4));
    assert_eq!(game.auth_id(), Some(77));
}

#[test]
fn nothing_but_a_login_is_sent_before_authentication() {
    let mut game = GameInstance::new();
    let bye = ClientEvent::Disconnect { reason: "x".into() };
    assert_eq!(game.send(&bye).unwrap_err(), ClientError::NotConnected);
    game.connect("me".into()).unwrap();
    assert_eq!(game.send(&bye).unwrap_err(), ClientError::NotAuthenticated);
    let login = ClientEvent::Login { version: 0, name: "me".into() };
    assert_eq!(read(&game.send(&login).unwrap()).1, 0);
    game._on_login(1, 0xCAFE);
    assert_eq!(read(&game.send(&bye).unwrap()), (ClientEvent::Disconnect { reason: "x".into() }, 0xCAFE));
}

#[test]
fn actions_are_recorded_and_reported() {
    let mut game = GameInstance::new();
    let forward = Action::from_bits_retain(FORWARD);
    let left = Action::from_bits_retain(LEFT);
    assert_eq!(game.set_action(forward, true).unwrap_err(), ClientError::PlayerNotActive);
    assert!(game.has_action(forward));
    game.connect("me".into()).unwrap();
    game.process_event(ServerEvent::Login { client_index: 2, auth_id: 9 });
    assert!(game.player().is_none());
    game.process_event(own_spawn(2));
    assert_eq!(game.player().unwrap().name, "me");
    let packet = game.set_action(left, true).unwrap();
    assert_eq!(
        read(&packet),
        (
            ClientEvent::PerformAction {
                actions: Action::from_bits_retain(FORWARD | LEFT),
                angles: Vector3::new(4, 5, 6)
            },
            9
        )
    );
    let packet = game.set_action(forward, false).unwrap();
    assert_eq!(
        read(&packet).0,
        ClientEvent::PerformAction { actions: left, angles: Vector3::new(4, 5, 6) }
    );
    assert!(!game.has_action(forward));
    assert!(game.has_action(left));
}

#[test]
fn world_follows_the_server() {
    let mut game = GameInstance::new();
    game.process_event(own_spawn(3));
    game.process_event(ServerEvent::Move {
        client_index: 3,
        position: Vector3::new(7, 8, 9),
        angles: Vector3::new(1, 1, 1),
        velocity: Vector3::new(2, 2, 2),
    });
    game._on_login(3, 1);
    let me = game.player().unwrap();
    assert_eq!(me.position, Vector3::new(7, 8, 9));
    assert_eq!(me.angles, Vector3::new(1, 1, 1));
    assert_eq!(me.client_index, 3);
    game.process_event(ServerEvent::Move {
        client_index: 4,
        position: Vector3::zero(),
        angles: Vector3::zero(),
        velocity: Vector3::zero(),
    });
    game.process_event(ServerEvent::Disconnect { client_index: 3, reason: "gone".into() });
    assert!(game.player().is_none());
}

#[test]
fn messages_about_slots_that_do_not_exist_are_ignored() {
    let mut game = GameInstance::new();
    game.process_event(own_spawn(32));
    game.process_event(own_spawn(u32::MAX));
    game.process_event(ServerEvent::Disconnect { client_index: 32, reason: "x".into() });
    game.process_event(ServerEvent::Move {
        client_index: 99,
        position: Vector3::zero(),
        angles: Vector3::zero(),
        velocity: Vector3::zero(),
    });
    game._on_login(32, 1);
    assert!(game.player().is_none());
}

#[test]
fn disconnect_says_farewell_and_closes() {
    let mut game = GameInstance::new();
    assert_eq!(game.disconnect("x".into()).unwrap_err(), ClientError::NotConnected);
    game.connect("me".into()).unwrap();
    assert_eq!(game.disconnect("x".into()).unwrap_err(), ClientError::NotAuthenticated);
    assert!(!game.is_connected());
    game.connect("me".into()).unwrap();
    game._on_login(0, 5);
    let packet = game.disconnect("Disconnect".into()).unwrap();
    assert_eq!(read(&packet), (ClientEvent::Disconnect { reason: "Disconnect".into() }, 5));
    assert!(!game.is_connected());
    assert!(!game.is_authenticated());
}

#[test]
fn own_player_can_be_changed_in_place() {
    let mut game = GameInstance::new();
    assert!(game.player_mut().is_none());
    game._on_login(2, 1);
    assert!(game.player_mut().is_none());
    game.process_event(own_spawn(2));
    game.player_mut().unwrap().angles = Vector3::new(9, 9, 9);
    assert_eq!(game.player().unwrap().angles, Vector3::new(9, 9, 9));
}
