use mp_game_net::action::{
    Action, BACKWARD, CROUCH, FORWARD, JUMP, LEFT, LEFT_CLICK, MIDDLE_MOUSE, RIGHT, RIGHT_CLICK,
    RUN, USE, WALK,
};

#[test]
fn every_action_is_a_single_distinct_bit() {
    let all = [
        FORWARD, BACKWARD, LEFT, RIGHT, JUMP, CROUCH, WALK, RUN, USE, LEFT_CLICK, RIGHT_CLICK,
        MIDDLE_MOUSE,
    ];
    let mut seen = 0u32;
    for bit in all {
        assert_eq!(bit.count_ones(), 1);
        assert_eq!(seen & bit, 0);
        seen |= bit;
    }
    assert_eq!(seen, 0xFFF);
}

#[test]
fn set_operations() {
    let mut held = Action::empty();
    assert!(held.is_empty());
    assert_eq!(held.bits(), 0);
    held.insert(Action::from_bits_retain(FORWARD | LEFT));
    assert_eq!(held.bits(), 0x5);
    assert!(held.contains(Action::from_bits_retain(FORWARD)));
    assert!(held.contains(Action::from_bits_retain(FORWARD | LEFT)));
    assert!(!held.contains(Action::from_bits_retain(FORWARD | RIGHT)));
    assert!(held.contains(Action::empty()));
    assert!(held.intersects(Action::from_bits_retain(FORWARD | RIGHT)));
    assert!(!held.intersects(Action::from_bits_retain(RIGHT)));
    held.toggle(Action::from_bits_retain(LEFT | RIGHT));
    assert_eq!(held.bits(), 0x9);
    held.remove(Action::from_bits_retain(FORWARD | JUMP));
    assert_eq!(held.bits(), 0x8);
    held.set(Action::from_bits_retain(RUN), true);
    assert_eq!(held.bits(), 0x88);
    held.set(Action::from_bits_retain(RIGHT), false);
    assert_eq!(held.bits(), 0x80);
    assert_eq!(held.union(Action::from_bits_retain(USE)).bits(), 0x180);
    assert_eq!(held, Action::from_bits_retain(0x80));
}

#[test]
fn unnamed_bits_are_kept() {
    assert_eq!(Action::from_bits_retain(0xF000_0000).bits(), 0xF000_0000);
}
