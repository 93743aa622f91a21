use mp_game_net::netstat::{NetContainer, NetDirection, NetStat};

#[test]
fn new_statistics_are_blank() {
    let stat = NetStat::new();
    assert_eq!(stat.pk_count(), NetContainer::new(0, 0));
    assert_eq!(stat.activity_time(), NetContainer::new(None, None));
    assert!(!stat.has_activity_within(u64::MAX, 0));
}

#[test]
fn packets_are_counted_per_direction() {
    let mut stat = NetStat::new();
    stat.inc_pk_count(NetDirection::In);
    stat.inc_pk_count(NetDirection::In);
    stat.inc_pk_count(NetDirection::Out);
    assert_eq!(stat.pk_count(), NetContainer { tx: 1, rx: 2 });
    stat.reset_pk_count();
    assert_eq!(stat.pk_count(), NetContainer { tx: 0, rx: 0 });
}

#[test]
fn counters_start_over_at_their_maximum() {
    let mut stat = NetStat::new();
    for _ in 0..65535u32 {
        stat.inc_pk_count(NetDirection::Out);
    }
    assert_eq!(stat.pk_count().tx, 65535);
    stat.inc_pk_count(NetDirection::Out);
    assert_eq!(stat.pk_count().tx, 0);
}

#[test]
fn activity_is_recent_strictly_within_the_window() {
    let mut stat = NetStat::new();
    stat.mark_activity(NetDirection::In, 1000);
    assert_eq!(stat.activity_time(), NetContainer { tx: None, rx: Some(1000) });
    assert!(stat.has_activity_within(30_000, 1000));
    assert!(stat.has_activity_within(30_000, 30_999));
    assert!(!stat.has_activity_within(30_000, 31_000));
    assert!(!stat.has_activity_within(0, 1000));
    stat.mark_activity(NetDirection::Out, 31_000);
    assert_eq!(stat.activity_time(), NetContainer { tx: Some(31_000), rx: Some(1000) });
    assert!(stat.has_activity_within(1, 31_000));
    assert!(stat.has_activity_within(5, 500));
}
