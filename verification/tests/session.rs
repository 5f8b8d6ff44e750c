use defeated_by_titan::net::session::{Roster, SeatKind};
use defeated_by_titan::shared::PlayerId;

fn addr() -> SeatKind {
    SeatKind::Remote("127.0.0.1:40000".to_string())
}

#[test]
fn session_a_new_peer_gets_a_new_seat_and_a_returning_one_does_not() {
    let mut roster = Roster::default();
    assert!(roster.seat(PlayerId(2), addr(), "peer".into(), 10));
    assert!(
        !roster.seat(PlayerId(2), addr(), "peer".into(), 20),
        "the same id twice must not ask for a second body"
    );
    assert_eq!(roster.len(), 1);
}

#[test]
fn f158a_a_dropped_connection_holds_the_slot_and_only_then_frees_it() {
    let (timeout, hold) = (300u64, 7200u64);
    let mut roster = Roster::default();
    roster.seat(PlayerId(2), addr(), "peer".into(), 0);

    assert!(roster.sweep(300, timeout, hold).is_empty(), "300 ticks of silence is the edge");
    assert!(roster.get(PlayerId(2)).expect("seated").connected());

    assert!(roster.sweep(301, timeout, hold).is_empty(), "quiet is not gone");
    assert!(!roster.get(PlayerId(2)).expect("still seated").connected());
    assert!(roster.contains(PlayerId(2)), "the chair is still his");

    assert!(!roster.seat(PlayerId(2), addr(), "peer".into(), 4000));
    assert!(roster.get(PlayerId(2)).expect("seated").connected());

    assert!(roster.sweep(4301, timeout, hold).is_empty());
    assert!(roster.sweep(4301 + hold, timeout, hold).is_empty(), "the hold is inclusive");
    assert_eq!(
        roster.sweep(4302 + hold, timeout, hold),
        vec![PlayerId(2)],
        "after 120 s of silence the chair is free"
    );
    assert!(roster.is_empty());
}

#[test]
fn session_the_local_seat_is_never_swept() {
    let mut roster = Roster::default();
    roster.seat(PlayerId(1), SeatKind::Local, "you".into(), 0);
    assert!(roster.sweep(1_000_000, 300, 7200).is_empty());
    assert!(roster.get(PlayerId(1)).expect("still here").connected());
    assert!(roster.clear_remote().is_empty(), "closing the door keeps this machine seated");
    assert_eq!(roster.len(), 1);
}

#[test]
fn session_the_list_is_in_id_order_on_every_run() {
    let mut roster = Roster::default();
    for id in [7u32, 2, 5, 1] {
        roster.seat(PlayerId(id), addr(), format!("p{id}"), 0);
    }
    let order: Vec<u32> = roster.iter().iter().map(|(id, _)| id.0).collect();
    assert_eq!(order, vec![1, 2, 5, 7]);
}

#[test]
fn session_a_returning_player_keeps_his_name_and_takes_the_new_line() {
    let mut roster = Roster::new();
    roster.seat(PlayerId(4), addr(), "first".into(), 0);
    roster.seat(PlayerId(4), SeatKind::Remote("10.0.0.2:5000".into()), "second".into(), 50);
    let seat = roster.get(PlayerId(4)).expect("seated");
    assert_eq!(seat.name, "first");
    assert_eq!(seat.kind, SeatKind::Remote("10.0.0.2:5000".into()));
    assert_eq!(seat.last_heard_tick, 50);
}

#[test]
fn session_closing_the_door_sends_every_peer_home_in_id_order() {
    let mut roster = Roster::new();
    roster.seat(PlayerId(9), addr(), "a".into(), 0);
    roster.seat(PlayerId(1), SeatKind::Local, "you".into(), 0);
    roster.seat(PlayerId(3), addr(), "b".into(), 0);
    assert_eq!(roster.clear_remote(), vec![PlayerId(3), PlayerId(9)]);
    assert_eq!(roster.len(), 1);
    assert!(roster.contains(PlayerId(1)));
    assert!(!roster.contains(PlayerId(3)));
}

#[test]
fn session_a_frame_wakes_a_quiet_seat_and_strangers_are_ignored() {
    let mut roster = Roster::new();
    roster.seat(PlayerId(2), addr(), "peer".into(), 0);
    roster.sweep(400, 300, 7200);
    assert!(!roster.get(PlayerId(2)).unwrap().connected());
    roster.heard(PlayerId(2), 410);
    let seat = roster.get(PlayerId(2)).unwrap();
    assert!(seat.connected());
    assert_eq!(seat.last_heard_tick, 410);
    roster.heard(PlayerId(5), 410);
    assert!(!roster.contains(PlayerId(5)));
    assert_eq!(roster.len(), 1);
}
