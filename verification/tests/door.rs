use defeated_by_titan::net::session::{seat_the_local_player, Roster, SeatKind};
use defeated_by_titan::net::socket::{close_the_door, sweep_the_door, take_frame, wanted_port, Arrival, PeerBook};
use defeated_by_titan::net::wire::{encode, Frame, WireError};
use defeated_by_titan::net::Posteingang;
use defeated_by_titan::shared::{IdCounter, Intent, PlayerId};

fn frame_claiming(player: u32, tick: u64) -> [u8; 33] {
    encode(&Frame { player: PlayerId(player), intent: Intent { tick, ..Default::default() } })
}

#[test]
fn door_the_port_asked_for_beats_the_flag_beats_the_file() {
    assert_eq!(wanted_port(Some(40_000), Some(41_000), 34_197), 40_000);
    assert_eq!(wanted_port(None, Some(41_000), 34_197), 41_000);
    assert_eq!(wanted_port(None, None, 34_197), 34_197);
}

#[test]
fn door_a_new_address_gets_a_chair_and_the_claimed_number_is_ignored() {
    let mut book = PeerBook::new();
    let mut roster = Roster::new();
    let mut inbox = Posteingang::mit_lag(0);
    let mut ids = IdCounter { next: 10 };
    roster.seat(PlayerId(1), SeatKind::Local, "you".into(), 0);

    let a = take_frame(&mut book, &mut roster, &mut inbox, &mut ids, "10.0.0.2:5000".into(), &frame_claiming(1, 7), 5);
    assert_eq!(a, Arrival::Joined { player: PlayerId(10), index: 1 });
    assert_eq!(book.seat_of("10.0.0.2:5000"), Some(PlayerId(10)));
    let seat = roster.get(PlayerId(10)).expect("seated");
    assert_eq!(seat.kind, SeatKind::Remote("10.0.0.2:5000".into()));
    assert_eq!(seat.name, "10.0.0.2:5000");
    let got = inbox.abholen(5);
    assert_eq!(got, vec![(PlayerId(10), Intent { tick: 7, ..Default::default() })], "the frame claimed player 1 — it goes to 10");

    let b = take_frame(&mut book, &mut roster, &mut inbox, &mut ids, "10.0.0.2:5000".into(), &frame_claiming(99, 8), 6);
    assert_eq!(b, Arrival::Heard(PlayerId(10)));
    assert_eq!(ids.next, 11, "a known address takes no new number");
    assert_eq!(roster.len(), 2);
    assert_eq!(inbox.abholen(6)[0].0, PlayerId(10));
}

#[test]
fn door_a_datagram_that_is_not_a_frame_changes_nothing() {
    let mut book = PeerBook::new();
    let mut roster = Roster::new();
    let mut inbox = Posteingang::mit_lag(0);
    let mut ids = IdCounter::default();
    let a = take_frame(&mut book, &mut roster, &mut inbox, &mut ids, "1.2.3.4:1".into(), &[1u8, 2, 3], 0);
    assert_eq!(a, Arrival::Dropped(WireError::Length(3)));
    let mut other = frame_claiming(0, 0);
    other[0] = 9;
    let b = take_frame(&mut book, &mut roster, &mut inbox, &mut ids, "1.2.3.4:1".into(), &other, 0);
    assert_eq!(b, Arrival::Dropped(WireError::Version(9)));
    assert_eq!(book.len(), 0);
    assert!(roster.is_empty());
    assert_eq!(inbox.wartend(), 0);
    assert_eq!(ids.next, 0);
}

#[test]
fn door_closing_sends_the_peers_home_and_forgets_their_addresses() {
    let mut book = PeerBook::new();
    let mut roster = Roster::new();
    let mut inbox = Posteingang::mit_lag(0);
    let mut ids = IdCounter { next: 2 };
    roster.seat(PlayerId(1), SeatKind::Local, "you".into(), 0);
    take_frame(&mut book, &mut roster, &mut inbox, &mut ids, "a:1".into(), &frame_claiming(0, 0), 0);
    take_frame(&mut book, &mut roster, &mut inbox, &mut ids, "b:2".into(), &frame_claiming(0, 0), 0);
    assert_eq!(close_the_door(&mut book, &mut roster), vec![PlayerId(2), PlayerId(3)]);
    assert_eq!(book.len(), 0);
    assert_eq!(roster.len(), 1);
    assert!(roster.contains(PlayerId(1)));
}

#[test]
fn door_a_sweep_gives_the_chair_away_and_forgets_the_address() {
    let mut book = PeerBook::new();
    let mut roster = Roster::new();
    let mut inbox = Posteingang::mit_lag(0);
    let mut ids = IdCounter { next: 2 };
    take_frame(&mut book, &mut roster, &mut inbox, &mut ids, "a:1".into(), &frame_claiming(0, 0), 0);
    take_frame(&mut book, &mut roster, &mut inbox, &mut ids, "b:2".into(), &frame_claiming(0, 0), 500);
    assert!(sweep_the_door(&mut book, &mut roster, 301, 300, 100).is_empty(), "quiet, not gone");
    assert_eq!(sweep_the_door(&mut book, &mut roster, 402, 300, 100), vec![PlayerId(2)]);
    assert_eq!(book.seat_of("a:1"), None);
    assert_eq!(book.seat_of("b:2"), Some(PlayerId(3)));
    assert_eq!(roster.len(), 1);
}

#[test]
fn session_the_local_player_is_seated_once() {
    let mut roster = Roster::new();
    assert!(seat_the_local_player(&mut roster, PlayerId(1), 3));
    assert!(!seat_the_local_player(&mut roster, PlayerId(1), 9), "a seated player is left alone");
    let seat = roster.get(PlayerId(1)).unwrap();
    assert_eq!(seat.kind, SeatKind::Local);
    assert_eq!(seat.name, "you");
    assert_eq!(seat.last_heard_tick, 3);
}

#[test]
fn wire_an_error_says_what_arrived_and_what_was_expected() {
    assert_eq!(WireError::Length(12).message(), "12 bytes, expected 33");
    assert_eq!(WireError::Version(0x02).message(), "version 0x02, expected 0x01");
    assert_eq!(WireError::Version(0xab).message(), "version 0xab, expected 0x01");
}

#[test]
fn ids_every_number_is_handed_out_once() {
    let mut ids = IdCounter::default();
    assert_eq!(ids.next_player(), PlayerId(0));
    assert_eq!(ids.next_player(), PlayerId(1));
    assert_eq!(ids.next, 2);
}

#[test]
fn door_a_full_counter_still_hears_known_peers_and_drops_junk() {
    let mut book = PeerBook::new();
    let mut roster = Roster::new();
    let mut inbox = Posteingang::mit_lag(0);
    let mut ids = IdCounter { next: u32::MAX - 1 };
    take_frame(&mut book, &mut roster, &mut inbox, &mut ids, "a:1".into(), &frame_claiming(0, 0), 0);
    assert_eq!(ids.next, u32::MAX);
    let heard = take_frame(&mut book, &mut roster, &mut inbox, &mut ids, "a:1".into(), &frame_claiming(0, 1), 1);
    assert_eq!(heard, Arrival::Heard(PlayerId(u32::MAX - 1)));
    let junk = take_frame(&mut book, &mut roster, &mut inbox, &mut ids, "b:2".into(), &[0u8; 4], 2);
    assert_eq!(junk, Arrival::Dropped(WireError::Length(4)));
    assert_eq!(book.len(), 1);
}
