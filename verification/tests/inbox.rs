use defeated_by_titan::net::local::{axis_bits, local_intent, DodgeTap, Gestures, KeysDown};
use defeated_by_titan::shared::Buttons;
use defeated_by_titan::net::{neuester_fuer, Posteingang};
use defeated_by_titan::shared::{Intent, PlayerId};

#[test]
fn ohne_lag_wird_sofort_zugestellt() {
    let mut p = Posteingang::default();
    p.einwerfen(PlayerId(1), Intent { tick: 5, ..Default::default() }, 5);
    let raus = p.abholen(5);
    assert_eq!(raus.len(), 1);
    assert_eq!(raus[0].0, PlayerId(1));
}

#[test]
fn lag_haelt_genau_so_viele_ticks_zurueck() {
    let mut p = Posteingang::mit_lag(12);
    p.einwerfen(PlayerId(1), Intent::default(), 100);
    for jetzt in 100..112 {
        assert!(p.abholen(jetzt).is_empty(), "bei Tick {jetzt} noch nicht faellig");
    }
    assert_eq!(p.abholen(112).len(), 1);
}

#[test]
fn mehrere_spieler_bekommen_ihre_eigene_post() {
    let mut p = Posteingang::default();
    p.einwerfen(PlayerId(1), Intent { yaw_bits: 1.0f32.to_bits(), ..Default::default() }, 0);
    p.einwerfen(PlayerId(2), Intent { yaw_bits: 2.0f32.to_bits(), ..Default::default() }, 0);
    let raus = p.abholen(0);
    assert_eq!(raus.len(), 2);
    assert_eq!(p.letzter(PlayerId(1)).map(|i| f32::from_bits(i.yaw_bits)), Some(1.0));
    assert_eq!(p.letzter(PlayerId(2)).map(|i| f32::from_bits(i.yaw_bits)), Some(2.0));
}

#[test]
fn reihenfolge_bleibt_erhalten() {
    let mut p = Posteingang::default();
    for t in 0..5u64 {
        p.einwerfen(PlayerId(1), Intent { tick: t, ..Default::default() }, 0);
    }
    let ticks: Vec<u64> = p.abholen(0).into_iter().map(|(_, i)| i.tick).collect();
    assert_eq!(ticks, vec![0, 1, 2, 3, 4]);
}

#[test]
fn nichts_geht_verloren_wenn_niemand_abholt() {
    let mut p = Posteingang::mit_lag(3);
    p.einwerfen(PlayerId(1), Intent::default(), 0);
    p.einwerfen(PlayerId(1), Intent::default(), 1);
    assert_eq!(p.wartend(), 2);
    assert_eq!(p.abholen(10).len(), 2, "spaeter abholen holt beides");
    assert_eq!(p.wartend(), 0);
}

#[test]
fn inbox_collection_stops_at_the_first_letter_not_yet_due() {
    let mut p = Posteingang::mit_lag(2);
    p.einwerfen(PlayerId(1), Intent { tick: 1, ..Default::default() }, 0);
    p.einwerfen(PlayerId(2), Intent { tick: 2, ..Default::default() }, 1);
    let raus = p.abholen(2);
    assert_eq!(raus.len(), 1);
    assert_eq!(raus[0].1.tick, 1);
    assert_eq!(p.wartend(), 1);
    let raus = p.abholen(3);
    assert_eq!(raus, vec![(PlayerId(2), Intent { tick: 2, ..Default::default() })]);
}

#[test]
fn inbox_remembers_the_newest_intent_per_player_and_nothing_for_strangers() {
    let mut p = Posteingang::default();
    assert_eq!(p.letzter(PlayerId(1)), None);
    p.einwerfen(PlayerId(1), Intent { tick: 1, ..Default::default() }, 0);
    p.einwerfen(PlayerId(1), Intent { tick: 2, ..Default::default() }, 0);
    p.abholen(0);
    assert_eq!(p.letzter(PlayerId(1)).map(|i| i.tick), Some(2));
    assert_eq!(p.letzter(PlayerId(7)), None);
}

#[test]
fn inbox_a_body_takes_the_newest_of_its_own_letters() {
    let faellig = vec![
        (PlayerId(1), Intent { tick: 1, ..Default::default() }),
        (PlayerId(2), Intent { tick: 2, ..Default::default() }),
        (PlayerId(1), Intent { tick: 3, ..Default::default() }),
    ];
    assert_eq!(neuester_fuer(&faellig, PlayerId(1)).map(|i| i.tick), Some(3));
    assert_eq!(neuester_fuer(&faellig, PlayerId(2)).map(|i| i.tick), Some(2));
    assert_eq!(neuester_fuer(&faellig, PlayerId(3)), None);
}

#[test]
fn local_the_axes_are_exact_unit_floats() {
    assert_eq!(f32::from_bits(axis_bits(true, false)), 1.0);
    assert_eq!(f32::from_bits(axis_bits(false, true)), -1.0);
    assert_eq!(axis_bits(true, true), 0.0f32.to_bits());
    assert_eq!(axis_bits(false, false), 0.0f32.to_bits());
    let k = KeysDown { w: true, a: true, ..Default::default() };
    let i = local_intent(k, Buttons(Buttons::JUMP), 7, 8, 42);
    assert_eq!(f32::from_bits(i.move_x_bits), -1.0, "A alone strafes left");
    assert_eq!(f32::from_bits(i.move_y_bits), 1.0);
    assert_eq!((i.yaw_bits, i.pitch_bits, i.tick), (7, 8, 42));
    assert!(i.buttons.contains(Buttons::JUMP));
}

#[test]
fn local_a_double_tap_fires_once_and_a_held_key_never_repeats() {
    let mut t = DodgeTap::new();
    assert!(!t.feed(true, false, 10, 18), "the first tap only arms");
    assert!(!t.feed(false, false, 11, 18));
    assert!(t.feed(true, false, 20, 18), "the second tap inside the window fires");
    assert!(!t.feed(true, false, 21, 18), "a held key does not fire again");
    assert!(!t.feed(false, false, 22, 18));
    assert!(!t.feed(true, false, 23, 18), "the pair was spent, a third tap only arms");
    assert!(!t.feed(false, false, 24, 18));
    assert!(!t.feed(true, false, 100, 18), "too late: it re-arms instead");
    assert!(t.feed(false, true, 101, 18), "the single-key route fires on its edge");
    assert!(!t.feed(false, true, 102, 18));
}

#[test]
fn local_a_left_then_a_right_is_steering_and_not_a_flip() {
    let mut g = Gestures::new();
    let a = KeysDown { a: true, ..Default::default() };
    let d = KeysDown { d: true, ..Default::default() };
    let none = KeysDown::default();
    let mut flips = 0;
    for (i, k) in [a, none, d, none, a, none, d].iter().enumerate() {
        if g.buttons(*k, i as u64 * 2, 18, 18).contains(Buttons::FLIP) {
            flips += 1;
        }
    }
    assert_eq!(flips, 0);
    let mut h = Gestures::new();
    h.buttons(a, 0, 18, 18);
    h.buttons(none, 1, 18, 18);
    assert!(h.buttons(a, 2, 18, 18).contains(Buttons::FLIP), "A · nothing · A is a flip");
    let jump = h.buttons(KeysDown { space: true, ..Default::default() }, 3, 18, 18);
    assert!(jump.contains(Buttons::JUMP) && !jump.contains(Buttons::DODGE), "the first tap is still a jump");
}
