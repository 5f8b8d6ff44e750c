use defeated_by_titan::data::{Objective, Ring};
use defeated_by_titan::mission::objective::{
    progress_of, verdict, Achieved, Course, GateWatch, Haul, ObjectiveProgress,
};
use defeated_by_titan::mission::phase::MissionPhase;
use defeated_by_titan::shared::{Point, TitanId};

fn p(x: f32, y: f32, z: f32) -> Point {
    Point { x_bits: x.to_bits(), y_bits: y.to_bits(), z_bits: z.to_bits() }
}

fn breach() -> Objective {
    Objective::Breach { gate_m: p(0.0, 0.0, 0.0), reach_m_bits: 5.0f32.to_bits(), breaches_allowed: 2 }
}

fn parcours() -> Objective {
    Objective::Parcours {
        rings: vec![
            Ring { center_m: p(0.0, 10.0, 0.0), radius_m_bits: 5.0f32.to_bits() },
            Ring { center_m: p(40.0, 10.0, 0.0), radius_m_bits: 5.0f32.to_bits() },
        ],
    }
}

fn escort() -> Objective {
    Objective::Escort {
        waypoints: vec![p(0.0, 0.0, 0.0), p(10.0, 0.0, 0.0)],
        speed_m_s_bits: 2.0f32.to_bits(),
        escort_radius_m_bits: 8.0f32.to_bits(),
        size_m: p(2.0, 2.0, 3.0),
    }
}

#[test]
fn the_clock_loses_a_cull_and_wins_a_breach() {
    let out_of_time = Achieved { expired: true, ..Default::default() };
    assert_eq!(verdict(&Objective::Cull, out_of_time), Some(MissionPhase::Lost));
    assert_eq!(verdict(&breach(), out_of_time), Some(MissionPhase::Won));
    assert_eq!(verdict(&parcours(), out_of_time), Some(MissionPhase::Lost));
    assert_eq!(verdict(&escort(), out_of_time), Some(MissionPhase::Lost));
}

#[test]
fn a_gate_that_fell_on_the_deadline_tick_is_still_a_loss() {
    let both = Achieved { expired: true, gate_fallen: true, ..Default::default() };
    assert_eq!(verdict(&breach(), both), Some(MissionPhase::Lost));
}

#[test]
fn nothing_is_decided_while_nothing_has_happened() {
    let nothing = Achieved::default();
    for goal in [Objective::Cull, breach(), parcours(), escort()] {
        assert_eq!(verdict(&goal, nothing), None, "{goal:?} decided itself out of nothing");
    }
}

#[test]
fn every_mode_is_lost_when_every_player_is_down() {
    let down = Achieved { everybody_down: true, ..Default::default() };
    for goal in [Objective::Cull, breach(), parcours(), escort()] {
        assert_eq!(verdict(&goal, down), Some(MissionPhase::Lost), "{goal:?}");
    }
}

#[test]
fn each_mode_is_won_by_its_own_achievement_and_by_nobody_elses() {
    let kills = Achieved { kills_reached: true, ..Default::default() };
    let course = Achieved { course_done: true, ..Default::default() };
    let cart = Achieved { cart_home: true, ..Default::default() };

    assert_eq!(verdict(&Objective::Cull, kills), Some(MissionPhase::Won));
    assert_eq!(verdict(&Objective::Cull, course), None, "a ring does not win a cull");
    assert_eq!(verdict(&Objective::Cull, cart), None);

    assert_eq!(verdict(&parcours(), course), Some(MissionPhase::Won));
    assert_eq!(verdict(&parcours(), kills), None, "a kill does not win a parcours");

    assert_eq!(verdict(&escort(), cart), Some(MissionPhase::Won));
    assert_eq!(verdict(&escort(), kills), None, "a kill does not win an escort");

    assert_eq!(verdict(&breach(), kills), None);
    assert_eq!(verdict(&breach(), course), None);
}

#[test]
fn one_titan_at_the_gate_is_one_breach_however_long_he_stands_there() {
    let mut watch = GateWatch::new(p(0.0, 0.0, 0.0), 5.0f32.to_bits(), 2);
    assert!(watch.note(TitanId(1)));
    assert!(!watch.note(TitanId(1)), "the same titan a second time is not a second breach");
    assert_eq!(watch.count(), 1);
    assert!(!watch.fallen(), "one of two allowed is not a fall");
    watch.note(TitanId(2));
    assert!(!watch.fallen(), "two of two allowed is still not a fall");
    watch.note(TitanId(3));
    assert!(watch.fallen(), "the third one is one more than allowed");
}

#[test]
fn a_course_is_flown_in_order_and_an_empty_one_is_never_done() {
    let mut course = Course::new(&[
        Ring { center_m: p(0.0, 0.0, 0.0), radius_m_bits: 4.0f32.to_bits() },
        Ring { center_m: p(30.0, 0.0, 0.0), radius_m_bits: 4.0f32.to_bits() },
    ]);
    assert!(!course.done());
    assert_eq!(course.next_gate().map(|(i, _)| i), Some(0));
    assert_eq!(course.pass(), Some(0));
    assert_eq!(course.next_gate().map(|(i, _)| i), Some(1), "the second ring comes second");
    assert!(!course.done(), "one of two rings is not a parcours");
    assert_eq!(course.pass(), Some(1));
    assert!(course.done());
    assert_eq!(course.pass(), None, "there is no third ring to fly");

    assert!(!Course::new(&[]).done());
}

#[test]
fn a_haul_without_a_path_is_never_home() {
    assert!(!Haul::new(&[], 2.0f32.to_bits(), 8.0f32.to_bits()).arrived());
    assert!(!Haul::new(&[p(0.0, 0.0, 0.0)], 2.0f32.to_bits(), 8.0f32.to_bits()).arrived());
}

#[test]
fn the_progress_of_a_mode_is_that_modes_progress_and_no_other() {
    assert_eq!(progress_of(&Objective::Cull), ObjectiveProgress::Cull);
    assert!(matches!(progress_of(&breach()), ObjectiveProgress::Breach(_)));
    assert!(matches!(progress_of(&parcours()), ObjectiveProgress::Parcours(_)));
    assert!(matches!(progress_of(&escort()), ObjectiveProgress::Escort(_)));
}

#[test]
fn objective_a_haul_walks_its_legs_forward_and_is_home_on_the_last_waypoint() {
    let path = [p(0.0, 0.0, 0.0), p(1.0, 0.0, 0.0), p(2.0, 0.0, 0.0)];
    let mut haul = Haul::new(&path, 2.0f32.to_bits(), 8.0f32.to_bits());
    assert_eq!((haul.leg(), haul.along_m_bits()), (0, 0));
    haul.move_to(1, 0.5f32.to_bits());
    assert_eq!(haul.leg(), 1);
    assert_eq!(f32::from_bits(haul.along_m_bits()), 0.5);
    assert!(!haul.arrived());
    haul.move_to(2, 0);
    assert!(haul.arrived(), "on the last waypoint is home");
}

#[test]
fn objective_a_fresh_watch_and_a_fresh_course_start_from_nothing() {
    match progress_of(&breach()) {
        ObjectiveProgress::Breach(w) => {
            assert_eq!(w.count(), 0);
            assert!(!w.fallen());
            assert_eq!(w.allowed, 2);
        }
        other => panic!("{other:?}"),
    }
    match progress_of(&parcours()) {
        ObjectiveProgress::Parcours(c) => {
            assert_eq!(c.passed(), 0);
            assert_eq!(c.gates.len(), 2);
            assert_eq!(c.gates[1].at, p(40.0, 10.0, 0.0));
        }
        other => panic!("{other:?}"),
    }
}
