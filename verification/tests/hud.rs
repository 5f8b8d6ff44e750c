use defeated_by_titan::menu::Screen;
use defeated_by_titan::hud::hud_shown;
use defeated_by_titan::hud::anchor_marks::{sense_action, MarkState, SenseAction};
use defeated_by_titan::hud::crosshair::{node_count, state_for, CrosshairPart, CrosshairState};
use defeated_by_titan::hud::hit_mark::HitKind;
use defeated_by_titan::hud::objective::objective_text;
use defeated_by_titan::mission::phase::MissionPhase;
use defeated_by_titan::mission::run::KillTally;
use defeated_by_titan::shared::{PlayerId, TitanId};

#[test]
fn f170_a_line_without_a_mission_is_no_line() {
    for phase in [
        MissionPhase::Briefing,
        MissionPhase::Deploying,
        MissionPhase::Active,
        MissionPhase::Won,
        MissionPhase::Lost,
    ] {
        assert_eq!(objective_text(phase, None), None, "{phase:?} without a mission");
    }
}

#[test]
fn f170_the_counter_is_the_files_number_and_not_a_three() {
    let mut tally = KillTally::with_target(5);
    assert_eq!(objective_text(MissionPhase::Active, Some(&tally)).unwrap(), "0/5");
    tally.credit(PlayerId(1), TitanId(1));
    assert_eq!(objective_text(MissionPhase::Active, Some(&tally)).unwrap(), "1/5");
    tally.credit(PlayerId(2), TitanId(2));
    assert_eq!(
        objective_text(MissionPhase::Active, Some(&tally)).unwrap(),
        "2/5",
        "the second player's kill counts too — the mission is won by the squad"
    );
    let mut two = KillTally::with_target(2);
    two.credit(PlayerId(1), TitanId(1));
    two.credit(PlayerId(1), TitanId(2));
    assert_eq!(objective_text(MissionPhase::Active, Some(&two)).unwrap(), "2/2");
}

#[test]
fn f170_the_verdict_is_the_phases_own_word() {
    let tally = KillTally::with_target(3);
    assert_eq!(objective_text(MissionPhase::Won, Some(&tally)).unwrap(), MissionPhase::Won.label());
    assert_eq!(objective_text(MissionPhase::Lost, Some(&tally)).unwrap(), MissionPhase::Lost.label());
    assert!(!objective_text(MissionPhase::Lost, Some(&tally)).unwrap().contains('/'));
}

#[test]
fn hud_the_counter_is_hidden_outside_the_fight() {
    let tally = KillTally::with_target(12);
    for phase in [MissionPhase::Briefing, MissionPhase::Deploying, MissionPhase::Hub] {
        assert_eq!(objective_text(phase, Some(&tally)), None, "{phase:?}");
    }
    assert_eq!(objective_text(MissionPhase::Active, Some(&tally)).unwrap(), "0/12");
}

#[test]
fn hit_mark_every_kind_has_its_own_word_and_signal() {
    let all = [HitKind::Kill, HitKind::Cut, HitKind::Graze];
    for (i, a) in all.iter().enumerate() {
        for b in &all[i + 1..] {
            assert_ne!(a.word(), b.word(), "{a:?} and {b:?} say the same word");
        }
    }
    assert_eq!(HitKind::Kill.word(), "KILL");
    assert_eq!(HitKind::Graze.word(), "GRAZE");
    assert_ne!(HitKind::Kill.signal_name(), HitKind::Cut.signal_name());
}

#[test]
fn crosshair_every_state_draws_its_own_parts() {
    assert_eq!(CrosshairPart::all().len(), 8);
    let marks = CrosshairPart::all().iter().filter(|p| p.is_mark()).count();
    assert!(marks > 0 && marks < 8);
    assert_eq!(marks, 4);
    assert_eq!(node_count(CrosshairState::Free), 4);
    assert_eq!(node_count(CrosshairState::Anchor), 4);
    assert_eq!(node_count(CrosshairState::Cortex), 8);
    assert_eq!(state_for(false, false), CrosshairState::Free);
    assert_eq!(state_for(true, false), CrosshairState::Anchor);
    assert_eq!(state_for(true, true), CrosshairState::Cortex, "cortex beats anchor");
    assert_eq!(state_for(false, true), CrosshairState::Cortex);
}

#[test]
fn anchor_marks_only_a_drawn_mark_has_a_tether() {
    for s in MarkState::drawn() {
        assert!(s.is_drawn());
    }
    assert!(!MarkState::Off.is_drawn());
    assert!(!MarkState::Off.has_tether());
    assert!(!MarkState::Candidate.has_tether());
    assert!(MarkState::Anchored.has_tether());
}

#[test]
fn hud_every_menu_hides_the_overlay_but_the_tuned_element() {
    assert!(hud_shown(Screen::Playing, false));
    assert!(!hud_shown(Screen::Settings, false));
    assert!(hud_shown(Screen::Settings, true));
    for s in [Screen::Title, Screen::Paused, Screen::Lobby, Screen::Debrief] {
        assert!(!hud_shown(s, true), "{s:?}");
    }
}

#[test]
fn anchor_marks_off_is_off_before_the_search() {
    assert_eq!(sense_action(0, true, true), SenseAction::Clear);
    assert_eq!(sense_action(0, false, false), SenseAction::Clear);
    assert_eq!(sense_action(4, false, true), SenseAction::Skip, "not due keeps what is drawn");
    assert_eq!(sense_action(4, true, false), SenseAction::Clear, "no field or camera clears");
    assert_eq!(sense_action(4, true, true), SenseAction::Search);
}
