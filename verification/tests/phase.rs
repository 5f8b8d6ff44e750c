use defeated_by_titan::mission::phase::MissionPhase;

#[test]
fn every_phase_has_its_own_number() {
    let all = [
        MissionPhase::Briefing,
        MissionPhase::Deploying,
        MissionPhase::Active,
        MissionPhase::Won,
        MissionPhase::Lost,
        MissionPhase::Hub,
    ];
    let mut codes: Vec<u8> = all.iter().map(|p| p.code()).collect();
    codes.sort_unstable();
    codes.dedup();
    assert_eq!(codes.len(), all.len(), "two phases share a number: {codes:?}");
    assert_eq!(MissionPhase::Lost.code(), 4, "scripts written today say 4 for Lost");
    assert_eq!(MissionPhase::Won.code(), 3);
    assert_eq!(MissionPhase::Hub.code(), 5, "the hub takes the next free number, not a used one");
}

#[test]
fn only_won_and_lost_are_a_verdict() {
    assert!(MissionPhase::Won.is_decided());
    assert!(MissionPhase::Lost.is_decided());
    assert!(!MissionPhase::Active.is_decided());
    assert!(!MissionPhase::Briefing.is_decided());
    assert!(!MissionPhase::Deploying.is_decided());
    assert!(!MissionPhase::Hub.is_decided());
}

#[test]
fn only_deploying_and_active_are_a_running_sortie() {
    assert!(MissionPhase::Deploying.is_running());
    assert!(MissionPhase::Active.is_running());
    assert!(!MissionPhase::Hub.is_running());
    assert!(!MissionPhase::Briefing.is_running());
    assert!(!MissionPhase::Won.is_running());
    assert!(!MissionPhase::Lost.is_running());
}

#[test]
fn a_game_without_a_mission_starts_in_briefing() {
    assert_eq!(MissionPhase::default(), MissionPhase::Briefing);
}

#[test]
fn phase_every_phase_has_its_word_and_its_number() {
    let all = [
        (MissionPhase::Briefing, 0u8),
        (MissionPhase::Deploying, 1),
        (MissionPhase::Active, 2),
        (MissionPhase::Won, 3),
        (MissionPhase::Lost, 4),
        (MissionPhase::Hub, 5),
    ];
    for (p, code) in all {
        assert_eq!(p.code(), code, "{p:?}");
        assert!(!p.label().is_empty(), "{p:?}");
        assert!(!(p.is_decided() && p.is_running()), "{p:?} is a verdict and a running sortie");
    }
}
