use defeated_by_titan::mission::run::{count_kills, KillHit};
use defeated_by_titan::data::{Difficulty, MissionTemplate, Objective, Wave};
use defeated_by_titan::mission::run::{resolve, KillTally, MissionClock, PendingTitan, WaveSchedule};
use defeated_by_titan::shared::{PlayerId, Point, TitanId};

fn s(x: f32) -> u32 {
    x.to_bits()
}

fn two_shapes() -> MissionTemplate {
    MissionTemplate {
        name: "Skirmish".into(),
        map: "ashgate".into(),
        target_duration_s_bits: s(330.0),
        kill_target: 3,
        waves: vec![Wave { at_s_bits: s(0.0), kind: "husk".into(), count: 2 }],
        objective: Objective::Cull,
        difficulties: vec![(
            "elite".to_string(),
            Difficulty {
                name: "Elite".into(),
                target_duration_s_bits: s(300.0),
                kill_target: 5,
                waves: vec![
                    Wave { at_s_bits: s(0.0), kind: "husk".into(), count: 3 },
                    Wave { at_s_bits: s(60.0), kind: "scuttler".into(), count: 2 },
                ],
            },
        )],
    }
}

#[test]
fn a_sortie_without_a_difficulty_flies_the_templates_own_numbers() {
    let t = two_shapes();
    let n = resolve(&t, None).expect("no difficulty is a legal sortie");
    assert_eq!(f32::from_bits(n.target_duration_s_bits), 330.0);
    assert_eq!(n.kill_target, 3);
    assert_eq!(n.waves.len(), 1);
    assert_eq!(n.name, "Skirmish", "with no level the name carries no level");
}

#[test]
fn a_difficulty_replaces_all_three_numbers_and_not_one_of_them() {
    let t = two_shapes();
    let n = resolve(&t, Some("elite")).expect("`elite` stands in the file");
    assert_eq!(n.kill_target, 5, "the level's kill target");
    assert_eq!(f32::from_bits(n.target_duration_s_bits), 300.0, "the level's deadline, not the template's 330");
    assert_eq!(n.waves.len(), 2, "the level's waves, not the template's one");
    assert_eq!(n.waves[1].kind, "scuttler", "and its kinds — an elite sortie is worse, not longer");
    assert_eq!(n.name, "Skirmish · Elite");
    assert_eq!(n.objective, &Objective::Cull, "and the MODE is still the template's");
}

#[test]
fn a_difficulty_cannot_change_the_mode() {
    let mut t = two_shapes();
    t.objective = Objective::Breach {
        gate_m: Point { x_bits: s(0.0), y_bits: s(0.0), z_bits: s(-14.0) },
        reach_m_bits: s(7.0),
        breaches_allowed: 3,
    };
    let level = resolve(&t, Some("elite")).expect("`elite` stands in the file");
    let direct = resolve(&t, None).expect("no difficulty is a legal sortie");
    assert_eq!(level.objective, direct.objective, "the level flew a different mode");
    assert!(matches!(level.objective, Objective::Breach { .. }));
}

#[test]
fn a_difficulty_the_file_does_not_know_resolves_to_nothing() {
    assert!(resolve(&two_shapes(), Some("impossible")).is_none());
}

#[test]
fn the_deadline_is_the_start_plus_the_duration() {
    let clock = MissionClock { started_at_tick: 0, duration_ticks: 19_800, decided_at_tick: None };
    assert_eq!(clock.deadline_tick(), 19_800);
    assert!(!clock.expired(19_799));
    assert!(clock.expired(19_800), "the deadline tick is the one it fires on");
    assert_eq!(clock.elapsed(1_234), 1_234);
}

#[test]
fn a_zero_length_mission_never_expires() {
    let clock = MissionClock { started_at_tick: 0, duration_ticks: 0, decided_at_tick: None };
    assert!(!clock.expired(10_000));
}

#[test]
fn the_second_cortex_hit_on_the_same_titan_counts_nothing() {
    let mut tally = KillTally::with_target(3);
    assert!(tally.credit(PlayerId(1), TitanId(7)));
    assert!(!tally.credit(PlayerId(1), TitanId(7)), "the same titan twice is one kill");
    assert!(!tally.credit(PlayerId(2), TitanId(7)), "and not one per player either");
    assert_eq!(tally.total(), 1);
    assert_eq!(tally.of(PlayerId(1)), 1);
    assert_eq!(tally.of(PlayerId(2)), 0);
}

#[test]
fn the_counter_keeps_the_credit_apart_and_the_total_together() {
    let mut tally = KillTally::with_target(3);
    tally.credit(PlayerId(1), TitanId(1));
    tally.credit(PlayerId(2), TitanId(2));
    tally.credit(PlayerId(1), TitanId(3));
    assert_eq!(tally.of(PlayerId(1)), 2);
    assert_eq!(tally.of(PlayerId(2)), 1);
    assert_eq!(tally.total(), 3);
    assert!(tally.reached(), "the squad reaches the target together");
}

#[test]
fn a_target_of_zero_is_not_won_at_once() {
    let tally = KillTally::with_target(0);
    assert!(!tally.reached());
}

#[test]
fn waves_are_released_at_their_tick_and_never_twice() {
    let zero = Point::default();
    let mut schedule = WaveSchedule {
        pending: vec![
            PendingTitan { at_tick: 0, kind: "husk".into(), pos: zero },
            PendingTitan { at_tick: 5_400, kind: "husk".into(), pos: zero },
            PendingTitan { at_tick: 5_400, kind: "husk".into(), pos: zero },
        ],
        released: 0,
    };
    assert_eq!(schedule.take_due(0).len(), 1);
    assert!(schedule.take_due(1).is_empty(), "nothing is released a second time");
    assert_eq!(schedule.take_due(9_000).len(), 2, "everything overdue comes at once");
    assert_eq!(schedule.released, 3);
    assert!(schedule.pending.is_empty());
}

#[test]
fn run_the_schedule_is_sorted_by_tick_and_keeps_file_order_within_a_tick() {
    let waves = vec![
        Wave { at_s_bits: s(60.0), kind: "late".into(), count: 1 },
        Wave { at_s_bits: s(0.0), kind: "early".into(), count: 2 },
        Wave { at_s_bits: s(60.0), kind: "later".into(), count: 1 },
    ];
    let ticks = vec![3_600u64, 0, 3_600];
    let ring: Vec<Point> = (0..4u32).map(|i| Point { x_bits: i, y_bits: 0, z_bits: 0 }).collect();
    let schedule = WaveSchedule::of(&waves, &ticks, &ring);
    let order: Vec<(u64, &str, u32)> =
        schedule.pending.iter().map(|p| (p.at_tick, p.kind.as_str(), p.pos.x_bits)).collect();
    assert_eq!(
        order,
        vec![(0, "early", 1), (0, "early", 2), (3_600, "late", 0), (3_600, "later", 3)],
        "each titan keeps the place of its position in the file"
    );
    assert_eq!(schedule.released, 0);
}

#[test]
fn run_a_kill_counts_for_its_cutter_alone() {
    let mut tally = KillTally::with_target(10);
    tally.credit(PlayerId(5), TitanId(1));
    tally.credit(PlayerId(2), TitanId(2));
    tally.credit(PlayerId(9), TitanId(3));
    tally.credit(PlayerId(5), TitanId(4));
    assert_eq!(tally.of(PlayerId(5)), 2);
    assert_eq!(tally.of(PlayerId(2)), 1);
    assert_eq!(tally.of(PlayerId(9)), 1);
    assert_eq!(tally.of(PlayerId(4)), 0);
    let ids: Vec<u32> = tally.players().iter().map(|(p, _)| p.0).collect();
    assert_eq!(ids, vec![2, 5, 9], "the board lists the squad in id order");
    assert!(!tally.reached());
    assert_eq!(tally.target(), 10);
}

#[test]
fn run_a_clock_that_started_late_counts_from_its_start() {
    let clock = MissionClock::new(1_000, 600);
    assert_eq!(clock.deadline_tick(), 1_600);
    assert_eq!(clock.elapsed(999), 0);
    assert_eq!(clock.elapsed(1_250), 250);
    assert!(!clock.expired(1_599));
    assert!(clock.expired(1_600));
    let far = MissionClock::new(u64::MAX - 5, 100);
    assert_eq!(far.deadline_tick(), u64::MAX, "the deadline saturates instead of wrapping");
}

#[test]
fn run_only_a_cortex_cut_counts_and_each_titan_once() {
    let mut tally = KillTally::with_target(2);
    let hits = [
        KillHit { by: PlayerId(1), titan: TitanId(1), cortex: false },
        KillHit { by: PlayerId(2), titan: TitanId(1), cortex: true },
        KillHit { by: PlayerId(1), titan: TitanId(1), cortex: true },
        KillHit { by: PlayerId(1), titan: TitanId(2), cortex: false },
    ];
    count_kills(&mut tally, &hits);
    assert_eq!(tally.total(), 1, "a torso hit pays for nothing and a titan pays once");
    assert_eq!(tally.of(PlayerId(2)), 1);
    assert_eq!(tally.of(PlayerId(1)), 0);
    assert!(!tally.reached());
    count_kills(&mut tally, &[KillHit { by: PlayerId(1), titan: TitanId(2), cortex: true }]);
    assert!(tally.reached());
}

#[test]
fn run_a_booked_kill_moves_its_cutter_and_the_total_by_one_and_nobody_else() {
    let mut tally = KillTally::with_target(5);
    tally.credit(PlayerId(3), TitanId(1));
    let (three, four, total) = (tally.of(PlayerId(3)), tally.of(PlayerId(4)), tally.total());
    assert!(tally.credit(PlayerId(4), TitanId(2)));
    assert_eq!((tally.of(PlayerId(3)), tally.of(PlayerId(4)), tally.total()), (three, four + 1, total + 1));
    assert!(!tally.credit(PlayerId(3), TitanId(2)));
    assert_eq!((tally.of(PlayerId(3)), tally.of(PlayerId(4)), tally.total()), (three, four + 1, total + 1));
    assert_eq!(tally.target(), 5);
}
