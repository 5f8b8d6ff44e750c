use defeated_by_titan::data::Progress;
use defeated_by_titan::hud::board::{board_text, BoardEntry, CLEARED, CURSOR, HEADING, LOCKED};
use defeated_by_titan::menu::MISSION_SELECT_ROW;
use defeated_by_titan::progress::Career;

/// The ladder as the shipped file has it: ranks lowest first, and no rung gated.
fn progress() -> Progress {
    Progress {
        ranks: ["E", "D", "C", "B", "A"].iter().map(|r| r.to_string()).collect(),
        gates: Vec::new(),
    }
}

fn list() -> Vec<BoardEntry> {
    vec![
        ("tutorial".into(), None),
        ("skirmish".into(), Some("recruit".into())),
        ("skirmish".into(), Some("veteran".into())),
    ]
}

fn career_at(rank: &str, cleared: &[&str]) -> Career {
    Career { rank: rank.to_string(), cleared: cleared.iter().map(|s| s.to_string()).collect() }
}

#[test]
fn f177_a_player_who_is_not_at_the_board_is_told_nothing() {
    let (l, p) = (list(), progress());
    for open in [false, true] {
        assert_eq!(board_text(false, open, &l, Some(&l[1]), &p, None), None, "out of range with open = {open}");
    }
}

#[test]
fn f177_the_prompt_names_the_key_and_quotes_the_row_it_opens() {
    let (l, p) = (list(), progress());
    let said = board_text(true, false, &l, Some(&l[1]), &p, None).expect("in range, shut");
    assert!(said.contains(MISSION_SELECT_ROW), "the prompt has to name the row: {said:?}");
    assert!(said.contains('F'), "the prompt has to name the key: {said:?}");
    assert!(!said.contains("veteran"), "a shut board may not list sorties: {said:?}");
}

#[test]
fn f177_the_open_board_marks_exactly_the_sortie_that_would_fly() {
    let (l, p) = (list(), progress());
    for (i, entry) in l.iter().enumerate() {
        let said = board_text(true, true, &l, Some(entry), &p, None).expect("in range, open");
        assert_eq!(said.matches(CURSOR).count(), 1, "entry {i} — one cursor, or the panel names two answers: {said:?}");
        let marked: Vec<&str> = said.lines().filter(|line| line.starts_with(CURSOR)).collect();
        assert_eq!(marked.len(), 1);
        assert!(marked[0].contains(&entry.0), "the cursor stands on the wrong row for {entry:?}: {marked:?}");
    }
}

#[test]
fn f177_a_file_with_no_templates_is_said_out_loud() {
    let said = board_text(true, true, &[], None, &progress(), None).expect("in range, open");
    assert!(said.contains("missions.ron"), "{said:?}");
}

#[test]
fn f121_a_cleared_rung_is_marked_and_an_unflown_one_beside_it_is_not() {
    let (l, p) = (list(), progress());
    let career = career_at("E", &["skirmish/recruit"]);
    let said = board_text(true, true, &l, Some(&l[1]), &p, Some(&career)).expect("open");

    let recruit = said.lines().find(|x| x.contains("recruit")).expect("a recruit row");
    let veteran = said.lines().find(|x| x.contains("veteran")).expect("a veteran row");
    assert!(recruit.contains(CLEARED), "the won rung is not marked: {recruit:?}");
    assert!(!veteran.contains(CLEARED), "an unflown rung is marked: {veteran:?}");
    assert_eq!(said.matches(CLEARED).count(), 1, "one clear, one marker — anything else and the ladder is decoration: {said:?}");

    let blind = board_text(true, true, &l, Some(&l[1]), &p, None).expect("open");
    assert!(!blind.contains(CLEARED), "a run with no career invents a clear: {blind:?}");
}

#[test]
fn f121_a_gated_rung_names_the_rank_it_wants_and_the_open_ones_stay_quiet() {
    let mut p = progress();
    p.gates.push(("skirmish/veteran".to_string(), "C".to_string()));
    let l = list();
    let career = career_at("E", &["skirmish/recruit"]);
    let said = board_text(true, true, &l, Some(&l[1]), &p, Some(&career)).expect("open");

    let veteran = said.lines().find(|x| x.contains("veteran")).expect("a veteran row");
    assert!(veteran.contains(LOCKED), "a gated rung is not marked shut: {veteran:?}");
    assert!(veteran.contains('C'), "and it has to name the rank it wants: {veteran:?}");
    assert_eq!(said.matches(LOCKED).count(), 1, "only the gated rung is shut: {said:?}");

    let ranked = career_at("C", &[]);
    let open = board_text(true, true, &l, l.get(1), &p, Some(&ranked)).expect("open");
    assert!(!open.contains(LOCKED), "rank C is refused its own gate: {open:?}");
}

#[test]
fn f121_the_shipped_ladder_takes_no_playable_content_away() {
    let p = progress();
    let l = list();
    let beginner = career_at("E", &[]);
    let said = board_text(true, true, &l, Some(&l[0]), &p, Some(&beginner)).expect("open");
    assert!(!said.contains(LOCKED), "{said:?}");
}

#[test]
fn board_the_open_panel_reads_exactly_so() {
    let (l, p) = (list(), progress());
    let career = career_at("A", &["tutorial"]);
    let said = board_text(true, true, &l, Some(&l[2]), &p, Some(&career)).expect("open");
    assert_eq!(
        said,
        format!(
            "{HEADING}\n\n  tutorial  *\n  skirmish  recruit\n> skirmish  veteran\n\nF   next        hold F   deploy"
        )
    );
    let shut = board_text(true, false, &l, None, &p, None).expect("shut");
    assert_eq!(shut, "MISSION BOARD\n\nF   Mission select");
}

#[test]
fn board_a_rank_the_ladder_does_not_know_is_kept_out_of_a_gated_rung() {
    let mut p = progress();
    p.gates.push(("tutorial".to_string(), "E".to_string()));
    let l = list();
    let stranger = career_at("Z", &[]);
    let said = board_text(true, true, &l, None, &p, Some(&stranger)).expect("open");
    assert!(said.lines().any(|x| x.contains("tutorial") && x.ends_with("LOCKED E")), "{said:?}");
    assert_eq!(said.matches(CURSOR).count(), 0, "nothing picked, nothing marked: {said:?}");
}
