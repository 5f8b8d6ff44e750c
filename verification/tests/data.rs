use defeated_by_titan::data::{in_key_order, missions_in_order, text_before, Difficulty, MissionTemplate, Objective};

fn level(name: &str) -> (String, Difficulty) {
    (name.to_string(), Difficulty { name: name.into(), target_duration_s_bits: 0, kill_target: 1, waves: vec![] })
}

fn template(levels: &[&str]) -> MissionTemplate {
    MissionTemplate {
        name: "T".into(),
        map: "m".into(),
        target_duration_s_bits: 0,
        kill_target: 1,
        waves: vec![],
        objective: Objective::Cull,
        difficulties: levels.iter().map(|l| level(l)).collect(),
    }
}

#[test]
fn data_text_sorts_as_str_does() {
    for (a, b) in [("a", "b"), ("", "a"), ("ab", "abc"), ("recruit", "veteran"), ("Z", "a"), ("é", "z")] {
        assert_eq!(text_before(a, b), a < b, "{a:?} {b:?}");
        assert_eq!(text_before(b, a), b < a, "{b:?} {a:?}");
    }
    assert!(!text_before("same", "same"));
}

#[test]
fn data_a_list_in_key_order_has_every_key_once_ascending() {
    assert!(in_key_order(&vec![level("elite"), level("recruit"), level("veteran")]));
    assert!(!in_key_order(&vec![level("veteran"), level("recruit")]), "out of order");
    assert!(!in_key_order(&vec![level("recruit"), level("recruit")]), "a key twice");
    assert!(in_key_order::<Difficulty>(&vec![]));
    let good = vec![("skirmish".to_string(), template(&["recruit", "veteran"])), ("tutorial".to_string(), template(&[]))];
    assert!(missions_in_order(&good));
    let bad = vec![("skirmish".to_string(), template(&["veteran", "recruit"]))];
    assert!(!missions_in_order(&bad), "a template's levels count too");
}
