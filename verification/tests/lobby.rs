use defeated_by_titan::data::{Difficulty, MissionTemplate, Objective, PadSpec};
use defeated_by_titan::menu::lobby::{chosen, lobby_press, LobbyAction, LobbyChoice};
use defeated_by_titan::menu::settings::{
    settings_frame, BindAction, Nudge, SettingChange, SettingsAction, SettingsPage, SettingsView,
};
use defeated_by_titan::menu::{Screen, SettingsFrom};
use defeated_by_titan::shared::Point;

fn level(name: &str) -> Difficulty {
    Difficulty { name: name.into(), target_duration_s_bits: 0, kill_target: 1, waves: vec![] }
}

fn templates() -> Vec<(String, MissionTemplate)> {
    let t = |name: &str, levels: &[&str]| MissionTemplate {
        name: name.into(),
        map: "m".into(),
        target_duration_s_bits: 0,
        kill_target: 1,
        waves: vec![],
        objective: Objective::Cull,
        difficulties: levels.iter().map(|l| (l.to_string(), level(l))).collect(),
    };
    vec![
        ("skirmish".into(), t("Skirmish", &["recruit", "veteran"])),
        ("tutorial".into(), t("Tutorial", &[])),
    ]
}

fn pads() -> Vec<PadSpec> {
    vec![PadSpec {
        mission: "skirmish".into(),
        difficulty: "veteran".into(),
        center_m: Point::default(),
        radius_m_bits: 0,
    }]
}

#[test]
fn lobby_the_default_door_is_the_first_pad_at_its_level() {
    let got = chosen(&templates(), &pads(), &LobbyChoice::default());
    assert_eq!(got, Some(("skirmish".to_string(), Some("veteran".to_string()))));
    let no_pads = chosen(&templates(), &vec![], &LobbyChoice::default());
    assert_eq!(no_pads, Some(("skirmish".to_string(), Some("recruit".to_string()))), "else the first template, its first level");
    assert_eq!(chosen(&vec![], &vec![], &LobbyChoice::default()), None);
}

#[test]
fn lobby_a_stale_key_falls_back_to_the_default_door() {
    let stale = LobbyChoice { mission: Some("siege".into()), difficulty: Some("elite".into()) };
    assert_eq!(chosen(&templates(), &pads(), &stale), Some(("skirmish".to_string(), Some("veteran".to_string()))));
    let tutorial = LobbyChoice { mission: Some("tutorial".into()), difficulty: Some("veteran".into()) };
    assert_eq!(chosen(&templates(), &pads(), &tutorial), Some(("tutorial".to_string(), None)), "a level the template lacks is dropped");
}

#[test]
fn lobby_picking_a_mission_clears_the_level_and_deploy_asks_for_what_is_shown() {
    let mut choice = LobbyChoice { mission: Some("skirmish".into()), difficulty: Some("recruit".into()) };
    let p = lobby_press(&mut choice, &LobbyAction::PickMission("skirmish".into()), Screen::Lobby, &templates(), &pads());
    assert_eq!(p.screen, Screen::Lobby);
    assert_eq!(choice.difficulty, Some("recruit".into()), "the same mission keeps its level");
    lobby_press(&mut choice, &LobbyAction::PickMission("tutorial".into()), Screen::Lobby, &templates(), &pads());
    assert_eq!(choice, LobbyChoice { mission: Some("tutorial".into()), difficulty: None });
    let p = lobby_press(&mut choice, &LobbyAction::Deploy, Screen::Lobby, &templates(), &pads());
    assert_eq!(p.screen, Screen::Playing);
    let ask = p.deploy.expect("a deployment");
    assert_eq!((ask.template.as_str(), ask.difficulty), ("tutorial", None));
    let empty = lobby_press(&mut choice, &LobbyAction::Deploy, Screen::Lobby, &vec![], &vec![]);
    assert!(empty.deploy.is_none() && empty.screen == Screen::Lobby, "nothing to fly, nothing asked");
    let back = lobby_press(&mut choice, &LobbyAction::Back, Screen::Lobby, &templates(), &pads());
    assert_eq!(back.screen, Screen::Playing);
}

#[test]
fn settings_the_click_is_the_save_point_and_back_walks_out_a_page_at_a_time() {
    let mut view = SettingsView::default();
    let mut screen = Screen::Settings;
    let f = settings_frame(
        &mut view,
        &mut screen,
        SettingsFrom(Screen::Title),
        None,
        &[SettingsAction::Mouse(Nudge::Up), SettingsAction::Page(SettingsPage::Keybinds)],
    );
    assert_eq!(f.changes, vec![SettingChange::Mouse(Nudge::Up)]);
    assert!(f.persist);
    assert_eq!(view.page, SettingsPage::Keybinds);

    let f = settings_frame(&mut view, &mut screen, SettingsFrom(Screen::Title), None, &[SettingsAction::Bind(BindAction(3))]);
    assert!(f.changes.is_empty() && !f.persist, "arming a capture saves nothing");
    assert_eq!(view.rebinding, Some(BindAction(3)));

    let f = settings_frame(&mut view, &mut screen, SettingsFrom(Screen::Title), Some(70), &[]);
    assert_eq!(f.changes, vec![SettingChange::Bind(BindAction(3), 70)]);
    assert_eq!(view.rebinding, None);

    settings_frame(&mut view, &mut screen, SettingsFrom(Screen::Title), None, &[SettingsAction::Back]);
    assert_eq!((view.page, screen), (SettingsPage::Main, Screen::Settings));
    settings_frame(&mut view, &mut screen, SettingsFrom(Screen::Title), None, &[SettingsAction::Back]);
    assert_eq!(screen, Screen::Title);
}

#[test]
fn settings_leaving_the_screen_forgets_the_page_and_the_capture() {
    let mut view = SettingsView { page: SettingsPage::Crosshair, rebinding: Some(BindAction(1)) };
    let mut screen = Screen::Paused;
    let f = settings_frame(&mut view, &mut screen, SettingsFrom::default(), Some(5), &[SettingsAction::InvertY]);
    assert!(f.changes.is_empty() && !f.persist);
    assert_eq!(view, SettingsView::default());
    assert_eq!(Nudge::Down.steps(), -1);
    assert_eq!(Nudge::Up.arrow(), "+");
}
