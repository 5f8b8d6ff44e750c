use defeated_by_titan::menu::{plate_is_stale, plate_wanted};
use defeated_by_titan::hud::board::BoardEntry;
use defeated_by_titan::menu::board::{board_hold, board_keys, next_entry, Board, BoardAction};
use defeated_by_titan::menu::{
    captures_pointer, debrief_press, first_screen, pause_press, pause_rows, press_escape,
    remember_the_way_into_settings, title_press, title_rows, DebriefAction, PauseAction, Screen,
    SettingsFrom, TitleAction, MISSION_SELECT_ROW,
};

#[test]
fn f177_the_press_that_opens_the_board_is_spent_and_not_armed() {
    let opened = Board { in_range: true, open: true, armed: None, spent: true };
    assert!(opened.spent, "the opening press has done its one thing — this is the guard");
    assert!(opened.armed.is_none(), "and the accumulator never even starts");
}

#[test]
fn board_the_opening_press_chooses_nothing_and_the_next_tap_steps_one_on() {
    let mut board = Board::default();
    let mut screen = Screen::Playing;
    assert_eq!(board_keys(&mut board, &mut screen, true, true, true, false), BoardAction::Opened);
    assert_eq!(board, Board { in_range: true, open: true, armed: None, spent: true });
    assert_eq!(screen, Screen::Lobby);
    assert_eq!(
        board_keys(&mut board, &mut screen, true, true, false, true),
        BoardAction::Nothing,
        "releasing the opening press steps nothing"
    );
    assert!(!board.spent);
    assert_eq!(board_keys(&mut board, &mut screen, true, true, true, false), BoardAction::Nothing);
    assert_eq!(board.armed, Some(0));
    assert_eq!(board_keys(&mut board, &mut screen, true, true, false, true), BoardAction::Step);
    assert_eq!(board.armed, None);
}

#[test]
fn board_a_held_press_deploys_once_and_shuts() {
    let mut board = Board { in_range: true, open: true, armed: Some(0), spent: false };
    let mut screen = Screen::Lobby;
    let half = 0.3f32.to_bits();
    assert_eq!(board_hold(&mut board, &mut screen, true, true, half, false), BoardAction::Nothing);
    assert_eq!(board.armed, Some(half));
    let full = 0.6f32.to_bits();
    assert_eq!(board_hold(&mut board, &mut screen, true, true, full, true), BoardAction::Deploy);
    assert!(!board.open && board.spent && board.armed.is_none());
    assert_eq!(screen, Screen::Playing);
    assert_eq!(board_hold(&mut board, &mut screen, true, true, full, true), BoardAction::Nothing, "one hold, one deploy");
}

#[test]
fn board_walking_away_shuts_it_and_the_key_means_nothing_out_of_range() {
    let mut board = Board { in_range: true, open: true, armed: Some(5), spent: false };
    let mut screen = Screen::Playing;
    assert_eq!(board_keys(&mut board, &mut screen, false, false, true, false), BoardAction::Nothing);
    assert_eq!(board, Board { in_range: false, open: false, armed: None, spent: false });
    assert_eq!(screen, Screen::Playing, "a windowless run never moves the screen");
}

#[test]
fn board_a_key_that_came_up_unseen_disarms() {
    let mut board = Board { in_range: true, open: true, armed: Some(7), spent: false };
    let mut screen = Screen::Lobby;
    assert_eq!(board_hold(&mut board, &mut screen, true, false, 9, true), BoardAction::Nothing);
    assert_eq!(board.armed, None);
    assert!(board.open);
}

fn list() -> Vec<BoardEntry> {
    vec![
        ("tutorial".into(), None),
        ("skirmish".into(), Some("recruit".into())),
        ("skirmish".into(), Some("veteran".into())),
    ]
}

#[test]
fn board_a_tap_steps_one_entry_on_and_wraps() {
    let l = list();
    assert_eq!(next_entry(&l, Some(&l[0])), Some(l[1].clone()));
    assert_eq!(next_entry(&l, Some(&l[1])), Some(l[2].clone()));
    assert_eq!(next_entry(&l, Some(&l[2])), Some(l[0].clone()), "the list wraps");
    let stranger: BoardEntry = ("gone".into(), None);
    assert_eq!(next_entry(&l, Some(&stranger)), Some(l[1].clone()), "an unknown pick steps from the first");
    assert_eq!(next_entry(&l, None), Some(l[1].clone()));
    assert_eq!(next_entry(&[], None), None);
}

#[test]
fn menu_escape_walks_back_one_step() {
    let mut s = Screen::Playing;
    press_escape(&mut s, SettingsFrom::default());
    assert_eq!(s, Screen::Paused);
    press_escape(&mut s, SettingsFrom::default());
    assert_eq!(s, Screen::Playing);
    let mut t = Screen::Title;
    press_escape(&mut t, SettingsFrom::default());
    assert_eq!(t, Screen::Title, "the title ends the chain");
    let mut settings = Screen::Settings;
    press_escape(&mut settings, SettingsFrom(Screen::Title));
    assert_eq!(settings, Screen::Title);
    let mut debrief = Screen::Debrief;
    press_escape(&mut debrief, SettingsFrom::default());
    assert_eq!(debrief, Screen::Lobby);
}

#[test]
fn menu_settings_remember_where_they_were_opened_from() {
    let mut from = SettingsFrom::default();
    assert_eq!(from.0, Screen::Paused);
    remember_the_way_into_settings(Screen::Title, &mut from);
    assert_eq!(from.0, Screen::Title);
    remember_the_way_into_settings(Screen::Settings, &mut from);
    assert_eq!(from.0, Screen::Title);
}

#[test]
fn menu_only_playing_captures_the_pointer() {
    assert!(captures_pointer(Screen::Playing));
    for s in [Screen::Title, Screen::Paused, Screen::Settings, Screen::Lobby, Screen::Debrief] {
        assert!(!captures_pointer(s), "{s:?}");
    }
    assert_eq!(first_screen(true), Screen::Title);
    assert_eq!(first_screen(false), Screen::Playing);
}

#[test]
fn menu_the_buttons_ask_for_what_they_say() {
    let rows = title_rows();
    assert_eq!(rows.iter().map(|r| r.1).collect::<Vec<_>>(), vec!["Play", "Settings", "Quit"]);
    assert_eq!(title_press(Screen::Title, TitleAction::NewGame).screen, Screen::Lobby);
    assert!(title_press(Screen::Title, TitleAction::Quit).quit);

    let lobby = pause_press(Screen::Paused, PauseAction::Lobby);
    assert!(lobby.abandon && lobby.screen == Screen::Lobby);
    assert_eq!(pause_press(Screen::Paused, PauseAction::Resume).screen, Screen::Playing);

    let again = debrief_press(Screen::Debrief, DebriefAction::Redeploy, true);
    assert!(again.redeploy && again.screen == Screen::Playing);
    let nothing = debrief_press(Screen::Debrief, DebriefAction::Redeploy, false);
    assert!(!nothing.redeploy && nothing.screen == Screen::Debrief);
}

#[test]
fn menu_the_hub_offers_mission_select_and_a_sortie_offers_to_abandon() {
    let hub: Vec<PauseAction> = pause_rows(false).iter().map(|r| r.0).collect();
    assert_eq!(hub, vec![PauseAction::Resume, PauseAction::Settings, PauseAction::Lobby, PauseAction::Quit]);
    assert_eq!(pause_rows(false)[2].1, MISSION_SELECT_ROW);
    let sortie: Vec<&str> = pause_rows(true).iter().map(|r| r.1).collect();
    assert_eq!(sortie, vec!["Resume  (Esc)", "Settings", "Abandon sortie", "Quit to lobby", "Quit to desktop"]);
}

#[test]
fn menu_a_plate_is_built_once_and_rebuilt_when_it_lies() {
    assert!(plate_wanted(&[], Screen::Paused));
    assert!(!plate_wanted(&[Screen::Paused], Screen::Paused), "never twice");
    assert!(!plate_wanted(&[], Screen::Playing), "play has no plate");
    assert!(plate_is_stale(&[Screen::Paused], Screen::Settings, false, false));
    assert!(!plate_is_stale(&[Screen::Settings], Screen::Settings, false, true));
    assert!(plate_is_stale(&[Screen::Settings], Screen::Settings, true, false));
    assert!(plate_is_stale(&[Screen::Lobby], Screen::Lobby, false, true));
    assert!(!plate_is_stale(&[Screen::Lobby], Screen::Lobby, true, false));
}
