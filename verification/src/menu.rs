//! menu — the screens over the game: which one is up, where `Esc` and *Back* lead, and what
//! each button asks for. The plates themselves are drawn elsewhere; what is decided here is
//! the walk between them.

pub mod lobby;
pub mod board;
pub mod settings;

use vstd::prelude::*;
use crate::mission::phase::{decided, running, MissionPhase};

verus! {

/// Playing, or looking at one of the screens.
#[derive(Clone, Copy, Debug, PartialEq, Eq, Structural)]
pub enum Screen {
    /// The front door: a plate over a stopped world.
    Title,
    Playing,
    /// Local-only: pausing stops the whole simulation.
    Paused,
    Settings,
    /// The main lobby — pick a mission, pick a difficulty, deploy.
    Lobby,
    /// What the sortie just did, and the way back to the lobby.
    Debrief,
}

/// Where a run begins: the title when the command line asks for it, else straight into play.
pub fn first_screen(title: bool) -> (s: Screen)
    ensures
        s == (if title {
            Screen::Title
        } else {
            Screen::Playing
        }),
{
    if title {
        Screen::Title
    } else {
        Screen::Playing
    }
}

/// Where `Esc` leads from each screen. It walks back one step: the title ends the chain, the
/// settings go back where they were opened from, and the debrief goes forward to the lobby —
/// behind it there is no game to return to.
pub open spec fn escape_from(screen: Screen, settings_from: Screen) -> Screen {
    match screen {
        Screen::Title => Screen::Title,
        Screen::Playing => Screen::Paused,
        Screen::Paused => Screen::Playing,
        Screen::Settings => settings_from,
        Screen::Lobby => Screen::Playing,
        Screen::Debrief => Screen::Lobby,
    }
}

/// Where back is from the settings: the last screen that was not the settings.
#[derive(Clone, Copy, Debug, PartialEq, Eq, Structural)]
pub struct SettingsFrom(pub Screen);

impl Default for SettingsFrom {
    /// The pause screen: the route that existed first.
    fn default() -> (s: SettingsFrom)
        ensures
            s.0 == Screen::Paused,
    {
        SettingsFrom(Screen::Paused)
    }
}

/// `Esc` was pressed: the screen moves one step back, and is only written when it changes.
pub fn press_escape(screen: &mut Screen, back: SettingsFrom)
    ensures
        *final(screen) == escape_from(*old(screen), back.0),
{
    let next = match *screen {
        Screen::Title => Screen::Title,
        Screen::Playing => Screen::Paused,
        Screen::Paused => Screen::Playing,
        Screen::Settings => back.0,
        Screen::Lobby => Screen::Playing,
        Screen::Debrief => Screen::Lobby,
    };
    if *screen != next {
        *screen = next;
    }
}

/// Keeps the way back into the game from the settings pointing at the last screen that was not
/// the settings.
pub fn remember_the_way_into_settings(screen: Screen, from: &mut SettingsFrom)
    ensures
        final(from).0 == (if screen != Screen::Settings {
            screen
        } else {
            old(from).0
        }),
{
    if screen != Screen::Settings && from.0 != screen {
        from.0 = screen;
    }
}

/// The pointer is captured and time runs only while playing; every other screen frees the
/// pointer and stops the clock.
pub fn captures_pointer(screen: Screen) -> (r: bool)
    ensures
        r == (screen == Screen::Playing),
{
    screen == Screen::Playing
}

/// Whether there is a sortie to abandon: a running one or a decided one.
pub fn in_a_sortie(phase: MissionPhase) -> (r: bool)
    ensures
        r == (running(phase) || decided(phase)),
{
    phase.is_running() || phase.is_decided()
}

/// The debrief comes up with the verdict, only over a game that is being played.
pub fn open_the_debrief(screen: &mut Screen)
    ensures
        *final(screen) == (if *old(screen) == Screen::Playing {
            Screen::Debrief
        } else {
            *old(screen)
        }),
{
    if *screen == Screen::Playing {
        *screen = Screen::Debrief;
    }
}

/// And it goes away with the phase.
pub fn close_the_debrief_screen(screen: &mut Screen)
    ensures
        *final(screen) == (if *old(screen) == Screen::Debrief {
            Screen::Playing
        } else {
            *old(screen)
        }),
{
    if *screen == Screen::Debrief {
        *screen = Screen::Playing;
    }
}

/// Whether leaving the debrief ends the sortie: the screen changed this frame, away from the
/// debrief, while the phase still holds the verdict. One writer for every door out.
pub fn leaving_the_debrief_ends_the_sortie(screen_changed: bool, screen: Screen, phase: MissionPhase) -> (r:
    bool)
    ensures
        r == (screen_changed && screen != Screen::Debrief && decided(phase)),
{
    screen_changed && screen != Screen::Debrief && phase.is_decided()
}

/// Whether the plate on screen no longer shows the truth: a plate of another screen is up, a
/// setting changed under the settings plate, or the lobby's choice or session changed under the
/// lobby plate. It is then taken down whole and built again.
pub fn plate_is_stale(
    plates: &[Screen],
    screen: Screen,
    settings_changed: bool,
    lobby_changed: bool,
) -> (r: bool)
    ensures
        r == ((exists|i: int| 0 <= i < plates@.len() && plates@[i] != screen) || (screen
            == Screen::Settings && settings_changed) || (screen == Screen::Lobby && lobby_changed)),
{
    let mut other = false;
    let mut i: usize = 0;
    while i < plates.len()
        invariant
            0 <= i <= plates@.len(),
            other == (exists|j: int| 0 <= j < i && plates@[j] != screen),
        decreases plates.len() - i,
    {
        if plates[i] != screen {
            other = true;
        }
        i = i + 1;
    }
    other || (screen == Screen::Settings && settings_changed) || (screen == Screen::Lobby
        && lobby_changed)
}

/// Whether the screen wants a plate built now: every screen but play has one, and it is built
/// only when none of its own is up — so a plate is never missing and never there twice.
pub fn plate_wanted(plates: &[Screen], screen: Screen) -> (r: bool)
    ensures
        r == (screen != Screen::Playing && !(exists|i: int| 0 <= i < plates@.len() && plates@[i]
            == screen)),
{
    let mut i: usize = 0;
    while i < plates.len()
        invariant
            0 <= i <= plates@.len(),
            forall|j: int| 0 <= j < i ==> plates@[j] != screen,
        decreases plates.len() - i,
    {
        if plates[i] == screen {
            return false;
        }
        i = i + 1;
    }
    screen != Screen::Playing
}

// ---------------------------------------------------------------------------
// What the buttons do
// ---------------------------------------------------------------------------

/// What a press on a menu asks of the rest of the game, besides the screen it leads to.
#[derive(Clone, Copy, Debug, PartialEq, Eq, Structural)]
pub struct Press {
    /// The screen after the press.
    pub screen: Screen,
    /// End the running sortie, through the hub.
    pub abandon: bool,
    /// Ask for the same sortie again.
    pub redeploy: bool,
    /// End the run.
    pub quit: bool,
}

/// What a button on the title screen does.
#[derive(Clone, Copy, Debug, PartialEq, Eq, Structural)]
pub enum TitleAction {
    /// Into the game — which opens the lobby first.
    NewGame,
    Settings,
    Quit,
}

/// The title's rows, top to bottom: what each does and what it says.
pub fn title_rows() -> (rows: Vec<(TitleAction, &'static str)>)
    ensures
        rows@.len() == 3,
        rows@[0].0 == TitleAction::NewGame && rows@[0].1@ == "Play"@,
        rows@[1].0 == TitleAction::Settings && rows@[1].1@ == "Settings"@,
        rows@[2].0 == TitleAction::Quit && rows@[2].1@ == "Quit"@,
{
    let mut rows: Vec<(TitleAction, &'static str)> = Vec::new();
    rows.push((TitleAction::NewGame, "Play"));
    rows.push((TitleAction::Settings, "Settings"));
    rows.push((TitleAction::Quit, "Quit"));
    rows
}

pub fn title_press(screen: Screen, action: TitleAction) -> (p: Press)
    ensures
        p == (match action {
            TitleAction::NewGame => Press {
                screen: Screen::Lobby,
                abandon: false,
                redeploy: false,
                quit: false,
            },
            TitleAction::Settings => Press {
                screen: Screen::Settings,
                abandon: false,
                redeploy: false,
                quit: false,
            },
            TitleAction::Quit => Press { screen: screen, abandon: false, redeploy: false, quit: true },
        }),
{
    match action {
        TitleAction::NewGame => Press { screen: Screen::Lobby, abandon: false, redeploy: false, quit: false },
        TitleAction::Settings => Press {
            screen: Screen::Settings,
            abandon: false,
            redeploy: false,
            quit: false,
        },
        TitleAction::Quit => Press { screen, abandon: false, redeploy: false, quit: true },
    }
}

/// What a button on the pause screen does.
#[derive(Clone, Copy, Debug, PartialEq, Eq, Structural)]
pub enum PauseAction {
    Resume,
    Settings,
    /// Give the sortie up and stand in the hub again.
    Abandon,
    /// Give the sortie up and open the lobby.
    Lobby,
    /// To desktop.
    Quit,
}

/// The pause screen's buttons. *Abandon* and *Quit to lobby* ask unconditionally: the mission
/// checks the phase before it acts.
pub fn pause_press(screen: Screen, action: PauseAction) -> (p: Press)
    ensures
        p == (match action {
            PauseAction::Resume => Press {
                screen: Screen::Playing,
                abandon: false,
                redeploy: false,
                quit: false,
            },
            PauseAction::Settings => Press {
                screen: Screen::Settings,
                abandon: false,
                redeploy: false,
                quit: false,
            },
            PauseAction::Abandon => Press {
                screen: Screen::Playing,
                abandon: true,
                redeploy: false,
                quit: false,
            },
            PauseAction::Lobby => Press {
                screen: Screen::Lobby,
                abandon: true,
                redeploy: false,
                quit: false,
            },
            PauseAction::Quit => Press { screen: screen, abandon: false, redeploy: false, quit: true },
        }),
{
    match action {
        PauseAction::Resume => Press { screen: Screen::Playing, abandon: false, redeploy: false, quit: false },
        PauseAction::Settings => Press {
            screen: Screen::Settings,
            abandon: false,
            redeploy: false,
            quit: false,
        },
        PauseAction::Abandon => Press { screen: Screen::Playing, abandon: true, redeploy: false, quit: false },
        PauseAction::Lobby => Press { screen: Screen::Lobby, abandon: true, redeploy: false, quit: false },
        PauseAction::Quit => Press { screen, abandon: false, redeploy: false, quit: true },
    }
}

/// The row of the hub's pause screen that opens the mission list — the words the mission
/// board quotes for the same door.
pub const MISSION_SELECT_ROW: &'static str = "Mission select";

/// The pause screen's rows, top to bottom. In a sortie there is a sortie to give up; in the hub
/// the same door is simply the way to the mission list.
pub fn pause_rows(in_a_sortie: bool) -> (rows: Vec<(PauseAction, &'static str)>)
    ensures
        in_a_sortie ==> rows@.len() == 5,
        !in_a_sortie ==> rows@.len() == 4,
        rows@[0].0 == PauseAction::Resume && rows@[0].1@ == "Resume  (Esc)"@,
        rows@[1].0 == PauseAction::Settings && rows@[1].1@ == "Settings"@,
        in_a_sortie ==> rows@[2].0 == PauseAction::Abandon && rows@[2].1@ == "Abandon sortie"@,
        in_a_sortie ==> rows@[3].0 == PauseAction::Lobby && rows@[3].1@ == "Quit to lobby"@,
        !in_a_sortie ==> rows@[2].0 == PauseAction::Lobby && rows@[2].1@ == MISSION_SELECT_ROW@,
        rows@.last().0 == PauseAction::Quit && rows@.last().1@ == "Quit to desktop"@,
{
    let mut rows: Vec<(PauseAction, &'static str)> = Vec::new();
    rows.push((PauseAction::Resume, "Resume  (Esc)"));
    rows.push((PauseAction::Settings, "Settings"));
    if in_a_sortie {
        rows.push((PauseAction::Abandon, "Abandon sortie"));
        rows.push((PauseAction::Lobby, "Quit to lobby"));
    } else {
        rows.push((PauseAction::Lobby, MISSION_SELECT_ROW));
    }
    rows.push((PauseAction::Quit, "Quit to desktop"));
    rows
}

/// What a button on the debrief does.
#[derive(Clone, Copy, Debug, PartialEq, Eq, Structural)]
pub enum DebriefAction {
    /// The same sortie again.
    Redeploy,
    /// Back to the mission list.
    Lobby,
}

/// The debrief's buttons. *Redeploy* repeats the order on record and hands the screen back to
/// the game; with no order on record nothing is asked and the screen stays.
pub fn debrief_press(screen: Screen, action: DebriefAction, order_on_record: bool) -> (p: Press)
    ensures
        p == (match action {
            DebriefAction::Redeploy => if order_on_record {
                Press { screen: Screen::Playing, abandon: false, redeploy: true, quit: false }
            } else {
                Press { screen: screen, abandon: false, redeploy: false, quit: false }
            },
            DebriefAction::Lobby => Press {
                screen: Screen::Lobby,
                abandon: false,
                redeploy: false,
                quit: false,
            },
        }),
{
    match action {
        DebriefAction::Redeploy => if order_on_record {
            Press { screen: Screen::Playing, abandon: false, redeploy: true, quit: false }
        } else {
            Press { screen, abandon: false, redeploy: false, quit: false }
        },
        DebriefAction::Lobby => Press { screen: Screen::Lobby, abandon: false, redeploy: false, quit: false },
    }
}

/// `Esc` never leaves the title, and from every other screen it leads somewhere else; the
/// settings always lead back to where they were opened from.
pub proof fn law_escape_walks_back(screen: Screen, from: Screen)
    ensures
        screen == Screen::Title ==> escape_from(screen, from) == Screen::Title,
        screen != Screen::Title && screen != Screen::Settings ==> escape_from(screen, from)
            != screen,
        screen == Screen::Settings ==> escape_from(screen, from) == from,
        escape_from(escape_from(Screen::Playing, from), from) == Screen::Playing,
{
}

} // verus!
