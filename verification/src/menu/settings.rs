//! The settings screen: three pages of things a person may change about his own game.
//!
//! What is decided here is the screen's own state — which page is up, which bind row is
//! capturing a key, where *Back* leads — and **which** change a click asks for. The numbers
//! themselves (sensitivity, field of view, sizes, colours) are nudged at the edge, and every
//! change that is to survive a restart is reported as such, so the click is the save point.

use vstd::prelude::*;
use super::{Screen, SettingsFrom};

verus! {

/// Which way an arrow points.
#[derive(Clone, Copy, Debug, PartialEq, Eq, Structural)]
pub enum Nudge {
    Down,
    Up,
}

impl Nudge {
    /// One step, signed.
    pub fn steps(self) -> (n: i32)
        ensures
            n == (if self is Down {
                -1i32
            } else {
                1i32
            }),
    {
        match self {
            Nudge::Down => -1,
            Nudge::Up => 1,
        }
    }

    pub fn arrow(self) -> (s: &'static str)
        ensures
            s@ == (if self is Down {
                "-"@
            } else {
                "+"@
            }),
    {
        match self {
            Nudge::Down => "-",
            Nudge::Up => "+",
        }
    }
}

/// The three pages of the screen.
#[derive(Clone, Copy, Debug, PartialEq, Eq, Structural)]
pub enum SettingsPage {
    Main,
    Keybinds,
    Crosshair,
}

/// One rebindable action, by its row on the keybinds page.
#[derive(Clone, Copy, Debug, PartialEq, Eq, Structural)]
pub struct BindAction(pub u32);

/// What a button on the settings screen does.
#[derive(Clone, Copy, Debug, PartialEq, Eq, Structural)]
pub enum SettingsAction {
    Mouse(Nudge),
    InvertY,
    Fov(Nudge),
    /// How far off the crosshair the aim assist may catch.
    AssistCatch(Nudge),
    /// How hard the assist pulls.
    AssistStrength(Nudge),
    /// Hold ↔ toggle for the two rope triggers.
    HookFire,
    CrosshairSize(Nudge),
    CrosshairColour(Nudge),
    /// Arm the capture for one action's key.
    Bind(BindAction),
    /// Show another page.
    Page(SettingsPage),
    /// One step out: a sub-page goes back to the main page, the main page back to the screen
    /// the options were opened from.
    Back,
}

/// A change to the player's settings that a press asks for. Every one of them is kept.
#[derive(Clone, Copy, Debug, PartialEq, Eq, Structural)]
pub enum SettingChange {
    Mouse(Nudge),
    FlipInvertY,
    Fov(Nudge),
    AssistCatch(Nudge),
    AssistStrength(Nudge),
    FlipHookFire,
    CrosshairSize(Nudge),
    CrosshairColour(Nudge),
    /// The captured key (by its code) becomes this action's bind.
    Bind(BindAction, u32),
}

/// The screen's own state: the page that is up, and the bind row that is capturing, if any.
#[derive(Clone, Copy, Debug, PartialEq, Eq, Structural)]
pub struct SettingsView {
    pub page: SettingsPage,
    pub rebinding: Option<BindAction>,
}

impl Default for SettingsView {
    fn default() -> (v: SettingsView)
        ensures
            v == (SettingsView { page: SettingsPage::Main, rebinding: None }),
    {
        SettingsView { page: SettingsPage::Main, rebinding: None }
    }
}

/// The change a button asks for, if it asks for one.
pub open spec fn change_of(a: SettingsAction) -> Option<SettingChange> {
    match a {
        SettingsAction::Mouse(n) => Some(SettingChange::Mouse(n)),
        SettingsAction::InvertY => Some(SettingChange::FlipInvertY),
        SettingsAction::Fov(n) => Some(SettingChange::Fov(n)),
        SettingsAction::AssistCatch(n) => Some(SettingChange::AssistCatch(n)),
        SettingsAction::AssistStrength(n) => Some(SettingChange::AssistStrength(n)),
        SettingsAction::HookFire => Some(SettingChange::FlipHookFire),
        SettingsAction::CrosshairSize(n) => Some(SettingChange::CrosshairSize(n)),
        SettingsAction::CrosshairColour(n) => Some(SettingChange::CrosshairColour(n)),
        _ => None,
    }
}

/// What a button does to the screen's own state and to the screen.
pub open spec fn view_after(v: SettingsView, screen: Screen, back: Screen, a: SettingsAction) -> (
    SettingsView,
    Screen,
) {
    match a {
        SettingsAction::Bind(b) => (
            SettingsView {
                rebinding: if v.rebinding == Some(b) {
                    None
                } else {
                    Some(b)
                },
                ..v
            },
            screen,
        ),
        SettingsAction::Page(p) => (SettingsView { page: p, rebinding: None }, screen),
        SettingsAction::Back => if v.page != SettingsPage::Main {
            (SettingsView { page: SettingsPage::Main, rebinding: None }, screen)
        } else {
            (v, back)
        },
        _ => (v, screen),
    }
}

/// The screen's state after a run of presses, in order.
pub open spec fn views_after(v: SettingsView, screen: Screen, back: Screen, presses: Seq<SettingsAction>) -> (
    SettingsView,
    Screen,
)
    decreases presses.len(),
{
    if presses.len() == 0 {
        (v, screen)
    } else {
        let (v1, s1) = views_after(v, screen, back, presses.drop_last());
        view_after(v1, s1, back, presses.last())
    }
}

/// The changes a run of presses asks for, in order.
pub open spec fn changes_of(presses: Seq<SettingsAction>) -> Seq<SettingChange>
    decreases presses.len(),
{
    if presses.len() == 0 {
        Seq::empty()
    } else {
        match change_of(presses.last()) {
            Some(c) => changes_of(presses.drop_last()).push(c),
            None => changes_of(presses.drop_last()),
        }
    }
}

/// Every arrow asks for a step in its own direction on its own setting: the minus arrow of a
/// setting never asks for what its plus arrow asks for, a press on one setting never changes
/// another, and in a frame on the settings screen a lone arrow press asks for exactly that one
/// change.
pub proof fn law_every_arrow_moves_its_own_setting_its_own_way(n: Nudge)
    ensures
        change_of(SettingsAction::Mouse(n)) == Some(SettingChange::Mouse(n)),
        change_of(SettingsAction::Fov(n)) == Some(SettingChange::Fov(n)),
        change_of(SettingsAction::AssistCatch(n)) == Some(SettingChange::AssistCatch(n)),
        change_of(SettingsAction::AssistStrength(n)) == Some(SettingChange::AssistStrength(n)),
        change_of(SettingsAction::CrosshairSize(n)) == Some(SettingChange::CrosshairSize(n)),
        change_of(SettingsAction::CrosshairColour(n)) == Some(SettingChange::CrosshairColour(n)),
        change_of(SettingsAction::Mouse(Nudge::Up)) != change_of(SettingsAction::Mouse(Nudge::Down)),
        change_of(SettingsAction::Fov(Nudge::Up)) != change_of(SettingsAction::Fov(Nudge::Down)),
        change_of(SettingsAction::AssistCatch(Nudge::Up)) != change_of(
            SettingsAction::AssistCatch(Nudge::Down),
        ),
        change_of(SettingsAction::AssistStrength(Nudge::Up)) != change_of(
            SettingsAction::AssistStrength(Nudge::Down),
        ),
        change_of(SettingsAction::CrosshairSize(Nudge::Up)) != change_of(
            SettingsAction::CrosshairSize(Nudge::Down),
        ),
        change_of(SettingsAction::CrosshairColour(Nudge::Up)) != change_of(
            SettingsAction::CrosshairColour(Nudge::Down),
        ),
        changes_of(seq![SettingsAction::Fov(n)]) == seq![SettingChange::Fov(n)],
        changes_of(seq![SettingsAction::Mouse(n)]) == seq![SettingChange::Mouse(n)],
{
    let fov = seq![SettingsAction::Fov(n)];
    let mouse = seq![SettingsAction::Mouse(n)];
    assert(fov.drop_last() =~= Seq::<SettingsAction>::empty());
    assert(mouse.drop_last() =~= Seq::<SettingsAction>::empty());
    assert(fov.last() == SettingsAction::Fov(n));
    assert(mouse.last() == SettingsAction::Mouse(n));
    assert(changes_of(Seq::<SettingsAction>::empty()) == Seq::<SettingChange>::empty());
    assert(Seq::<SettingChange>::empty().push(SettingChange::Fov(n)) =~= seq![SettingChange::Fov(n)]);
    assert(Seq::<SettingChange>::empty().push(SettingChange::Mouse(n)) =~= seq![SettingChange::Mouse(n)]);
}

/// *Back* walks out one page at a time and then out of the screen, to where it was opened from;
/// a page change or a *Back* never leaves a capture armed; and pressing an armed bind row again
/// disarms it.
pub proof fn law_back_walks_out_a_page_at_a_time(v: SettingsView, screen: Screen, back: Screen, b: BindAction)
    ensures
        v.page != SettingsPage::Main ==> view_after(v, screen, back, SettingsAction::Back) == (
        SettingsView { page: SettingsPage::Main, rebinding: None },
        screen,
        ),
        v.page == SettingsPage::Main ==> view_after(v, screen, back, SettingsAction::Back).1 == back,
        forall|p: SettingsPage| #[trigger] view_after(v, screen, back, SettingsAction::Page(p)).0
            == (SettingsView { page: p, rebinding: None }),
        view_after(view_after(v, screen, back, SettingsAction::Bind(b)).0, screen, back, SettingsAction::Bind(b)).0.rebinding
            == (if v.rebinding == Some(b) { Some(b) } else { None }),
        view_after(v, screen, back, SettingsAction::Bind(b)).1 == screen,
{
}

/// What one frame of the settings screen asks for.
#[derive(Debug, PartialEq, Eq)]
pub struct SettingsFrame {
    /// The changes, in the order they were asked for.
    pub changes: Vec<SettingChange>,
    /// Whether anything that is kept changed — the file is written once, at the end.
    pub persist: bool,
}

/// One frame of the settings screen.
///
/// Away from the screen, the view state is forgotten: no capture stays armed into the next
/// visit, and the next visit starts on the main page. On the screen, an armed capture takes the
/// first rebindable key that went down this frame, then every pressed button acts in order.
pub fn settings_frame(
    view: &mut SettingsView,
    screen: &mut Screen,
    back: SettingsFrom,
    captured_key: Option<u32>,
    presses: &[SettingsAction],
) -> (f: SettingsFrame)
    ensures
        *old(screen) != Screen::Settings ==> {
            &&& *final(view) == (SettingsView { page: SettingsPage::Main, rebinding: None })
            &&& *final(screen) == *old(screen)
            &&& f.changes@.len() == 0
            &&& !f.persist
        },
        *old(screen) == Screen::Settings ==> {
            let bind: Option<SettingChange> = match (old(view).rebinding, captured_key) {
                (Some(a), Some(k)) => Some(SettingChange::Bind(a, k)),
                _ => None,
            };
            let v0 = if bind is Some {
                SettingsView { rebinding: None, ..*old(view) }
            } else {
                *old(view)
            };
            let first: Seq<SettingChange> = match bind {
                Some(c) => seq![c],
                None => Seq::empty(),
            };
            &&& (*final(view), *final(screen)) == views_after(v0, *old(screen), back.0, presses@)
            &&& f.changes@ == first + changes_of(presses@)
            &&& f.persist == (f.changes@.len() > 0)
        },
{
    let mut changes: Vec<SettingChange> = Vec::new();
    if *screen != Screen::Settings {
        view.rebinding = None;
        view.page = SettingsPage::Main;
        return SettingsFrame { changes, persist: false };
    }
    match (view.rebinding, captured_key) {
        (Some(action), Some(key)) => {
            changes.push(SettingChange::Bind(action, key));
            view.rebinding = None;
        },
        _ => {},
    }
    let ghost first = changes@;
    let ghost v0 = *view;
    let ghost s0 = *screen;
    let mut i: usize = 0;
    while i < presses.len()
        invariant
            0 <= i <= presses@.len(),
            (*view, *screen) == views_after(v0, s0, back.0, presses@.take(i as int)),
            changes@ == first + changes_of(presses@.take(i as int)),
        decreases presses.len() - i,
    {
        let action = presses[i];
        proof {
            assert(presses@.take(i + 1).drop_last() =~= presses@.take(i as int));
            assert(presses@.take(i + 1).last() == action);
        }
        match action {
            SettingsAction::Mouse(n) => changes.push(SettingChange::Mouse(n)),
            SettingsAction::InvertY => changes.push(SettingChange::FlipInvertY),
            SettingsAction::Fov(n) => changes.push(SettingChange::Fov(n)),
            SettingsAction::AssistCatch(n) => changes.push(SettingChange::AssistCatch(n)),
            SettingsAction::AssistStrength(n) => changes.push(SettingChange::AssistStrength(n)),
            SettingsAction::HookFire => changes.push(SettingChange::FlipHookFire),
            SettingsAction::CrosshairSize(n) => changes.push(SettingChange::CrosshairSize(n)),
            SettingsAction::CrosshairColour(n) => changes.push(SettingChange::CrosshairColour(n)),
            SettingsAction::Bind(bind) => {
                view.rebinding = if view.rebinding == Some(bind) {
                    None
                } else {
                    Some(bind)
                };
            },
            SettingsAction::Page(page) => {
                view.page = page;
                view.rebinding = None;
            },
            SettingsAction::Back => {
                if view.page != SettingsPage::Main {
                    view.page = SettingsPage::Main;
                    view.rebinding = None;
                } else {
                    *screen = back.0;
                }
            },
        }
        proof {
            assert(first + changes_of(presses@.take(i + 1)) =~= changes@);
        }
        i = i + 1;
    }
    proof {
        assert(presses@.take(presses@.len() as int) =~= presses@);
    }
    let persist = changes.len() > 0;
    SettingsFrame { changes, persist }
}

} // verus!
