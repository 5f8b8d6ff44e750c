//! hud — what the screen says: the objective line, the hit word, the crosshair's state and the
//! anchor marks' states. The layout, the colours and every size in pixels stay with the
//! renderer; what is decided here is **which** thing the screen says.

pub mod objective;
pub mod hit_mark;
pub mod crosshair;
pub mod anchor_marks;
pub mod board;

use vstd::prelude::*;
use crate::menu::Screen;

verus! {

/// Whether a HUD element shows over this screen. The overlay belongs to the game, so every
/// menu hides it — except on the settings screen, the element that is the very number the
/// screen in front of it edits.
pub fn hud_shown(screen: Screen, shown_while_tuning: bool) -> (r: bool)
    ensures
        r == (screen == Screen::Playing || (screen == Screen::Settings && shown_while_tuning)),
{
    screen == Screen::Playing || (screen == Screen::Settings && shown_while_tuning)
}

} // verus!
