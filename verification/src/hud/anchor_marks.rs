//! The anchor marks' states: what one mark slot is saying.

use vstd::prelude::*;

verus! {

/// What one mark is saying — the two drawn states, plus the one that means nothing to say.
#[derive(Clone, Copy, Debug, Default, PartialEq, Eq, Structural)]
pub enum MarkState {
    /// This slot has no point this frame.
    #[default]
    Off,
    /// A valid candidate, drawn weak.
    Candidate,
    /// Already anchored: filled, with a tether.
    Anchored,
}

impl MarkState {
    /// The drawn states, in order. `Off` is not one of them.
    pub fn drawn() -> (d: [MarkState; 2])
        ensures
            d@ == seq![MarkState::Candidate, MarkState::Anchored],
    {
        let d = [MarkState::Candidate, MarkState::Anchored];
        assert(d@ =~= seq![MarkState::Candidate, MarkState::Anchored]);
        d
    }

    /// Whether a mark in this state is drawn at all.
    pub fn is_drawn(self) -> (r: bool)
        ensures
            r == !(self is Off),
    {
        match self {
            MarkState::Off => false,
            _ => true,
        }
    }

    /// Only an anchored mark carries a tether.
    pub fn has_tether(self) -> (r: bool)
        ensures
            r == (self is Anchored),
    {
        match self {
            MarkState::Anchored => true,
            _ => false,
        }
    }
}

/// What one frame of the anchor marks does before any search.
#[derive(Clone, Copy, Debug, PartialEq, Eq, Structural)]
pub enum SenseAction {
    /// Every slot says nothing.
    Clear,
    /// Keep what is drawn; the refresh is not due.
    Skip,
    /// Search the field and pick the marks.
    Search,
}

/// What stands in front of the anchor search. Markers switched off (`marker_max == 0`) clear
/// before anything else — off is off before the search, not after it; a refresh that is not
/// due keeps what is drawn; with no anchor field or no camera the slots clear; otherwise the
/// field is searched.
///
/// `due` is the refresh clock's answer for this frame. It only matters when markers are on, and
/// the clock is only to be advanced then.
pub fn sense_action(marker_max: u32, due: bool, field_and_camera: bool) -> (a: SenseAction)
    ensures
        a == (if marker_max == 0 {
            SenseAction::Clear
        } else if !due {
            SenseAction::Skip
        } else if !field_and_camera {
            SenseAction::Clear
        } else {
            SenseAction::Search
        }),
{
    if marker_max == 0 {
        SenseAction::Clear
    } else if !due {
        SenseAction::Skip
    } else if !field_and_camera {
        SenseAction::Clear
    } else {
        SenseAction::Search
    }
}

} // verus!
