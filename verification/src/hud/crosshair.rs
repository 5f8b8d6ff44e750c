//! The crosshair's state: what it is looking at, and how many of its eight nodes show.

use vstd::prelude::*;

verus! {

/// What the crosshair is looking at.
#[derive(Clone, Copy, Debug, Default, PartialEq, Eq, Structural)]
pub enum CrosshairState {
    /// Nothing hookable, no cortex.
    #[default]
    Free,
    /// What you are looking at is anchorable.
    Anchor,
    /// A cortex is in range. The only place a titan dies.
    Cortex,
}

/// Which of the eight nodes this is — four strokes, four outer marks, one per diagonal.
#[derive(Clone, Copy, Debug, PartialEq, Eq, Structural)]
pub enum CrosshairPart {
    StrokeUpLeft,
    StrokeUpRight,
    StrokeDownLeft,
    StrokeDownRight,
    MarkUpLeft,
    MarkUpRight,
    MarkDownLeft,
    MarkDownRight,
}

pub open spec fn mark_part(p: CrosshairPart) -> bool {
    p is MarkUpLeft || p is MarkUpRight || p is MarkDownLeft || p is MarkDownRight
}

impl CrosshairPart {
    /// All eight, strokes first.
    pub fn all() -> (a: [CrosshairPart; 8])
        ensures
            a@ == seq![
                CrosshairPart::StrokeUpLeft,
                CrosshairPart::StrokeUpRight,
                CrosshairPart::StrokeDownLeft,
                CrosshairPart::StrokeDownRight,
                CrosshairPart::MarkUpLeft,
                CrosshairPart::MarkUpRight,
                CrosshairPart::MarkDownLeft,
                CrosshairPart::MarkDownRight,
            ],
    {
        let a = [
            CrosshairPart::StrokeUpLeft,
            CrosshairPart::StrokeUpRight,
            CrosshairPart::StrokeDownLeft,
            CrosshairPart::StrokeDownRight,
            CrosshairPart::MarkUpLeft,
            CrosshairPart::MarkUpRight,
            CrosshairPart::MarkDownLeft,
            CrosshairPart::MarkDownRight,
        ];
        assert(a@ =~= seq![
            CrosshairPart::StrokeUpLeft,
            CrosshairPart::StrokeUpRight,
            CrosshairPart::StrokeDownLeft,
            CrosshairPart::StrokeDownRight,
            CrosshairPart::MarkUpLeft,
            CrosshairPart::MarkUpRight,
            CrosshairPart::MarkDownLeft,
            CrosshairPart::MarkDownRight,
        ]);
        a
    }

    /// Whether this is one of the four outer marks.
    pub fn is_mark(self) -> (r: bool)
        ensures
            r == mark_part(self),
    {
        match self {
            CrosshairPart::MarkUpLeft
            | CrosshairPart::MarkUpRight
            | CrosshairPart::MarkDownLeft
            | CrosshairPart::MarkDownRight => true,
            _ => false,
        }
    }
}

/// How many nodes a state shows: the four strokes, and the four marks only on a cortex.
pub fn node_count(state: CrosshairState) -> (n: usize)
    ensures
        n == (if state is Cortex {
            8usize
        } else {
            4usize
        }),
{
    match state {
        CrosshairState::Cortex => 8,
        _ => 4,
    }
}

/// The rule: cortex beats anchor — when both are true, the crosshair says the lethal one.
pub fn state_for(anchorable: bool, cortex_in_range: bool) -> (s: CrosshairState)
    ensures
        s == (if cortex_in_range {
            CrosshairState::Cortex
        } else if anchorable {
            CrosshairState::Anchor
        } else {
            CrosshairState::Free
        }),
{
    if cortex_in_range {
        CrosshairState::Cortex
    } else if anchorable {
        CrosshairState::Anchor
    } else {
        CrosshairState::Free
    }
}

} // verus!
