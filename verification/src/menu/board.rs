//! The mission board in the hub: walk up to it, press `F` to open the overview, tap `F` to
//! step the choice on, hold `F` to deploy what it shows.
//!
//! The press that opens the board can neither step nor deploy: you always deploy something you
//! have been shown. A hold has a floor and no ceiling — whoever is slow holds longer.
//!
//! The hold is measured in real seconds at the edge; what is decided here is what each press,
//! release and completed hold does.

use vstd::prelude::*;
use super::Screen;
use crate::hud::board::{entry_view, same_entry, BoardEntry};

verus! {

/// What the board is doing right now.
#[derive(Clone, Copy, Debug, Default, PartialEq, Eq, Structural)]
pub struct Board {
    /// Whether the local player stands inside the board's circle.
    pub in_range: bool,
    /// Whether the overview is up.
    pub open: bool,
    /// How long `F` has been down on a press that found the board already open, in seconds
    /// (as bits). `None`: this press cannot deploy.
    pub armed: Option<u32>,
    /// This press has already done its work; cleared on release, so one press is one action.
    pub spent: bool,
}

/// What the board asks of the rest of the game.
#[derive(Clone, Copy, Debug, PartialEq, Eq, Structural)]
pub enum BoardAction {
    Nothing,
    /// The overview just opened.
    Opened,
    /// Step the choice on by one entry.
    Step,
    /// Deploy what the board is showing.
    Deploy,
}

/// The board after it is put away: shut, disarmed, and the plate taken down where there is one.
pub open spec fn shut_board(b: Board) -> Board {
    Board { open: false, armed: None, ..b }
}

pub open spec fn shut_screen(s: Screen, windowed: bool) -> Screen {
    if windowed && s == Screen::Lobby {
        Screen::Playing
    } else {
        s
    }
}

fn shut(board: &mut Board, screen: &mut Screen, windowed: bool)
    ensures
        *final(board) == shut_board(*old(board)),
        *final(screen) == shut_screen(*old(screen), windowed),
{
    board.open = false;
    board.armed = None;
    if windowed && *screen == Screen::Lobby {
        *screen = Screen::Playing;
    }
}

/// One frame of the board's range and of `F`'s edges, as the board, the screen and the action
/// it leaves:
///
/// 1. The range is written.
/// 2. An open board shuts when he walked away, or when the plate went away under a window.
/// 3. Out of range, `F` means nothing here: the press memory is cleared and nothing happens.
/// 4. A press on a shut board opens it and is spent; a press on an open board arms.
/// 5. A release steps the choice when the press was armed and not spent, and clears the press.
pub open spec fn keys_step(
    b: Board,
    s: Screen,
    in_range: bool,
    windowed: bool,
    just_pressed: bool,
    just_released: bool,
) -> (Board, Screen, BoardAction) {
    let b1 = Board { in_range: in_range, ..b };
    let shut_now = b1.open && (!in_range || (windowed && s != Screen::Lobby));
    let b2 = if shut_now {
        shut_board(b1)
    } else {
        b1
    };
    let s2 = if shut_now {
        shut_screen(s, windowed)
    } else {
        s
    };
    if !in_range {
        (Board { armed: None, spent: false, ..b2 }, s2, BoardAction::Nothing)
    } else {
        let opens = just_pressed && !b2.open;
        let b3 = if !just_pressed {
            b2
        } else if b2.open {
            Board { armed: Some(0u32), spent: false, ..b2 }
        } else {
            Board { open: true, armed: None, spent: true, ..b2 }
        };
        let s3 = if opens && windowed && s2 != Screen::Lobby {
            Screen::Lobby
        } else {
            s2
        };
        let steps = just_released && b3.armed is Some && !b3.spent;
        (
            if just_released {
                Board { armed: None, spent: false, ..b3 }
            } else {
                b3
            },
            s3,
            if steps {
                BoardAction::Step
            } else if opens {
                BoardAction::Opened
            } else {
                BoardAction::Nothing
            },
        )
    }
}

/// One frame of the board's range and of `F`'s edges (see [`keys_step`]).
pub fn board_keys(
    board: &mut Board,
    screen: &mut Screen,
    in_range: bool,
    windowed: bool,
    just_pressed: bool,
    just_released: bool,
) -> (act: BoardAction)
    ensures
        (*final(board), *final(screen), act) == keys_step(
            *old(board),
            *old(screen),
            in_range,
            windowed,
            just_pressed,
            just_released,
        ),
{
    if board.in_range != in_range {
        board.in_range = in_range;
    }
    if board.open && (!in_range || (windowed && *screen != Screen::Lobby)) {
        shut(board, screen, windowed);
    }
    if !in_range {
        if board.armed.is_some() {
            board.armed = None;
        }
        if board.spent {
            board.spent = false;
        }
        return BoardAction::Nothing;
    }
    let mut act = BoardAction::Nothing;
    if just_pressed {
        if board.open {
            board.armed = Some(0);
            board.spent = false;
        } else {
            board.open = true;
            board.armed = None;
            board.spent = true;
            if windowed && *screen != Screen::Lobby {
                *screen = Screen::Lobby;
            }
            act = BoardAction::Opened;
        }
    }
    if just_released {
        if board.armed.is_some() && !board.spent {
            act = BoardAction::Step;
        }
        board.armed = None;
        board.spent = false;
    }
    act
}

/// One frame of a press that is still down and armed, as the board, the screen and the action
/// it leaves. `held_bits` is the hold so far, this frame included; `hold_done` says whether it
/// has reached the board's hold time. A completed hold deploys once and shuts the board; a key
/// that came up unseen disarms; a press that is not armed does nothing.
pub open spec fn hold_step(
    b: Board,
    s: Screen,
    windowed: bool,
    pressed: bool,
    held_bits: u32,
    hold_done: bool,
) -> (Board, Screen, BoardAction) {
    if b.armed is None {
        (b, s, BoardAction::Nothing)
    } else if !pressed {
        (Board { armed: None, ..b }, s, BoardAction::Nothing)
    } else if hold_done && !b.spent {
        (shut_board(Board { spent: true, ..b }), shut_screen(s, windowed), BoardAction::Deploy)
    } else {
        (Board { armed: Some(held_bits), ..b }, s, BoardAction::Nothing)
    }
}

/// One frame of a press that is still down (call it only on a frame without a release; see
/// [`hold_step`]).
pub fn board_hold(
    board: &mut Board,
    screen: &mut Screen,
    windowed: bool,
    pressed: bool,
    held_bits: u32,
    hold_done: bool,
) -> (act: BoardAction)
    ensures
        (*final(board), *final(screen), act) == hold_step(
            *old(board),
            *old(screen),
            windowed,
            pressed,
            held_bits,
            hold_done,
        ),
{
    if board.armed.is_none() {
        return BoardAction::Nothing;
    }
    if !pressed {
        board.armed = None;
        return BoardAction::Nothing;
    }
    board.armed = Some(held_bits);
    if hold_done && !board.spent {
        board.spent = true;
        board.armed = None;
        shut(board, screen, windowed);
        return BoardAction::Deploy;
    }
    BoardAction::Nothing
}

/// The press that opens the board can neither step nor deploy: however long it is held and
/// whenever it comes up, nothing is chosen and nothing flies — you always deploy something you
/// have been shown.
pub proof fn law_the_opening_press_cannot_fly(
    b: Board,
    s: Screen,
    in_range: bool,
    windowed: bool,
    pressed: bool,
    held_bits: u32,
    hold_done: bool,
    later_in_range: bool,
    released: bool,
)
    requires
        keys_step(b, s, in_range, windowed, true, false).2 == BoardAction::Opened,
    ensures
        ({
            let (b1, s1, a1) = keys_step(b, s, in_range, windowed, true, false);
            let (b2, s2, a2) = hold_step(b1, s1, windowed, pressed, held_bits, hold_done);
            &&& a2 == BoardAction::Nothing
            &&& keys_step(b1, s1, later_in_range, windowed, false, released).2 != BoardAction::Step
            &&& keys_step(b2, s2, later_in_range, windowed, false, released).2 != BoardAction::Step
        }),
{
}

/// The board follows its plate: in a windowed run an open board whose plate went away (*Back*,
/// *Deploy*, `Esc` — the screen is no longer the lobby) is shut on the next frame, before the
/// key is read. A press in that frame therefore opens the board afresh — spent, unarmed, the
/// plate back up — and can neither arm, step nor deploy; a frame without a press leaves the
/// board shut and the screen where `Esc` put it.
pub proof fn law_a_board_without_its_plate_is_shut(b: Board, s: Screen, just_released: bool)
    requires
        b.open,
        s != Screen::Lobby,
    ensures
        keys_step(b, s, true, true, true, false) == (
        Board { in_range: true, open: true, armed: None, spent: true },
        Screen::Lobby,
        BoardAction::Opened,
        ),
        ({
            let (b1, s1, a1) = keys_step(b, s, true, true, false, just_released);
            &&& !b1.open && b1.armed is None
            &&& s1 == s
            &&& a1 != BoardAction::Step
        }),
        keys_step(b, s, true, true, true, just_released).2 != BoardAction::Step,
{
}

/// A hold deploys once: the frame after a completed hold, holding on deploys nothing more.
pub proof fn law_a_hold_deploys_once(
    b: Board,
    s: Screen,
    windowed: bool,
    held_bits: u32,
    pressed: bool,
    more_bits: u32,
    hold_done: bool,
)
    requires
        hold_step(b, s, windowed, true, held_bits, true).2 == BoardAction::Deploy,
    ensures
        ({
            let (b1, s1, _) = hold_step(b, s, windowed, true, held_bits, true);
            &&& !b1.open
            &&& hold_step(b1, s1, windowed, pressed, more_bits, hold_done).2 == BoardAction::Nothing
        }),
{
}

/// The first place in `list` that holds the sortie `here`, or the list's length when none does.
pub open spec fn entry_position(list: Seq<BoardEntry>, here: (Seq<char>, Option<Seq<char>>)) -> int
    decreases list.len(),
{
    if list.len() == 0 {
        0
    } else if entry_view(list[0]) == here {
        0
    } else {
        1 + entry_position(list.drop_first(), here)
    }
}

proof fn lemma_entry_position(list: Seq<BoardEntry>, here: (Seq<char>, Option<Seq<char>>))
    ensures
        0 <= entry_position(list, here) <= list.len(),
        forall|i: int| 0 <= i < entry_position(list, here) ==> entry_view(list[i]) != here,
        entry_position(list, here) < list.len() ==> entry_view(list[entry_position(list, here)])
            == here,
    decreases list.len(),
{
    if list.len() > 0 && entry_view(list[0]) != here {
        lemma_entry_position(list.drop_first(), here);
        assert forall|i: int| 0 <= i < entry_position(list, here) implies entry_view(list[i])
            != here by {
            if i > 0 {
                assert(list[i] == list.drop_first()[i - 1]);
            }
        }
    }
}

/// Where a tap on the open board moves the choice: one entry on from the one that would fly,
/// wrapping at the end; from the first entry when the current choice is not on the list.
pub open spec fn stepped_index(list: Seq<BoardEntry>, here: Option<(Seq<char>, Option<Seq<char>>)>) -> int {
    let at = match here {
        Some(h) => if entry_position(list, h) < list.len() {
            entry_position(list, h)
        } else {
            0
        },
        None => 0,
    };
    (at + 1) % (list.len() as int)
}

fn find_entry(list: &[BoardEntry], h: &BoardEntry) -> (at: usize)
    ensures
        at == entry_position(list@, entry_view(*h)),
{
    proof {
        lemma_entry_position(list@, entry_view(*h));
    }
    let mut i: usize = 0;
    while i < list.len()
        invariant
            0 <= i <= list@.len(),
            forall|j: int| 0 <= j < i ==> entry_view(list@[j]) != entry_view(*h),
            0 <= entry_position(list@, entry_view(*h)) <= list@.len(),
            forall|j: int|
                0 <= j < entry_position(list@, entry_view(*h)) ==> entry_view(list@[j]) != entry_view(
                    *h,
                ),
            entry_position(list@, entry_view(*h)) < list@.len() ==> entry_view(
                list@[entry_position(list@, entry_view(*h))],
            ) == entry_view(*h),
        decreases list.len() - i,
    {
        if same_entry(&list[i], h) {
            return i;
        }
        i = i + 1;
    }
    i
}

/// The entry a tap steps the choice on to (see [`stepped_index`]); `None` for an empty list.
///
/// The position is found again through the choice's keys every time, never remembered as an
/// index: a stored index would point at another sortie the moment the file gains a line.
pub fn next_entry(list: &[BoardEntry], here: Option<&BoardEntry>) -> (r: Option<BoardEntry>)
    ensures
        list@.len() == 0 ==> r is None,
        list@.len() > 0 ==> (r matches Some(e) && entry_view(e) == entry_view(
            list@[stepped_index(
                list@,
                match here {
                    None => None,
                    Some(h) => Some(entry_view(*h)),
                },
            )],
        )),
{
    if list.len() == 0 {
        return None;
    }
    let at: usize = match here {
        Some(h) => {
            let p = find_entry(list, h);
            if p < list.len() {
                p
            } else {
                0
            }
        },
        None => 0,
    };
    let next = if at + 1 < list.len() {
        at + 1
    } else {
        0
    };
    proof {
        let n = list@.len() as int;
        assert((at + 1) % n == next as int) by (nonlinear_arith)
            requires
                0 <= at < n,
                next == (if at + 1 < n {
                    at + 1
                } else {
                    0
                }),
        ;
    }
    let e = &list[next];
    let level = match &e.1 {
        Some(l) => Some(l.clone()),
        None => None,
    };
    Some((e.0.clone(), level))
}

} // verus!
