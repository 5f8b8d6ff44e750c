//! The mission board's own panel: nothing away from the board, what `F` does while standing at
//! it, and the sortie list with the one that would fly marked once the board is open.
//!
//! Nothing here measures or decides: whether the player is at the board and whether it is open
//! are the board's answers, the list and the pick are the lobby's, and the ladder is the
//! career's. This turns those answers into lines.

use vstd::prelude::*;
use vstd::string::StringExecFns;
use crate::data::{key_index, Progress};
use crate::menu::lobby::key_text;
use crate::menu::MISSION_SELECT_ROW;
use crate::progress::{gate_of, has_cleared, may_fly, may_fly_spec, text_index, Career};
use crate::shared::same_text;

verus! {

/// The marker in front of the sortie that would fly — a glyph, not a colour.
pub const CURSOR: &'static str = "> ";
/// What every other row is indented by, so the cursor column is a column.
pub const NO_CURSOR: &'static str = "  ";
/// The board's name on the panel's first line.
pub const HEADING: &'static str = "MISSION BOARD";
/// What marks a rung this career has won at least once.
pub const CLEARED: &'static str = "  *";
/// What marks a rung the ladder will not let this rank fly.
pub const LOCKED: &'static str = "  LOCKED";

/// One sortie on the board: the template key and the level key, if the template has levels.
pub type BoardEntry = (String, Option<String>);

/// A sortie by its texts.
pub open spec fn entry_view(e: BoardEntry) -> (Seq<char>, Option<Seq<char>>) {
    (e.0@, key_text(e.1))
}

/// One sortie as one line: the keys out of the file, not display names.
pub open spec fn row_of(e: BoardEntry) -> Seq<char> {
    match e.1 {
        Some(level) => e.0@ + "  "@ + level@,
        None => e.0@,
    }
}

/// The rung's key on the ladder: `template/level`, or the bare template key.
pub open spec fn rung_key(e: BoardEntry) -> Seq<char> {
    match e.1 {
        Some(level) => e.0@ + "/"@ + level@,
        None => e.0@,
    }
}

/// Where the career stands on this rung: locked (naming the rank it wants) beats cleared, and a
/// rung that is neither says nothing. Without a career, nothing.
pub open spec fn standing_of(e: BoardEntry, progress: Progress, career: Option<Career>) -> Seq<char> {
    match career {
        None => Seq::empty(),
        Some(c) => {
            let key = rung_key(e);
            if !may_fly_spec(progress.ranks@, progress.gates@, c.rank@, key) {
                let g = key_index(progress.gates@, key);
                if g < progress.gates@.len() {
                    LOCKED@ + " "@ + progress.gates@[g].1@
                } else {
                    LOCKED@
                }
            } else if text_index(c.cleared@, key) < c.cleared@.len() {
                CLEARED@
            } else {
                Seq::empty()
            }
        },
    }
}

/// One row of the open board, with the line break before it.
pub open spec fn board_row(
    e: BoardEntry,
    picked: Option<(Seq<char>, Option<Seq<char>>)>,
    progress: Progress,
    career: Option<Career>,
) -> Seq<char> {
    "\n"@ + (if picked == Some(entry_view(e)) {
        CURSOR@
    } else {
        NO_CURSOR@
    }) + row_of(e) + standing_of(e, progress, career)
}

/// The rows of the open board, in list order.
pub open spec fn board_rows(
    list: Seq<BoardEntry>,
    picked: Option<(Seq<char>, Option<Seq<char>>)>,
    progress: Progress,
    career: Option<Career>,
) -> Seq<char>
    decreases list.len(),
{
    if list.len() == 0 {
        Seq::empty()
    } else {
        board_rows(list.drop_last(), picked, progress, career) + board_row(
            list.last(),
            picked,
            progress,
            career,
        )
    }
}

/// What the panel says; `None` draws nothing.
pub open spec fn board_says(
    in_range: bool,
    open: bool,
    list: Seq<BoardEntry>,
    picked: Option<(Seq<char>, Option<Seq<char>>)>,
    progress: Progress,
    career: Option<Career>,
) -> Option<Seq<char>> {
    if !in_range {
        None
    } else if !open {
        Some(HEADING@ + "\n\nF   "@ + MISSION_SELECT_ROW@)
    } else if list.len() == 0 {
        Some(HEADING@ + "\n\nassets/data/missions.ron has no templates"@)
    } else {
        Some(HEADING@ + "\n"@ + board_rows(list, picked, progress, career)
            + "\n\nF   next        hold F   deploy"@)
    }
}

/// How many rows of the open board carry the cursor: one for each entry that is the pick.
pub open spec fn cursor_count(list: Seq<BoardEntry>, picked: Option<(Seq<char>, Option<Seq<char>>)>) -> nat
    decreases list.len(),
{
    if list.len() == 0 {
        0
    } else {
        cursor_count(list.drop_last(), picked) + (if picked == Some(entry_view(list.last())) {
            1nat
        } else {
            0nat
        })
    }
}

/// Whether the list names each sortie once.
pub open spec fn names_each_once(list: Seq<BoardEntry>) -> bool {
    forall|i: int, j: int| 0 <= i < j < list.len() ==> entry_view(list[i]) != entry_view(list[j])
}

/// Whether the pick is one of the list's sorties.
pub open spec fn pick_listed(list: Seq<BoardEntry>, picked: Option<(Seq<char>, Option<Seq<char>>)>) -> bool {
    exists|i: int| 0 <= i < list.len() && picked == Some(entry_view(list[i]))
}

/// The open board marks exactly the sortie that would fly: a row opens with the cursor exactly
/// when it is the pick, and on a list that names each sortie once, one row carries the cursor
/// when the pick is on the list and none when it is not — never two answers.
pub proof fn law_one_cursor_on_the_pick(
    list: Seq<BoardEntry>,
    picked: Option<(Seq<char>, Option<Seq<char>>)>,
    progress: Progress,
    career: Option<Career>,
    e: BoardEntry,
)
    ensures
        board_row(e, picked, progress, career).subrange(1, 3) == CURSOR@ <==> picked == Some(
            entry_view(e),
        ),
        names_each_once(list) ==> cursor_count(list, picked) == (if pick_listed(list, picked) {
            1nat
        } else {
            0nat
        }),
    decreases list.len(),
{
    reveal_strlit("\n");
    reveal_strlit("> ");
    reveal_strlit("  ");
    let mark = if picked == Some(entry_view(e)) {
        CURSOR@
    } else {
        NO_CURSOR@
    };
    let r = board_row(e, picked, progress, career);
    assert(r == "\n"@ + mark + row_of(e) + standing_of(e, progress, career));
    assert(r.subrange(1, 3) =~= mark);
    if picked != Some(entry_view(e)) {
        assert(NO_CURSOR@[0] != CURSOR@[0]);
    }
    if list.len() > 0 {
        let rest = list.drop_last();
        law_one_cursor_on_the_pick(rest, picked, progress, career, e);
        if names_each_once(list) {
            assert(names_each_once(rest));
            if pick_listed(rest, picked) {
                let i = choose|i: int| 0 <= i < rest.len() && picked == Some(entry_view(rest[i]));
                assert(list[i] == rest[i]);
                assert(entry_view(list[i]) != entry_view(list[list.len() - 1]));
                assert(pick_listed(list, picked));
            } else if picked == Some(entry_view(list.last())) {
                assert(pick_listed(list, picked));
            } else {
                if pick_listed(list, picked) {
                    let i = choose|i: int| 0 <= i < list.len() && picked == Some(entry_view(list[i]));
                    if i < list.len() - 1 {
                        assert(rest[i] == list[i]);
                    }
                }
            }
        }
    }
}

/// Whether two sorties name the same template and level.
pub fn same_entry(a: &BoardEntry, b: &BoardEntry) -> (r: bool)
    ensures
        r == (entry_view(*a) == entry_view(*b)),
{
    if !same_text(a.0.as_str(), b.0.as_str()) {
        return false;
    }
    match (&a.1, &b.1) {
        (None, None) => true,
        (Some(x), Some(y)) => same_text(x.as_str(), y.as_str()),
        _ => false,
    }
}

fn row_string(e: &BoardEntry) -> (s: String)
    ensures
        s@ == row_of(*e),
{
    let mut s = String::from_str(e.0.as_str());
    match &e.1 {
        Some(level) => {
            s.append("  ");
            s.append(level.as_str());
        },
        None => {},
    }
    s
}

fn rung_key_string(e: &BoardEntry) -> (s: String)
    ensures
        s@ == rung_key(*e),
{
    let mut s = String::from_str(e.0.as_str());
    match &e.1 {
        Some(level) => {
            s.append("/");
            s.append(level.as_str());
        },
        None => {},
    }
    s
}

fn standing_string(e: &BoardEntry, progress: &Progress, standing: Option<&Career>) -> (s: String)
    ensures
        s@ == standing_of(
            *e,
            *progress,
            match standing {
                None => None,
                Some(c) => Some(*c),
            },
        ),
{
    let career = match standing {
        None => return String::new(),
        Some(c) => c,
    };
    let key = rung_key_string(e);
    if !may_fly(progress, career.rank.as_str(), key.as_str()) {
        let mut s = String::from_str(LOCKED);
        match gate_of(progress, key.as_str()) {
            Some(rank) => {
                s.append(" ");
                s.append(rank.as_str());
            },
            None => {},
        }
        return s;
    }
    if has_cleared(career, key.as_str()) {
        return String::from_str(CLEARED);
    }
    String::new()
}

/// What the panel says: `None` draws nothing at all (see [`board_says`]).
///
/// `list` is the lobby's sortie list and `picked` the lobby's pick; `standing` is the local
/// player's career, if there is one.
pub fn board_text(
    in_range: bool,
    open: bool,
    list: &[BoardEntry],
    picked: Option<&BoardEntry>,
    progress: &Progress,
    standing: Option<&Career>,
) -> (r: Option<String>)
    ensures
        ({
            let want = board_says(
                in_range,
                open,
                list@,
                match picked {
                    None => None,
                    Some(p) => Some(entry_view(*p)),
                },
                *progress,
                match standing {
                    None => None,
                    Some(c) => Some(*c),
                },
            );
            &&& r is Some == want is Some
            &&& r matches Some(s) ==> s@ == want->0
        }),
{
    let ghost pick = match picked {
        None => None,
        Some(p) => Some(entry_view(*p)),
    };
    let ghost career = match standing {
        None => None,
        Some(c) => Some(*c),
    };
    if !in_range {
        return None;
    }
    if !open {
        let mut s = String::from_str(HEADING);
        s.append("\n\nF   ");
        s.append(MISSION_SELECT_ROW);
        return Some(s);
    }
    if list.len() == 0 {
        let mut s = String::from_str(HEADING);
        s.append("\n\nassets/data/missions.ron has no templates");
        return Some(s);
    }
    let mut out = String::from_str(HEADING);
    out.append("\n");
    let ghost head = out@;
    let mut i: usize = 0;
    while i < list.len()
        invariant
            0 <= i <= list@.len(),
            head == HEADING@ + "\n"@,
            out@ == head + board_rows(list@.take(i as int), pick, *progress, career),
            pick == (match picked {
                None => None,
                Some(p) => Some(entry_view(*p)),
            }),
            career == (match standing {
                None => None,
                Some(c) => Some(*c),
            }),
        decreases list.len() - i,
    {
        let ghost before = out@;
        out.append("\n");
        let marked = match picked {
            Some(p) => same_entry(&list[i], p),
            None => false,
        };
        if marked {
            out.append(CURSOR);
        } else {
            out.append(NO_CURSOR);
        }
        let row = row_string(&list[i]);
        out.append(row.as_str());
        let st = standing_string(&list[i], progress, standing);
        out.append(st.as_str());
        proof {
            let e = list@[i as int];
            assert(list@.take(i + 1).drop_last() =~= list@.take(i as int));
            assert(list@.take(i + 1).last() == e);
            assert(marked == (pick == Some(entry_view(e))));
            assert(out@ =~= head + board_rows(list@.take(i + 1), pick, *progress, career));
        }
        i = i + 1;
    }
    proof {
        assert(list@.take(list@.len() as int) =~= list@);
    }
    out.append("\n\nF   next        hold F   deploy");
    Some(out)
}

} // verus!
