//! The shape of `missions.ron` as this library reads it: templates, their levels, their waves
//! and the mode each template flies.
//!
//! Every number the file gives in seconds or metres is an IEEE-754 single-precision value, held
//! here by its bit pattern (`f32::to_bits`): the library decides with these records and carries
//! the numbers through; turning seconds into ticks and metres into places happens at the edge.

use vstd::prelude::*;
use vstd::string::StrSliceExecFns;
use crate::shared::Point;

verus! {

/// One wave of a template: when, what, and how many.
#[derive(Debug, PartialEq, Eq)]
pub struct Wave {
    pub at_s_bits: u32,
    pub kind: String,
    pub count: u32,
}

/// One ring of a parcours.
#[derive(Clone, Copy, Debug, PartialEq, Eq, Structural)]
pub struct Ring {
    pub center_m: Point,
    pub radius_m_bits: u32,
}

/// The mode a template flies, with the numbers of that mode.
#[derive(Debug, PartialEq, Eq)]
pub enum Objective {
    /// Kill `kill_target` titans before the clock runs out.
    Cull,
    /// Hold the wall gate: more than `breaches_allowed` titans through it loses; surviving to the
    /// deadline wins.
    Breach { gate_m: Point, reach_m_bits: u32, breaches_allowed: u32 },
    /// Fly the rings, in the order listed.
    Parcours { rings: Vec<Ring> },
    /// Walk the cart home along its waypoints.
    Escort { waypoints: Vec<Point>, speed_m_s_bits: u32, escort_radius_m_bits: u32, size_m: Point },
}

/// One level of a template: it owns three numbers — deadline, kill target, waves — and never
/// the mode.
#[derive(Debug, PartialEq, Eq)]
pub struct Difficulty {
    pub name: String,
    pub target_duration_s_bits: u32,
    pub kill_target: u32,
    pub waves: Vec<Wave>,
}

/// One mission template out of the file.
#[derive(Debug, PartialEq, Eq)]
pub struct MissionTemplate {
    pub name: String,
    pub map: String,
    pub target_duration_s_bits: u32,
    pub kill_target: u32,
    pub waves: Vec<Wave>,
    pub objective: Objective,
    /// The levels, by key, in key order.
    pub difficulties: Vec<(String, Difficulty)>,
}

/// One deployment pad of the hub, as the file lays it out.
#[derive(Debug, PartialEq, Eq)]
pub struct PadSpec {
    /// Key in the templates.
    pub mission: String,
    /// Key in that template's levels.
    pub difficulty: String,
    pub center_m: Point,
    pub radius_m_bits: u32,
}

/// The career ladder as `progress.ron` writes it: the ranks, lowest first, and the rungs a rank
/// has to be reached for.
#[derive(Debug, Default, PartialEq, Eq)]
pub struct Progress {
    /// The ranks, lowest first.
    pub ranks: Vec<String>,
    /// Rung (`"skirmish/veteran"`, or a bare template key) and the rank it wants.
    pub gates: Vec<(String, String)>,
}

/// Whether text `a` sorts strictly before text `b`: the first differing character decides by
/// its code point, and a proper prefix sorts first — the order of `str`.
pub open spec fn text_less(a: Seq<char>, b: Seq<char>) -> bool
    decreases a.len(),
{
    if a.len() == 0 {
        b.len() > 0
    } else if b.len() == 0 {
        false
    } else if a[0] != b[0] {
        (a[0] as u32) < (b[0] as u32)
    } else {
        text_less(a.drop_first(), b.drop_first())
    }
}

/// Keys strictly ascending: every key once, in key order — the shape of the file's maps.
pub open spec fn keys_ascending<T>(entries: Seq<(String, T)>) -> bool {
    forall|i: int, j: int| 0 <= i < j < entries.len() ==> text_less(entries[i].0@, entries[j].0@)
}

/// The templates in key order, and each template's levels in key order.
pub open spec fn missions_in_key_order(templates: Seq<(String, MissionTemplate)>) -> bool {
    &&& keys_ascending(templates)
    &&& forall|i: int| 0 <= i < templates.len() ==> keys_ascending(#[trigger] templates[i].1.difficulties@)
}

proof fn lemma_text_less_irreflexive(a: Seq<char>)
    ensures
        !text_less(a, a),
    decreases a.len(),
{
    if a.len() > 0 {
        lemma_text_less_irreflexive(a.drop_first());
    }
}

proof fn lemma_text_less_transitive(a: Seq<char>, b: Seq<char>, c: Seq<char>)
    requires
        text_less(a, b),
        text_less(b, c),
    ensures
        text_less(a, c),
    decreases a.len(),
{
    if a.len() > 0 && b.len() > 0 && c.len() > 0 && a[0] == b[0] && b[0] == c[0] {
        lemma_text_less_transitive(a.drop_first(), b.drop_first(), c.drop_first());
    }
}

/// In a list in key order every key occurs once, so a lookup of an entry's key finds that very
/// entry; and the first entry has the least key.
pub proof fn law_a_list_in_key_order_finds_each_entry_at_its_place<T>(entries: Seq<(String, T)>, i: int)
    requires
        keys_ascending(entries),
        0 <= i < entries.len(),
    ensures
        key_index(entries, entries[i].0@) == i,
        forall|j: int| 0 <= j < entries.len() && j != i ==> entries[j].0@ != entries[i].0@,
        i > 0 ==> text_less(entries[0].0@, entries[i].0@),
{
    lemma_key_index(entries, entries[i].0@);
    assert forall|j: int| 0 <= j < entries.len() && j != i implies entries[j].0@ != entries[i].0@ by {
        lemma_text_less_irreflexive(entries[i].0@);
        if j < i {
            assert(text_less(entries[j].0@, entries[i].0@));
        } else {
            assert(text_less(entries[i].0@, entries[j].0@));
        }
    }
}

/// Whether `a` sorts strictly before `b` (see [`text_less`]).
pub fn text_before(a: &str, b: &str) -> (r: bool)
    ensures
        r == text_less(a@, b@),
{
    let n = a.unicode_len();
    let m = b.unicode_len();
    let mut i: usize = 0;
    assert(a@.skip(0) =~= a@);
    assert(b@.skip(0) =~= b@);
    while i < n && i < m
        invariant
            n == a@.len(),
            m == b@.len(),
            0 <= i <= n,
            i <= m,
            text_less(a@, b@) == text_less(a@.skip(i as int), b@.skip(i as int)),
        decreases n - i,
    {
        let x = a.get_char(i);
        let y = b.get_char(i);
        proof {
            assert(a@.skip(i as int)[0] == x);
            assert(b@.skip(i as int)[0] == y);
        }
        if x != y {
            return (x as u32) < (y as u32);
        }
        proof {
            assert(a@.skip(i as int).drop_first() =~= a@.skip(i + 1));
            assert(b@.skip(i as int).drop_first() =~= b@.skip(i + 1));
        }
        i = i + 1;
    }
    proof {
        assert(a@.skip(i as int).len() == n - i);
        assert(b@.skip(i as int).len() == m - i);
    }
    n - i == 0 && m - i > 0
}

/// Whether the entries are in key order (see [`keys_ascending`]) — what a loader tests before
/// handing the file's lists to the lobby.
pub fn in_key_order<T>(entries: &Vec<(String, T)>) -> (r: bool)
    ensures
        r == keys_ascending(entries@),
{
    let mut i: usize = 1;
    if entries.len() == 0 {
        return true;
    }
    while i < entries.len()
        invariant
            1 <= i <= entries@.len(),
            forall|a: int, b: int| 0 <= a < b < i ==> text_less(entries@[a].0@, entries@[b].0@),
        decreases entries.len() - i,
    {
        if !text_before(entries[i - 1].0.as_str(), entries[i].0.as_str()) {
            return false;
        }
        proof {
            assert forall|a: int, b: int| 0 <= a < b < i + 1 implies text_less(
                entries@[a].0@,
                entries@[b].0@,
            ) by {
                if b == i && a < i - 1 {
                    lemma_text_less_transitive(entries@[a].0@, entries@[i - 1].0@, entries@[b].0@);
                }
            }
        }
        i = i + 1;
    }
    true
}

/// Whether the templates and every template's levels are in key order.
pub fn missions_in_order(templates: &Vec<(String, MissionTemplate)>) -> (r: bool)
    ensures
        r == missions_in_key_order(templates@),
{
    if !in_key_order(templates) {
        return false;
    }
    let mut i: usize = 0;
    while i < templates.len()
        invariant
            0 <= i <= templates@.len(),
            forall|j: int| 0 <= j < i ==> keys_ascending(#[trigger] templates@[j].1.difficulties@),
        decreases templates.len() - i,
    {
        if !in_key_order(&templates[i].1.difficulties) {
            return false;
        }
        i = i + 1;
    }
    true
}

/// The position of the first entry whose key is `key`, or the number of entries when none is.
pub open spec fn key_index<T>(entries: Seq<(String, T)>, key: Seq<char>) -> int
    decreases entries.len(),
{
    if entries.len() == 0 {
        0
    } else if entries[0].0@ == key {
        0
    } else {
        1 + key_index(entries.drop_first(), key)
    }
}

/// Whether some entry has the key `key`.
pub open spec fn has_key<T>(entries: Seq<(String, T)>, key: Seq<char>) -> bool {
    key_index(entries, key) < entries.len()
}

pub proof fn lemma_key_index<T>(entries: Seq<(String, T)>, key: Seq<char>)
    ensures
        0 <= key_index(entries, key) <= entries.len(),
        forall|i: int| 0 <= i < key_index(entries, key) ==> entries[i].0@ != key,
        key_index(entries, key) < entries.len() ==> entries[key_index(entries, key)].0@ == key,
    decreases entries.len(),
{
    if entries.len() > 0 && entries[0].0@ != key {
        lemma_key_index(entries.drop_first(), key);
        assert forall|i: int| 0 <= i < key_index(entries, key) implies entries[i].0@ != key by {
            if i > 0 {
                assert(entries[i] == entries.drop_first()[i - 1]);
            }
        }
    }
}

/// Where the entry `key` stands, or `entries.len()` when there is none.
pub fn find_key<T>(entries: &Vec<(String, T)>, key: &str) -> (at: usize)
    ensures
        at == key_index(entries@, key@),
{
    proof {
        lemma_key_index(entries@, key@);
    }
    let mut i: usize = 0;
    while i < entries.len()
        invariant
            0 <= i <= entries.len(),
            forall|j: int| 0 <= j < i ==> entries@[j].0@ != key@,
            0 <= key_index(entries@, key@) <= entries@.len(),
            forall|j: int| 0 <= j < key_index(entries@, key@) ==> entries@[j].0@ != key@,
            key_index(entries@, key@) < entries@.len() ==> entries@[key_index(entries@, key@)].0@
                == key@,
        decreases entries.len() - i,
    {
        if crate::shared::same_text(entries[i].0.as_str(), key) {
            return i;
        }
        i = i + 1;
    }
    i
}

} // verus!
