//! The small plain types every domain passes around: who a player is, which titan, and what
//! one player wants for one tick.

use vstd::prelude::*;
use vstd::string::{StrSliceExecFns, StringExecFns};

verus! {

/// Who a player is. The identity that outlives a connection and a body.
#[derive(Clone, Copy, Debug, PartialEq, Eq, Structural, Hash, PartialOrd, Ord)]
pub struct PlayerId(pub u32);

/// Which titan. Kept for as long as the body exists, dissolving included.
#[derive(Clone, Copy, Debug, PartialEq, Eq, Structural, Hash, PartialOrd, Ord)]
pub struct TitanId(pub u32);

/// The pressed buttons of one tick, one bit each.
#[derive(Clone, Copy, Debug, PartialEq, Eq, Structural, Default)]
pub struct Buttons(pub u32);

impl Buttons {
    pub const JUMP: u32 = 0x0000_0001;
    pub const BOOST: u32 = 0x0000_0002;
    pub const REEL_IN: u32 = 0x0000_0004;
    pub const DODGE: u32 = 0x0000_0008;
    pub const MARK: u32 = 0x0000_0010;
    pub const HOOK_LEFT: u32 = 0x0000_0020;
    pub const HOOK_RIGHT: u32 = 0x0000_0040;
    pub const SLASH_LEFT: u32 = 0x0000_0080;
    pub const SLASH_RIGHT: u32 = 0x0000_0100;
    pub const FLIP: u32 = 0x0000_0200;

    /// Nothing pressed.
    pub fn none() -> (b: Buttons)
        ensures
            b.0 == 0,
    {
        Buttons(0)
    }

    /// Presses or releases every bit of `mask`, leaving the others as they were.
    pub fn set(&mut self, mask: u32, on: bool)
        ensures
            final(self).0 == (if on { old(self).0 | mask } else { old(self).0 & !mask }),
    {
        if on {
            self.0 = self.0 | mask;
        } else {
            self.0 = self.0 & !mask;
        }
    }

    /// Whether every bit of `mask` is pressed.
    pub fn contains(&self, mask: u32) -> (r: bool)
        ensures
            r == (self.0 & mask == mask),
    {
        self.0 & mask == mask
    }
}

/// Hands out player numbers, each one once.
#[derive(Debug, Default, PartialEq, Eq)]
pub struct IdCounter {
    /// The number the next player gets.
    pub next: u32,
}

impl IdCounter {
    /// The next free player number.
    pub fn next_player(&mut self) -> (id: PlayerId)
        requires
            old(self).next < u32::MAX,
        ensures
            id.0 == old(self).next,
            final(self).next == old(self).next + 1,
    {
        let id = PlayerId(self.next);
        self.next = self.next + 1;
        id
    }
}

/// A point in the world, metres, each coordinate an IEEE-754 single-precision value held by its
/// bit pattern (`f32::to_bits`). Carried and compared, never computed with, by this library.
#[derive(Clone, Copy, Debug, PartialEq, Eq, Structural, Default)]
pub struct Point {
    pub x_bits: u32,
    pub y_bits: u32,
    pub z_bits: u32,
}

/// One player's wish for one tick.
///
/// The four axes are IEEE-754 single-precision values held by their bit patterns
/// (`f32::to_bits`): the simulation reads them as numbers, this library only carries, orders
/// and compares them, and a bit pattern is exactly what travels.
#[derive(Clone, Copy, Debug, PartialEq, Eq, Structural, Default)]
pub struct Intent {
    pub move_x_bits: u32,
    pub move_y_bits: u32,
    pub yaw_bits: u32,
    pub pitch_bits: u32,
    pub buttons: Buttons,
    pub tick: u64,
}

/// An ordered set of numbers reports as its length the size of the set it holds.
pub proof fn lemma_number_set_len(s: &std::collections::BTreeSet<u32>)
    ensures
        vstd::std_specs::btree::spec_btree_set_len(s) == s@.len(),
{
    lemma_integer_keys_are_ordered();
    broadcast use vstd::std_specs::btree::axiom_spec_btree_set_len;
    broadcast use vstd::std_specs::btree::axiom_key_obeys_cmp_spec_meaning;
}

/// The digit character for `d` (`0 <= d < 10`).
pub open spec fn digit_char(d: nat) -> char {
    if d == 0 { '0' } else if d == 1 { '1' } else if d == 2 { '2' } else if d == 3 { '3' }
    else if d == 4 { '4' } else if d == 5 { '5' } else if d == 6 { '6' } else if d == 7 { '7' }
    else if d == 8 { '8' } else { '9' }
}

/// `n` written out in decimal, no leading zeros.
pub open spec fn decimal(n: nat) -> Seq<char>
    decreases n,
{
    if n < 10 {
        seq![digit_char(n)]
    } else {
        decimal(n / 10).push(digit_char(n % 10))
    }
}

fn digit_text(d: u64) -> (s: &'static str)
    requires
        d < 10,
    ensures
        s@ == seq![digit_char(d as nat)],
{
    if d == 0 {
        proof { reveal_strlit("0"); }
        "0"
    } else if d == 1 {
        proof { reveal_strlit("1"); }
        "1"
    } else if d == 2 {
        proof { reveal_strlit("2"); }
        "2"
    } else if d == 3 {
        proof { reveal_strlit("3"); }
        "3"
    } else if d == 4 {
        proof { reveal_strlit("4"); }
        "4"
    } else if d == 5 {
        proof { reveal_strlit("5"); }
        "5"
    } else if d == 6 {
        proof { reveal_strlit("6"); }
        "6"
    } else if d == 7 {
        proof { reveal_strlit("7"); }
        "7"
    } else if d == 8 {
        proof { reveal_strlit("8"); }
        "8"
    } else {
        proof { reveal_strlit("9"); }
        "9"
    }
}

/// `n` as decimal text.
pub fn decimal_text(n: u64) -> (s: String)
    ensures
        s@ == decimal(n as nat),
    decreases n,
{
    if n < 10 {
        String::from_str(digit_text(n))
    } else {
        let mut s = decimal_text(n / 10);
        s.append(digit_text(n % 10));
        s
    }
}

/// Whether two texts are the same characters.
pub fn same_text(a: &str, b: &str) -> (r: bool)
    ensures
        r == (a@ == b@),
{
    let n = a.unicode_len();
    if n != b.unicode_len() {
        return false;
    }
    let mut i: usize = 0;
    while i < n
        invariant
            n == a@.len(),
            n == b@.len(),
            0 <= i <= n,
            forall|j: int| 0 <= j < i ==> a@[j] == b@[j],
        decreases n - i,
    {
        if a.get_char(i) != b.get_char(i) {
            return false;
        }
        i = i + 1;
    }
    assert(a@ =~= b@);
    true
}

/// Integer keys order the way integers do, so the ordered std collections keyed by them behave
/// as their specifications say.
pub proof fn lemma_integer_keys_are_ordered()
    ensures
        vstd::laws_cmp::obeys_cmp::<u32>(),
        vstd::laws_cmp::obeys_cmp::<u64>(),
{
    broadcast use vstd::laws_cmp::group_laws_cmp;
}

// ---------------------------------------------------------------------------
// Lists keyed by player, ascending by id
// ---------------------------------------------------------------------------

/// Ids strictly ascending: every player once, in id order.
pub open spec fn ids_ascending<V>(s: Seq<(PlayerId, V)>) -> bool {
    forall|i: int, j: int| 0 <= i < j < s.len() ==> s[i].0.0 < s[j].0.0
}

/// How many entries have an id below `id` — in an ascending list, where `id` stands or would
/// be put.
pub open spec fn id_rank<V>(s: Seq<(PlayerId, V)>, id: u32) -> nat
    decreases s.len(),
{
    if s.len() == 0 {
        0
    } else {
        id_rank(s.drop_last(), id) + (if s.last().0.0 < id {
            1nat
        } else {
            0nat
        })
    }
}

/// Whether `id` has an entry.
pub open spec fn id_listed<V>(s: Seq<(PlayerId, V)>, id: u32) -> bool {
    id_rank(s, id) < s.len() && s[id_rank(s, id) as int].0.0 == id
}

pub proof fn lemma_id_rank_splits<V>(s: Seq<(PlayerId, V)>, id: u32)
    requires
        ids_ascending(s),
    ensures
        id_rank(s, id) <= s.len(),
        forall|i: int| 0 <= i < id_rank(s, id) ==> s[i].0.0 < id,
        forall|i: int| id_rank(s, id) <= i < s.len() ==> s[i].0.0 >= id,
    decreases s.len(),
{
    if s.len() > 0 {
        let p = s.drop_last();
        assert(ids_ascending(p));
        lemma_id_rank_splits(p, id);
        if s.last().0.0 < id {
            assert forall|i: int| 0 <= i < id_rank(s, id) implies s[i].0.0 < id by {
                if i < s.len() - 1 {
                    assert(s[i].0.0 < s[s.len() - 1].0.0);
                }
            }
        } else {
            assert forall|i: int| id_rank(s, id) <= i < s.len() implies s[i].0.0 >= id by {
                if i < s.len() - 1 {
                    assert(s[i] == p[i]);
                }
            }
            assert forall|i: int| 0 <= i < id_rank(s, id) implies s[i].0.0 < id by {
                assert(s[i] == p[i]);
            }
        }
    }
}

pub proof fn lemma_id_rank_is<V>(s: Seq<(PlayerId, V)>, id: u32, k: int)
    requires
        ids_ascending(s),
        0 <= k <= s.len(),
        forall|i: int| 0 <= i < k ==> s[i].0.0 < id,
        k == s.len() || s[k].0.0 >= id,
    ensures
        id_rank(s, id) == k,
{
    lemma_id_rank_splits(s, id);
    if id_rank(s, id) < k {
        assert(s[id_rank(s, id) as int].0.0 < id);
    }
    if id_rank(s, id) > k {
        assert(s[k].0.0 < id);
    }
}

/// Inserting at the rank of an id that is not listed keeps the list ascending.
pub proof fn lemma_insert_at_rank_ascends<V>(s: Seq<(PlayerId, V)>, e: (PlayerId, V))
    requires
        ids_ascending(s),
        !id_listed(s, e.0.0),
    ensures
        ids_ascending(s.insert(id_rank(s, e.0.0) as int, e)),
{
    lemma_id_rank_splits(s, e.0.0);
    let at = id_rank(s, e.0.0) as int;
    let t = s.insert(at, e);
    assert forall|i: int, j: int| 0 <= i < j < t.len() implies t[i].0.0 < t[j].0.0 by {
        if j < at {
        } else if i > at {
            assert(t[i] == s[i - 1]);
            assert(t[j] == s[j - 1]);
        } else if i == at {
            assert(t[j] == s[j - 1]);
        } else if j == at {
        } else {
            assert(t[j] == s[j - 1]);
        }
    }
}

/// Where `id` stands in an ascending list, or where it would be put.
pub fn find_id<V>(s: &Vec<(PlayerId, V)>, id: PlayerId) -> (at: usize)
    requires
        ids_ascending(s@),
    ensures
        at == id_rank(s@, id.0),
{
    let mut i: usize = 0;
    while i < s.len() && s[i].0.0 < id.0
        invariant
            ids_ascending(s@),
            0 <= i <= s.len(),
            forall|j: int| 0 <= j < i ==> s@[j].0.0 < id.0,
        decreases s.len() - i,
    {
        i = i + 1;
    }
    proof {
        lemma_id_rank_is(s@, id.0, i as int);
    }
    i
}

} // verus!
