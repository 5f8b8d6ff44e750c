//! The career as the mission board reads it: the rank reached and the rungs won, and whether a
//! rank may fly a rung the ladder gates.

use vstd::prelude::*;
use crate::data::{find_key, key_index, lemma_key_index, Progress};
use crate::shared::same_text;

verus! {

/// Where a career stands on the ladder.
#[derive(Debug, Default, PartialEq, Eq)]
pub struct Career {
    /// The rank reached, one of the ladder's.
    pub rank: String,
    /// The rungs won at least once, by rung key.
    pub cleared: Vec<String>,
}

/// The position of the first text equal to `t`, or the length when there is none.
pub open spec fn text_index(s: Seq<String>, t: Seq<char>) -> int
    decreases s.len(),
{
    if s.len() == 0 {
        0
    } else if s[0]@ == t {
        0
    } else {
        1 + text_index(s.drop_first(), t)
    }
}

proof fn lemma_text_index(s: Seq<String>, t: Seq<char>)
    ensures
        0 <= text_index(s, t) <= s.len(),
        forall|i: int| 0 <= i < text_index(s, t) ==> s[i]@ != t,
        text_index(s, t) < s.len() ==> s[text_index(s, t)]@ == t,
    decreases s.len(),
{
    if s.len() > 0 && s[0]@ != t {
        lemma_text_index(s.drop_first(), t);
        assert forall|i: int| 0 <= i < text_index(s, t) implies s[i]@ != t by {
            if i > 0 {
                assert(s[i] == s.drop_first()[i - 1]);
            }
        }
    }
}

/// Where `t` stands in `v`, or `v.len()` when it does not.
pub fn find_text(v: &Vec<String>, t: &str) -> (at: usize)
    ensures
        at == text_index(v@, t@),
{
    proof {
        lemma_text_index(v@, t@);
    }
    let mut i: usize = 0;
    while i < v.len()
        invariant
            0 <= i <= v.len(),
            forall|j: int| 0 <= j < i ==> v@[j]@ != t@,
            0 <= text_index(v@, t@) <= v@.len(),
            forall|j: int| 0 <= j < text_index(v@, t@) ==> v@[j]@ != t@,
            text_index(v@, t@) < v@.len() ==> v@[text_index(v@, t@)]@ == t@,
        decreases v.len() - i,
    {
        if same_text(v[i].as_str(), t) {
            proof {
                assert(v@[i as int]@ == t@);
            }
            return i;
        }
        i = i + 1;
    }
    i
}

/// Whether a career at `rank` may fly the rung `key`: a rung without a gate is open to every
/// rank; a gated rung is open to the rank that gate names and every rank above it on the ladder, and to
/// nobody when either rank is not on the ladder.
pub open spec fn may_fly_spec(ranks: Seq<String>, gates: Seq<(String, String)>, rank: Seq<char>, key: Seq<char>) -> bool {
    let g = key_index(gates, key);
    if g >= gates.len() {
        true
    } else {
        let wanted = text_index(ranks, gates[g].1@);
        let have = text_index(ranks, rank);
        have < ranks.len() && wanted < ranks.len() && have >= wanted
    }
}

/// Whether a career at `rank` may fly the rung `key` (see [`may_fly_spec`]).
pub fn may_fly(progress: &Progress, rank: &str, key: &str) -> (r: bool)
    ensures
        r == may_fly_spec(progress.ranks@, progress.gates@, rank@, key@),
{
    let g = find_key(&progress.gates, key);
    if g >= progress.gates.len() {
        return true;
    }
    let wanted = find_text(&progress.ranks, progress.gates[g].1.as_str());
    let have = find_text(&progress.ranks, rank);
    have < progress.ranks.len() && wanted < progress.ranks.len() && have >= wanted
}

/// Whether the career has won the rung `key`.
pub fn has_cleared(career: &Career, key: &str) -> (r: bool)
    ensures
        r == (text_index(career.cleared@, key@) < career.cleared@.len()),
{
    find_text(&career.cleared, key) < career.cleared.len()
}

/// The rank a gated rung wants, if it is gated.
pub fn gate_of<'a>(progress: &'a Progress, key: &str) -> (r: Option<&'a String>)
    ensures
        ({
            let g = key_index(progress.gates@, key@);
            &&& r is Some == (g < progress.gates@.len())
            &&& r matches Some(rank) ==> rank@ == progress.gates@[g].1@
        }),
{
    proof {
        lemma_key_index(progress.gates@, key@);
    }
    let g = find_key(&progress.gates, key);
    if g < progress.gates.len() {
        Some(&progress.gates[g].1)
    } else {
        None
    }
}

} // verus!
