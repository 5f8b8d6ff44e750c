//! The hit mark: the word a landed blade puts on screen. A miss is no word at all.

use vstd::prelude::*;

verus! {

/// The three things a landed blade can be.
#[derive(Clone, Copy, Debug, PartialEq, Eq, Structural)]
pub enum HitKind {
    /// The cortex — the titan is dead. The only zone that kills, at any speed.
    Kill,
    /// A body hit at or above the strong-hit speed.
    Cut,
    /// A body hit below it.
    Graze,
}

pub open spec fn hit_word(k: HitKind) -> Seq<char> {
    match k {
        HitKind::Kill => "KILL"@,
        HitKind::Cut => "CUT"@,
        HitKind::Graze => "GRAZE"@,
    }
}

pub open spec fn hit_signal(k: HitKind) -> Seq<char> {
    match k {
        HitKind::Kill => "amber"@,
        HitKind::Cut | HitKind::Graze => "crimson"@,
    }
}

impl HitKind {
    /// The word. Short, because it is read out of the corner of an eye mid-swing.
    pub fn word(self) -> (s: &'static str)
        ensures
            s@ == hit_word(self),
    {
        match self {
            HitKind::Kill => "KILL",
            HitKind::Cut => "CUT",
            HitKind::Graze => "GRAZE",
        }
    }

    /// Which signal colour, by name: amber is the cortex, crimson is damage.
    pub fn signal_name(self) -> (s: &'static str)
        ensures
            s@ == hit_signal(self),
    {
        match self {
            HitKind::Kill => "amber",
            HitKind::Cut | HitKind::Graze => "crimson",
        }
    }
}

/// Every hit kind has its own word, and the kill its own colour.
pub proof fn law_hit_words_are_distinct(a: HitKind, b: HitKind)
    ensures
        a != b ==> hit_word(a) != hit_word(b),
        b != HitKind::Kill ==> hit_signal(HitKind::Kill) != hit_signal(b),
{
    reveal_strlit("KILL");
    reveal_strlit("CUT");
    reveal_strlit("GRAZE");
    reveal_strlit("amber");
    reveal_strlit("crimson");
    if a != b {
        assert(hit_word(a).len() != hit_word(b).len() || hit_word(a)[0] != hit_word(b)[0]);
    }
    if b != HitKind::Kill {
        assert(hit_signal(HitKind::Kill)[0] != hit_signal(b)[0]);
    }
}

} // verus!
