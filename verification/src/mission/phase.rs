//! The six phases of a session.
//!
//! ```text
//! Hub ──(a player stands on a deployment pad)──► Deploying ──► Active ──┬─► Won ──┐
//!  ▲                                                                    └─► Lost ─┤
//!  └──────────────────────────── after the debrief ───────────────────────────────┘
//! ```
//!
//! `Briefing` is the phase of a run that has no session at all, and the initial one.

use vstd::prelude::*;

verus! {

/// Where the sortie stands. The one truth about the phase.
#[derive(Clone, Copy, PartialEq, Eq, Hash, Debug, Structural)]
pub enum MissionPhase {
    /// The template is picked, nothing is in the world yet. Also the phase of a run with no
    /// mission at all.
    Briefing,
    /// The mission, its clock and its counter come into being.
    Deploying,
    /// The clock runs, the waves come, kills count.
    Active,
    /// The objective is achieved.
    Won,
    /// The clock ran out, or every player is out of the fight.
    Lost,
    /// The main building: walk, refuel, and step on a pad to deploy.
    Hub,
}

/// The number a script compares against. Append only: a new phase takes the next free number.
pub open spec fn phase_code(p: MissionPhase) -> u8 {
    match p {
        MissionPhase::Briefing => 0,
        MissionPhase::Deploying => 1,
        MissionPhase::Active => 2,
        MissionPhase::Won => 3,
        MissionPhase::Lost => 4,
        MissionPhase::Hub => 5,
    }
}

/// The word on the screen.
pub open spec fn phase_label(p: MissionPhase) -> Seq<char> {
    match p {
        MissionPhase::Briefing => "BRIEFING"@,
        MissionPhase::Deploying => "DEPLOYING"@,
        MissionPhase::Active => "ACTIVE"@,
        MissionPhase::Won => "WON"@,
        MissionPhase::Lost => "LOST"@,
        MissionPhase::Hub => "HUB"@,
    }
}

/// A verdict has been spoken.
pub open spec fn decided(p: MissionPhase) -> bool {
    p is Won || p is Lost
}

/// A sortie is running: the mission exists and its clock ticks.
pub open spec fn running(p: MissionPhase) -> bool {
    p is Deploying || p is Active
}

impl MissionPhase {
    /// The number a script compares against — `assert phase == 4` is `Lost`.
    pub fn code(self) -> (c: u8)
        ensures
            c == phase_code(self),
    {
        match self {
            MissionPhase::Briefing => 0,
            MissionPhase::Deploying => 1,
            MissionPhase::Active => 2,
            MissionPhase::Won => 3,
            MissionPhase::Lost => 4,
            MissionPhase::Hub => 5,
        }
    }

    /// The word on the screen.
    pub fn label(self) -> (s: &'static str)
        ensures
            s@ == phase_label(self),
    {
        match self {
            MissionPhase::Briefing => "BRIEFING",
            MissionPhase::Deploying => "DEPLOYING",
            MissionPhase::Active => "ACTIVE",
            MissionPhase::Won => "WON",
            MissionPhase::Lost => "LOST",
            MissionPhase::Hub => "HUB",
        }
    }

    /// Whether a verdict has been spoken. Not terminal: a sortie out of the hub leaves it again.
    pub fn is_decided(self) -> (r: bool)
        ensures
            r == decided(self),
    {
        match self {
            MissionPhase::Won | MissionPhase::Lost => true,
            _ => false,
        }
    }

    /// Whether a sortie is running.
    pub fn is_running(self) -> (r: bool)
        ensures
            r == running(self),
    {
        match self {
            MissionPhase::Deploying | MissionPhase::Active => true,
            _ => false,
        }
    }
}

impl Default for MissionPhase {
    /// `Briefing`: a run that asked for nothing is in no mission.
    fn default() -> (p: MissionPhase)
        ensures
            p == MissionPhase::Briefing,
    {
        MissionPhase::Briefing
    }
}

/// Every phase has its own number: two phases sharing one would let a script's
/// `assert phase == n` pass on the opposite outcome.
pub proof fn law_codes_are_distinct(a: MissionPhase, b: MissionPhase)
    ensures
        phase_code(a) == phase_code(b) <==> a == b,
{
}

/// No phase is both a verdict and a running sortie, and the hub and the briefing are neither.
pub proof fn law_verdict_and_running_are_apart(p: MissionPhase)
    ensures
        !(decided(p) && running(p)),
        p is Hub ==> !decided(p) && !running(p),
        p is Briefing ==> !decided(p) && !running(p),
{
}

} // verus!
