//! **What decides a sortie** — the modes, the progress of each, and the one function that
//! judges them.
//!
//! ```text
//!   Cull      kill n titans           ─ the clock LOSES it
//!   Breach    hold the wall gate           ─ the clock WINS it   (inverted)
//!   Parcours  fly the rings, in order ─ the clock LOSES it
//!   Escort    walk the cart home      ─ the clock LOSES it
//! ```
//!
//! The clock does not mean the same thing in every mode, so the judgement is [`verdict`]: a
//! pure function of the mode and six facts.

use std::collections::BTreeSet;
use vstd::prelude::*;
use crate::data::{Objective, Ring};
use crate::shared::{lemma_integer_keys_are_ordered, lemma_number_set_len, Point, TitanId};
use super::phase::MissionPhase;

verus! {

/// The mode this sortie is flying, copied onto the mission at deploy.
#[derive(Debug, PartialEq, Eq)]
pub struct MissionGoal(pub Objective);

// ---------------------------------------------------------------------------
// Breach: how many titans have been through the wall gate
// ---------------------------------------------------------------------------

/// How many titans have been through the wall gate. A set and not a counter: a titan standing at
/// the wall gate is at it on every tick, and one titan is one breach, forever.
#[derive(Debug, PartialEq, Eq)]
pub struct GateWatch {
    /// Where the wall gate stands.
    pub gate: Point,
    /// How close a titan has to get to be through it (metres, as bits).
    pub reach_m_bits: u32,
    /// How many may be through before the sortie is lost.
    pub allowed: u32,
    through: BTreeSet<u32>,
}

impl GateWatch {
    /// The titans counted through, by number.
    pub closed spec fn breached(&self) -> Set<u32> {
        self.through@
    }

    pub closed spec fn limit(&self) -> u32 {
        self.allowed
    }

    pub closed spec fn gate_at(&self) -> Point {
        self.gate
    }

    pub closed spec fn reach_bits(&self) -> u32 {
        self.reach_m_bits
    }

    /// The watch's invariant: the count fits the number it is reported in.
    pub open spec fn wf(&self) -> bool {
        self.breached().finite() && self.breached().len() <= u32::MAX
    }

    pub fn new(gate: Point, reach_m_bits: u32, allowed: u32) -> (w: GateWatch)
        ensures
            w.wf(),
            w.gate_at() == gate,
            w.reach_bits() == reach_m_bits,
            w.limit() == allowed,
            w.breached() == Set::<u32>::empty(),
    {
        GateWatch { gate, reach_m_bits, allowed, through: BTreeSet::new() }
    }

    /// Books one titan as through. `false`, and nothing changes, when he was already counted.
    pub fn note(&mut self, titan: TitanId) -> (fresh: bool)
        requires
            old(self).wf(),
            old(self).breached().len() < u32::MAX,
        ensures
            final(self).wf(),
            fresh == !old(self).breached().contains(titan.0),
            final(self).breached() == old(self).breached().insert(titan.0),
            final(self).limit() == old(self).limit(),
            final(self).gate_at() == old(self).gate_at(),
            final(self).reach_bits() == old(self).reach_bits(),
    {
        proof {
            lemma_integer_keys_are_ordered();
        }
        self.through.insert(titan.0)
    }

    /// How many distinct titans have reached it.
    pub fn count(&self) -> (n: u32)
        requires
            self.wf(),
        ensures
            n == self.breached().len(),
    {
        proof {
            lemma_number_set_len(&self.through);
        }
        self.through.len() as u32
    }

    /// Whether the wall gate has fallen: **more** than `allowed` titans are through.
    pub fn fallen(&self) -> (r: bool)
        requires
            self.wf(),
        ensures
            r == (self.breached().len() > self.limit()),
    {
        self.count() > self.allowed
    }
}

/// One titan at the wall gate is one breach however long he stands there: noting him again
/// changes nothing, and a first note counts exactly one more.
pub proof fn law_one_titan_is_one_breach(through: Set<u32>, titan: u32)
    requires
        through.finite(),
    ensures
        through.insert(titan).insert(titan) == through.insert(titan),
        through.insert(titan).len() == through.len() + (if through.contains(titan) {
            0int
        } else {
            1int
        }),
{
    assert(through.insert(titan).insert(titan) =~= through.insert(titan));
    if through.contains(titan) {
        assert(through.insert(titan) =~= through);
    }
}

// ---------------------------------------------------------------------------
// Parcours: how far through the rings the squad is
// ---------------------------------------------------------------------------

/// One ring of a parcours, where it is and how wide.
#[derive(Clone, Copy, Debug, PartialEq, Eq, Structural)]
pub struct CourseGate {
    pub at: Point,
    pub radius_m_bits: u32,
}

/// How far through the parcours the squad is. An index and not a set: the rings have to be
/// flown in the order the file lists them.
#[derive(Debug, PartialEq, Eq)]
pub struct Course {
    pub gates: Vec<CourseGate>,
    passed: usize,
}

impl Course {
    /// The rings, in the order they have to be flown.
    pub closed spec fn rings(&self) -> Seq<CourseGate> {
        self.gates@
    }

    /// How many rings have been flown.
    pub closed spec fn flown(&self) -> nat {
        self.passed as nat
    }

    /// The course's invariant: never more rings flown than there are.
    pub open spec fn wf(&self) -> bool {
        self.flown() <= self.rings().len()
    }

    /// The rings of the file, in file order, none flown.
    pub fn new(rings: &[Ring]) -> (c: Course)
        ensures
            c.wf(),
            c.flown() == 0,
            c.rings().len() == rings@.len(),
            forall|i: int|
                0 <= i < rings@.len() ==> c.rings()[i] == (CourseGate {
                    at: rings@[i].center_m,
                    radius_m_bits: rings@[i].radius_m_bits,
                }),
    {
        let mut gates: Vec<CourseGate> = Vec::new();
        let mut i: usize = 0;
        while i < rings.len()
            invariant
                0 <= i <= rings@.len(),
                gates@.len() == i,
                forall|k: int|
                    0 <= k < i ==> gates@[k] == (CourseGate {
                        at: rings@[k].center_m,
                        radius_m_bits: rings@[k].radius_m_bits,
                    }),
            decreases rings.len() - i,
        {
            gates.push(CourseGate { at: rings[i].center_m, radius_m_bits: rings[i].radius_m_bits });
            i = i + 1;
        }
        Course { gates, passed: 0 }
    }

    /// The ring that has to be flown next, with its index, or `None` when the course is done.
    pub fn next_gate(&self) -> (r: Option<(usize, CourseGate)>)
        requires
            self.wf(),
        ensures
            self.flown() < self.rings().len() ==> r == Some(
                (self.flown() as usize, self.rings()[self.flown() as int]),
            ),
            self.flown() >= self.rings().len() ==> r is None,
    {
        if self.passed < self.gates.len() {
            Some((self.passed, self.gates[self.passed]))
        } else {
            None
        }
    }

    /// Books the next ring as flown and returns its index; `None`, and nothing changes, when
    /// there is no ring left.
    pub fn pass(&mut self) -> (r: Option<usize>)
        requires
            old(self).wf(),
        ensures
            final(self).wf(),
            final(self).rings() == old(self).rings(),
            old(self).flown() < old(self).rings().len() ==> r == Some(old(self).flown() as usize)
                && final(self).flown() == old(self).flown() + 1,
            old(self).flown() >= old(self).rings().len() ==> r is None && final(self).flown()
                == old(self).flown(),
    {
        let index = self.passed;
        if index >= self.gates.len() {
            return None;
        }
        self.passed = self.passed + 1;
        Some(index)
    }

    /// How many rings have been flown.
    pub fn passed(&self) -> (n: usize)
        ensures
            n == self.flown(),
    {
        self.passed
    }

    /// Whether every ring has been flown. An empty course is never done.
    pub fn done(&self) -> (r: bool)
        ensures
            r == (self.rings().len() > 0 && self.flown() >= self.rings().len()),
    {
        !self.gates.is_empty() && self.passed >= self.gates.len()
    }
}

// ---------------------------------------------------------------------------
// Escort: where the cart is on its path
// ---------------------------------------------------------------------------

/// Where the cart is, as `(leg, along)`: the waypoint it walks away from and how far along
/// that leg it is. The point itself is derived from these, never stored.
#[derive(Debug, PartialEq, Eq)]
pub struct Haul {
    pub waypoints: Vec<Point>,
    pub speed_m_s_bits: u32,
    pub escort_radius_m_bits: u32,
    leg: usize,
    along_m_bits: u32,
}

impl Haul {
    /// The path, waypoint by waypoint.
    pub closed spec fn path(&self) -> Seq<Point> {
        self.waypoints@
    }

    pub closed spec fn speed_bits(&self) -> u32 {
        self.speed_m_s_bits
    }

    pub closed spec fn escort_bits(&self) -> u32 {
        self.escort_radius_m_bits
    }

    /// The waypoint the cart walks away from.
    pub closed spec fn on_leg(&self) -> nat {
        self.leg as nat
    }

    /// How far along that leg it is (metres, as bits).
    pub closed spec fn along_bits(&self) -> u32 {
        self.along_m_bits
    }

    /// A cart standing on its first waypoint.
    pub fn new(waypoints: &[Point], speed_m_s_bits: u32, escort_radius_m_bits: u32) -> (h: Haul)
        ensures
            h.path() == waypoints@,
            h.speed_bits() == speed_m_s_bits,
            h.escort_bits() == escort_radius_m_bits,
            h.on_leg() == 0,
            h.along_bits() == 0,
    {
        let mut points: Vec<Point> = Vec::new();
        let mut i: usize = 0;
        while i < waypoints.len()
            invariant
                0 <= i <= waypoints@.len(),
                points@ == waypoints@.take(i as int),
            decreases waypoints.len() - i,
        {
            points.push(waypoints[i]);
            assert(waypoints@.take(i + 1) =~= waypoints@.take(i as int).push(waypoints@[i as int]));
            i = i + 1;
        }
        assert(waypoints@.take(waypoints@.len() as int) =~= waypoints@);
        Haul { waypoints: points, speed_m_s_bits, escort_radius_m_bits, leg: 0, along_m_bits: 0 }
    }

    /// The waypoint the cart walks away from.
    pub fn leg(&self) -> (n: usize)
        ensures
            n == self.on_leg(),
    {
        self.leg
    }

    /// How far along the current leg the cart is (metres, as bits).
    pub fn along_m_bits(&self) -> (b: u32)
        ensures
            b == self.along_bits(),
    {
        self.along_m_bits
    }

    /// Moves the cart to `along_m_bits` along leg `leg`. The cart only ever moves forward
    /// along its path: a leg before the current one is refused.
    pub fn move_to(&mut self, leg: usize, along_m_bits: u32)
        requires
            leg >= old(self).on_leg(),
        ensures
            final(self).on_leg() == leg,
            final(self).along_bits() == along_m_bits,
            final(self).path() == old(self).path(),
            final(self).speed_bits() == old(self).speed_bits(),
            final(self).escort_bits() == old(self).escort_bits(),
    {
        self.leg = leg;
        self.along_m_bits = along_m_bits;
    }

    /// Whether it is home: on the last waypoint. A path with fewer than two waypoints is never
    /// home.
    pub fn arrived(&self) -> (r: bool)
        ensures
            r == (self.path().len() >= 2 && self.on_leg() + 1 >= self.path().len()),
    {
        self.waypoints.len() >= 2 && self.leg >= self.waypoints.len() - 1
    }
}

// ---------------------------------------------------------------------------
// The judgement
// ---------------------------------------------------------------------------

/// What the sortie has achieved, in the one shape [`verdict`] needs.
#[derive(Clone, Copy, Debug, Default, PartialEq, Eq, Structural)]
pub struct Achieved {
    /// The kill target is reached.
    pub kills_reached: bool,
    /// More titans got through the wall gate than the file allows.
    pub gate_fallen: bool,
    /// Every ring is flown.
    pub course_done: bool,
    /// The cart is on its last waypoint.
    pub cart_home: bool,
    /// The deadline tick has come.
    pub expired: bool,
    /// Every player is out of the fight.
    pub everybody_down: bool,
}

/// The mode's own achievement, for the three modes that are won by one.
pub open spec fn own_win(goal: Objective, a: Achieved) -> bool {
    match goal {
        Objective::Cull => a.kills_reached,
        Objective::Breach { .. } => false,
        Objective::Parcours { .. } => a.course_done,
        Objective::Escort { .. } => a.cart_home,
    }
}

/// The verdict. `None` is "nothing decided yet". The win is checked before the loss in every
/// mode except the breach, where letting them through is the loss and surviving to the
/// deadline is the win.
pub open spec fn judged(goal: Objective, a: Achieved) -> Option<MissionPhase> {
    match goal {
        Objective::Breach { .. } => if a.gate_fallen || a.everybody_down {
            Some(MissionPhase::Lost)
        } else if a.expired {
            Some(MissionPhase::Won)
        } else {
            None
        },
        _ => if own_win(goal, a) {
            Some(MissionPhase::Won)
        } else if a.expired || a.everybody_down {
            Some(MissionPhase::Lost)
        } else {
            None
        },
    }
}

/// The verdict, and the one place that knows what the clock means.
pub fn verdict(goal: &Objective, a: Achieved) -> (r: Option<MissionPhase>)
    ensures
        r == judged(*goal, a),
{
    match goal {
        Objective::Cull => {
            if a.kills_reached {
                Some(MissionPhase::Won)
            } else if a.expired || a.everybody_down {
                Some(MissionPhase::Lost)
            } else {
                None
            }
        },
        Objective::Breach { .. } => {
            if a.gate_fallen || a.everybody_down {
                Some(MissionPhase::Lost)
            } else if a.expired {
                Some(MissionPhase::Won)
            } else {
                None
            }
        },
        Objective::Parcours { .. } => {
            if a.course_done {
                Some(MissionPhase::Won)
            } else if a.expired || a.everybody_down {
                Some(MissionPhase::Lost)
            } else {
                None
            }
        },
        Objective::Escort { .. } => {
            if a.cart_home {
                Some(MissionPhase::Won)
            } else if a.expired || a.everybody_down {
                Some(MissionPhase::Lost)
            } else {
                None
            }
        },
    }
}

/// The laws of the judgement:
/// - the clock loses every mode but the breach, and wins the breach;
/// - a gate that fell is lost, also on the deadline tick;
/// - nothing is decided while nothing has happened;
/// - every mode is lost when every player is down, unless its own achievement is in;
/// - each mode is won by its own achievement and by nobody else's — and the breach only by the
///   clock.
pub proof fn law_judgement(goal: Objective, a: Achieved)
    ensures
        a == (Achieved { expired: true, ..Achieved::default_facts() }) ==> judged(goal, a) == (
        if goal is Breach {
            Some(MissionPhase::Won)
        } else {
            Some(MissionPhase::Lost)
        }),
        goal is Breach && a.gate_fallen ==> judged(goal, a) == Some(MissionPhase::Lost),
        a == Achieved::default_facts() ==> judged(goal, a) is None,
        a.everybody_down && !own_win(goal, a) ==> judged(goal, a) == Some(MissionPhase::Lost),
        !(goal is Breach) ==> (judged(goal, a) == Some(MissionPhase::Won) <==> own_win(goal, a)),
        goal is Breach ==> (judged(goal, a) == Some(MissionPhase::Won) <==> a.expired
            && !a.gate_fallen && !a.everybody_down),
{
}

impl Achieved {
    /// Nothing has happened.
    pub open spec fn default_facts() -> Achieved {
        Achieved {
            kills_reached: false,
            gate_fallen: false,
            course_done: false,
            cart_home: false,
            expired: false,
            everybody_down: false,
        }
    }
}

// ---------------------------------------------------------------------------
// The progress each mode needs
// ---------------------------------------------------------------------------

/// What [`progress_of`] hands back: exactly one mode's progress.
#[derive(Debug, PartialEq, Eq)]
pub enum ObjectiveProgress {
    Cull,
    Breach(GateWatch),
    Parcours(Course),
    Escort(Haul),
}

/// The progress component a mode needs, fresh, ready to go on the mission.
pub fn progress_of(goal: &Objective) -> (p: ObjectiveProgress)
    ensures
        match *goal {
            Objective::Cull => p is Cull,
            Objective::Breach { gate_m, reach_m_bits, breaches_allowed } => p matches ObjectiveProgress::Breach(w) && {
                &&& w.wf()
                &&& w.gate_at() == gate_m
                &&& w.reach_bits() == reach_m_bits
                &&& w.limit() == breaches_allowed
                &&& w.breached() == Set::<u32>::empty()
            },
            Objective::Parcours { rings } => p matches ObjectiveProgress::Parcours(c) && {
                &&& c.wf()
                &&& c.flown() == 0
                &&& c.rings().len() == rings@.len()
                &&& forall|i: int|
                    0 <= i < rings@.len() ==> c.rings()[i] == (CourseGate {
                        at: rings@[i].center_m,
                        radius_m_bits: rings@[i].radius_m_bits,
                    })
            },
            Objective::Escort { waypoints, speed_m_s_bits, escort_radius_m_bits, .. } => p matches ObjectiveProgress::Escort(h) && {
                &&& h.path() == waypoints@
                &&& h.speed_bits() == speed_m_s_bits
                &&& h.escort_bits() == escort_radius_m_bits
                &&& h.on_leg() == 0
                &&& h.along_bits() == 0
            },
        },
{
    match goal {
        Objective::Cull => ObjectiveProgress::Cull,
        Objective::Breach { gate_m, reach_m_bits, breaches_allowed } => ObjectiveProgress::Breach(
            GateWatch::new(*gate_m, *reach_m_bits, *breaches_allowed),
        ),
        Objective::Parcours { rings } => ObjectiveProgress::Parcours(Course::new(rings.as_slice())),
        Objective::Escort { waypoints, speed_m_s_bits, escort_radius_m_bits, .. } => {
            ObjectiveProgress::Escort(
                Haul::new(waypoints.as_slice(), *speed_m_s_bits, *escort_radius_m_bits),
            )
        },
    }
}

} // verus!
