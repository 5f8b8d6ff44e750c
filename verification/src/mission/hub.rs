//! The hub loop: the pads that start a sortie, the stations that refuel, and the way back after
//! the debrief.

use vstd::prelude::*;
use vstd::string::StringExecFns;
use crate::data::{find_key, has_key, key_index, missions_in_key_order, MissionTemplate};
use super::run::{saturating_sum, MissionClock};

verus! {

/// A door out of the hub: stand in this circle and this sortie starts.
#[derive(Debug, PartialEq, Eq)]
pub struct DeploymentPoint {
    /// Key in the file's templates.
    pub mission: String,
    /// Key in that template's levels.
    pub difficulty: String,
    pub radius_m_bits: u32,
}

/// Where gas comes back — the only thing that ever refills a tank.
#[derive(Clone, Copy, Debug, PartialEq, Eq, Structural)]
pub struct RefuelStation {
    pub radius_m_bits: u32,
    pub gas_per_s_bits: u32,
}

/// On the mission: this sortie was deployed from the hub, so it goes back there.
#[derive(Clone, Copy, Debug, Default, PartialEq, Eq, Structural)]
pub struct ReturnToHub;

/// One order: which template, which level, and whether there is a hub to go back to.
#[derive(Debug, PartialEq, Eq)]
pub struct SortieOrder {
    pub template: String,
    /// `None` is the direct drop-in: the template's own numbers.
    pub difficulty: Option<String>,
    pub from_hub: bool,
}

/// What the next deployment will fly. One sortie for the whole session.
#[derive(Debug, Default, PartialEq, Eq)]
pub struct Sortie(pub Option<SortieOrder>);

/// Whether the file knows the template `mission` and, inside it, the level `difficulty`.
pub open spec fn pad_known(missions: Seq<(String, MissionTemplate)>, mission: Seq<char>, difficulty: Seq<
    char,
>) -> bool {
    &&& has_key(missions, mission)
    &&& has_key(missions[key_index(missions, mission)].1.difficulties@, difficulty)
}

/// What standing on a pad orders: that pad's template at that pad's level, out of the hub —
/// or nothing, when the file does not know the pair, so the player keeps standing in the hub
/// instead of walking into a phase that has no numbers.
pub fn pad_order(missions: &Vec<(String, MissionTemplate)>, pad: &DeploymentPoint) -> (r: Option<
    SortieOrder,
>)
    requires
        missions_in_key_order(missions@),
    ensures
        r is Some == pad_known(missions@, pad.mission@, pad.difficulty@),
        r matches Some(o) ==> {
            &&& o.template@ == pad.mission@
            &&& o.from_hub
            &&& o.difficulty matches Some(d) && d@ == pad.difficulty@
        },
{
    let at = find_key(missions, pad.mission.as_str());
    if at >= missions.len() {
        return None;
    }
    let level = find_key(&missions[at].1.difficulties, pad.difficulty.as_str());
    if level >= missions[at].1.difficulties.len() {
        return None;
    }
    Some(
        SortieOrder {
            template: String::from_str(pad.mission.as_str()),
            difficulty: Some(String::from_str(pad.difficulty.as_str())),
            from_hub: true,
        },
    )
}

/// The way back: a sortie that came out of the hub returns to it `debrief_ticks` after its
/// verdict.
pub fn debrief_over(clock: &MissionClock, tick: u64, debrief_ticks: u64) -> (r: bool)
    ensures
        r == (clock.decided_at_tick matches Some(d) && tick >= saturating_sum(d, debrief_ticks)),
{
    match clock.decided_at_tick {
        Some(decided) => tick >= decided.saturating_add(debrief_ticks),
        None => false,
    }
}

} // verus!
