//! mission — the sortie: its phases, its clock, its counter, its waves and the judgement, and
//! the decisions that move a session from one phase to the next.

pub mod phase;
pub mod run;
pub mod objective;
pub mod hub;

use vstd::prelude::*;
use vstd::string::StringExecFns;
use crate::data::{find_key, has_key, key_index, missions_in_key_order, MissionTemplate};
use hub::{Sortie, SortieOrder};
use phase::{decided, running, MissionPhase};
use run::{resolve, saturating_sum, KillTally, Mission, MissionClock, SortieNumbers};

verus! {

/// Whether the file knows `template` and, when a level is named, that level inside it.
pub open spec fn order_known(
    missions: Seq<(String, MissionTemplate)>,
    template: Seq<char>,
    difficulty: Option<Seq<char>>,
) -> bool {
    &&& has_key(missions, template)
    &&& match difficulty {
        None => true,
        Some(d) => has_key(missions[key_index(missions, template)].1.difficulties@, d),
    }
}

/// Whether the file knows this order.
pub fn is_known(missions: &Vec<(String, MissionTemplate)>, template: &str, difficulty: Option<&str>) -> (r:
    bool)
    requires
        missions_in_key_order(missions@),
    ensures
        r == order_known(
            missions@,
            template@,
            match difficulty {
                None => None,
                Some(d) => Some(d@),
            },
        ),
{
    let at = find_key(missions, template);
    if at >= missions.len() {
        return false;
    }
    match difficulty {
        None => true,
        Some(d) => find_key(&missions[at].1.difficulties, d) < missions[at].1.difficulties.len(),
    }
}

// ---------------------------------------------------------------------------
// How a run begins
// ---------------------------------------------------------------------------

/// What the command line makes of the session at startup.
#[derive(Debug, PartialEq, Eq)]
pub enum Opening {
    /// No `--mission` and no `--hub`: the game stays in `Briefing`.
    Nothing,
    /// `--hub`, which wins over `--mission`: the hub is where a mission is chosen.
    Hub,
    /// `--mission <name>` names a template the file does not know: nothing is started.
    Unknown,
    /// The direct drop-in: the template's own numbers, and no way back to a hub.
    Sortie(SortieOrder),
}

/// The opening a run's flags ask for.
pub fn opening(hub: bool, mission: Option<&str>, missions: &Vec<(String, MissionTemplate)>) -> (o:
    Opening)
    requires
        missions_in_key_order(missions@),
    ensures
        hub ==> o is Hub,
        !hub && mission is None ==> o is Nothing,
        !hub ==> (mission matches Some(name) ==> if has_key(missions@, name@) {
            o matches Opening::Sortie(order) && order.template@ == name@ && order.difficulty is None
                && !order.from_hub
        } else {
            o is Unknown
        }),
{
    if hub {
        return Opening::Hub;
    }
    match mission {
        None => Opening::Nothing,
        Some(name) => {
            if find_key(missions, name) >= missions.len() {
                Opening::Unknown
            } else {
                Opening::Sortie(
                    SortieOrder { template: String::from_str(name), difficulty: None, from_hub: false },
                )
            }
        },
    }
}

// ---------------------------------------------------------------------------
// What the menu asks for
// ---------------------------------------------------------------------------

/// A screen asks for a sortie: which template, at which level.
#[derive(Debug, PartialEq, Eq)]
pub struct DeployRequest {
    pub template: String,
    pub difficulty: Option<String>,
}

/// What the menu has asked for and has not been acted on yet.
#[derive(Debug, Default, PartialEq, Eq)]
pub struct PendingOrder {
    pub abandon: bool,
    pub deploy: Option<DeployRequest>,
}

/// What one frame does with the pending orders.
#[derive(Debug, PartialEq, Eq)]
pub enum OrderOutcome {
    /// Nothing this frame (nothing asked, the clock is stopped, or only an abandon with no
    /// sortie to end).
    Wait,
    /// A sortie is running or decided: it ends, back to the hub, no verdict. A pending deploy
    /// is kept and flown from the hub.
    ToHub,
    /// The file does not know what was asked for: no sortie is started and the order is
    /// dropped.
    Refused(DeployRequest),
    /// The order is flown, out of the hub's front door.
    Deploy(SortieOrder),
}

/// Whether the request names something the file knows.
pub open spec fn request_known(missions: Seq<(String, MissionTemplate)>, r: DeployRequest) -> bool {
    order_known(
        missions,
        r.template@,
        match r.difficulty {
            None => None,
            Some(d) => Some(d@),
        },
    )
}

/// One frame of the menu's orders. An abandon seen this frame is remembered; the last deploy
/// request seen replaces any earlier one; nothing happens while the clock is stopped; a running
/// or decided sortie is ended through the hub first.
pub fn take_orders(
    pending: &mut PendingOrder,
    abandon_seen: bool,
    latest: Option<DeployRequest>,
    paused: bool,
    phase: MissionPhase,
    missions: &Vec<(String, MissionTemplate)>,
) -> (out: OrderOutcome)
    requires
        missions_in_key_order(missions@),
    ensures
        ({
            let abandon = old(pending).abandon || abandon_seen;
            let deploy = if latest is Some {
                latest
            } else {
                old(pending).deploy
            };
            if (!abandon && deploy is None) || paused {
                &&& out is Wait
                &&& final(pending).abandon == abandon
                &&& final(pending).deploy == deploy
            } else if running(phase) || decided(phase) {
                &&& out is ToHub
                &&& !final(pending).abandon
                &&& final(pending).deploy == deploy
            } else {
                &&& !final(pending).abandon
                &&& final(pending).deploy is None
                &&& match deploy {
                    None => out is Wait,
                    Some(r) => if request_known(missions@, r) {
                        out matches OrderOutcome::Deploy(o) && o.template == r.template
                            && o.difficulty == r.difficulty && o.from_hub
                    } else {
                        out == OrderOutcome::Refused(r)
                    },
                }
            }
        }),
{
    if abandon_seen {
        pending.abandon = true;
    }
    if latest.is_some() {
        pending.deploy = latest;
    }
    if !pending.abandon && pending.deploy.is_none() {
        return OrderOutcome::Wait;
    }
    if paused {
        return OrderOutcome::Wait;
    }
    if phase.is_running() || phase.is_decided() {
        pending.abandon = false;
        return OrderOutcome::ToHub;
    }
    pending.abandon = false;
    let order = pending.deploy.take();
    match order {
        None => OrderOutcome::Wait,
        Some(request) => {
            let known = match &request.difficulty {
                None => is_known(missions, request.template.as_str(), None),
                Some(d) => is_known(missions, request.template.as_str(), Some(d.as_str())),
            };
            if !known {
                OrderOutcome::Refused(request)
            } else {
                OrderOutcome::Deploy(
                    SortieOrder {
                        template: request.template,
                        difficulty: request.difficulty,
                        from_hub: true,
                    },
                )
            }
        },
    }
}

// ---------------------------------------------------------------------------
// The sortie being flown, and its verdict
// ---------------------------------------------------------------------------

/// The order that is being flown, and the numbers it flies — `None` when nothing was ordered or
/// the file does not know the template or the level.
pub fn chosen<'a>(sortie: &'a Sortie, missions: &'a Vec<(String, MissionTemplate)>) -> (r: Option<
    (&'a SortieOrder, SortieNumbers<'a>),
>)
    requires
        missions_in_key_order(missions@),
    ensures
        r is Some <==> (sortie.0 matches Some(o) && order_known(
            missions@,
            o.template@,
            match o.difficulty {
                None => None,
                Some(d) => Some(d@),
            },
        )),
        r matches Some(pair) ==> ({
            let t = missions@[key_index(missions@, pair.0.template@)].1;
            &&& sortie.0 == Some(*pair.0)
            &&& *pair.1.objective == t.objective
            &&& match pair.0.difficulty {
                None => {
                    &&& pair.1.name@ == t.name@
                    &&& pair.1.target_duration_s_bits == t.target_duration_s_bits
                    &&& pair.1.kill_target == t.kill_target
                    &&& pair.1.waves@ == t.waves@
                },
                Some(d) => {
                    let level = t.difficulties@[key_index(t.difficulties@, d@)].1;
                    &&& pair.1.name@ == t.name@ + " · "@ + level.name@
                    &&& pair.1.target_duration_s_bits == level.target_duration_s_bits
                    &&& pair.1.kill_target == level.kill_target
                    &&& pair.1.waves@ == level.waves@
                },
            }
        }),
{
    let order = match &sortie.0 {
        Some(o) => o,
        None => return None,
    };
    let at = find_key(missions, order.template.as_str());
    if at >= missions.len() {
        return None;
    }
    let template = &missions[at].1;
    let numbers = match &order.difficulty {
        None => resolve(template, None),
        Some(d) => resolve(template, Some(d.as_str())),
    };
    match numbers {
        Some(n) => Some((order, n)),
        None => None,
    }
}

/// What deploying a sortie brings into being.
#[derive(Debug)]
pub struct Deployment {
    /// The mission, by its template key and its display name.
    pub mission: Mission,
    /// Started now, over the sortie's deadline.
    pub clock: MissionClock,
    /// Counting towards the sortie's kill target, nothing credited.
    pub tally: KillTally,
    /// A sortie out of the hub goes back there after its debrief; a direct drop-in does not.
    pub return_to_hub: bool,
}

/// The mission comes into being at `tick`: one mission with its clock over `duration_ticks` and
/// its counter, and the way back to the hub when the order came out of it.
pub fn deploy(order: &SortieOrder, numbers: &SortieNumbers, tick: u64, duration_ticks: u64) -> (d: Deployment)
    ensures
        d.mission.template@ == order.template@,
        d.mission.name@ == numbers.name@,
        d.clock == (MissionClock { started_at_tick: tick, duration_ticks, decided_at_tick: None }),
        d.tally.wf(),
        d.tally.goal() == numbers.kill_target,
        d.tally.credits().len() == 0,
        d.tally.paid().len() == 0,
        d.return_to_hub == order.from_hub,
{
    Deployment {
        mission: Mission { template: order.template.clone(), name: numbers.name.clone() },
        clock: MissionClock::new(tick, duration_ticks),
        tally: KillTally::with_target(numbers.kill_target),
        return_to_hub: order.from_hub,
    }
}

/// One tick of the verdict for one mission: once decided, never again; the win before the
/// loss, so a kill on the deadline tick still wins. The tick of the verdict is written down.
pub fn decide(clock: &mut MissionClock, tick: u64, reached: bool, everybody_down: bool) -> (v: Option<
    MissionPhase,
>)
    ensures
        old(clock).decided_at_tick is Some ==> v is None && *final(clock) == *old(clock),
        old(clock).decided_at_tick is None ==> {
            let expired = old(clock).duration_ticks > 0 && tick >= saturating_sum(
                old(clock).started_at_tick,
                old(clock).duration_ticks,
            );
            &&& v == (if reached {
                Some(MissionPhase::Won)
            } else if expired || everybody_down {
                Some(MissionPhase::Lost)
            } else {
                None
            })
            &&& final(clock).started_at_tick == old(clock).started_at_tick
            &&& final(clock).duration_ticks == old(clock).duration_ticks
            &&& final(clock).decided_at_tick == (if v is Some {
                Some(tick)
            } else {
                None
            })
        },
{
    if clock.decided_at_tick.is_some() {
        return None;
    }
    let verdict = if reached {
        MissionPhase::Won
    } else if clock.expired(tick) || everybody_down {
        MissionPhase::Lost
    } else {
        return None;
    };
    clock.decided_at_tick = Some(tick);
    Some(verdict)
}

} // verus!
