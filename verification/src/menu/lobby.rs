//! The lobby: pick a mission, pick a difficulty, deploy — the same sortie the pads start.
//!
//! The choice holds keys, never indices, and every read goes back through [`chosen`], which
//! re-derives it against the file: a key the file no longer knows falls back to the default
//! door and never deploys something nobody picked.

use vstd::prelude::*;
use vstd::string::StringExecFns;
use crate::data::{find_key, has_key, key_index, missions_in_key_order, MissionTemplate, PadSpec};
use crate::mission::DeployRequest;
use super::Screen;

verus! {

/// The choice on the lobby plate, by keys.
#[derive(Debug, Default, PartialEq, Eq)]
pub struct LobbyChoice {
    pub mission: Option<String>,
    pub difficulty: Option<String>,
}

/// What a button on the lobby does.
#[derive(Debug, PartialEq, Eq)]
pub enum LobbyAction {
    PickMission(String),
    PickDifficulty(String),
    /// Start it. The one button on this screen that changes the game.
    Deploy,
    Back,
}

/// The text of an optional key.
pub open spec fn key_text(k: Option<String>) -> Option<Seq<char>> {
    match k {
        None => None,
        Some(s) => Some(s@),
    }
}

/// The first pad that deploys `mission`, or the number of pads when none does.
pub open spec fn pad_index(pads: Seq<PadSpec>, mission: Seq<char>) -> int
    decreases pads.len(),
{
    if pads.len() == 0 {
        0
    } else if pads[0].mission@ == mission {
        0
    } else {
        1 + pad_index(pads.drop_first(), mission)
    }
}

proof fn lemma_pad_index(pads: Seq<PadSpec>, mission: Seq<char>)
    ensures
        0 <= pad_index(pads, mission) <= pads.len(),
        forall|i: int| 0 <= i < pad_index(pads, mission) ==> pads[i].mission@ != mission,
        pad_index(pads, mission) < pads.len() ==> pads[pad_index(pads, mission)].mission@ == mission,
    decreases pads.len(),
{
    if pads.len() > 0 && pads[0].mission@ != mission {
        lemma_pad_index(pads.drop_first(), mission);
        assert forall|i: int| 0 <= i < pad_index(pads, mission) implies pads[i].mission@
            != mission by {
            if i > 0 {
                assert(pads[i] == pads.drop_first()[i - 1]);
            }
        }
    }
}

fn find_pad(pads: &Vec<PadSpec>, mission: &str) -> (at: usize)
    ensures
        at == pad_index(pads@, mission@),
{
    proof {
        lemma_pad_index(pads@, mission@);
    }
    let mut i: usize = 0;
    while i < pads.len()
        invariant
            0 <= i <= pads.len(),
            forall|j: int| 0 <= j < i ==> pads@[j].mission@ != mission@,
            0 <= pad_index(pads@, mission@) <= pads@.len(),
            forall|j: int| 0 <= j < pad_index(pads@, mission@) ==> pads@[j].mission@ != mission@,
            pad_index(pads@, mission@) < pads@.len() ==> pads@[pad_index(
                pads@,
                mission@,
            )].mission@ == mission@,
        decreases pads.len() - i,
    {
        if crate::shared::same_text(pads[i].mission.as_str(), mission) {
            return i;
        }
        i = i + 1;
    }
    i
}

/// The choice as it stands against the file: a template that exists, and a level that exists
/// inside it.
///
/// The default door is the hub's first pad, or the first template when there are no pads. The
/// default level is the one the first pad for that mission deploys, when the template has it,
/// else the template's first level, else none (the template's own numbers).
pub open spec fn lobby_pick(
    templates: Seq<(String, MissionTemplate)>,
    pads: Seq<PadSpec>,
    mission: Option<Seq<char>>,
    difficulty: Option<Seq<char>>,
) -> Option<(Seq<char>, Option<Seq<char>>)> {
    let default_mission: Option<Seq<char>> = if pads.len() > 0 {
        Some(pads[0].mission@)
    } else if templates.len() > 0 {
        Some(templates[0].0@)
    } else {
        None
    };
    match default_mission {
        None => None,
        Some(dm) => {
            let name = match mission {
                Some(m) => if has_key(templates, m) {
                    m
                } else {
                    dm
                },
                None => dm,
            };
            if !has_key(templates, name) {
                None
            } else {
                let levels = templates[key_index(templates, name)].1.difficulties@;
                let p = pad_index(pads, name);
                let default_difficulty = if p < pads.len() && has_key(levels, pads[p].difficulty@) {
                    Some(pads[p].difficulty@)
                } else if levels.len() > 0 {
                    Some(levels[0].0@)
                } else {
                    None
                };
                let picked = match difficulty {
                    Some(d) => if has_key(levels, d) {
                        Some(d)
                    } else {
                        default_difficulty
                    },
                    None => default_difficulty,
                };
                Some((name, picked))
            }
        },
    }
}

/// Whatever is stored in the choice, the lobby only ever offers what the file knows: a template
/// it lists and, with it, a level that template has or no level at all. A stale key falls back
/// to the default door; it never becomes a sortie nobody can fly. And with any template in the
/// file there is always something on offer, as long as the hub's first pad names a template
/// the file has.
pub proof fn law_the_lobby_offers_only_what_the_file_knows(
    templates: Seq<(String, MissionTemplate)>,
    pads: Seq<PadSpec>,
    mission: Option<Seq<char>>,
    difficulty: Option<Seq<char>>,
)
    ensures
        lobby_pick(templates, pads, mission, difficulty) matches Some((name, level)) ==> {
            &&& has_key(templates, name)
            &&& level matches Some(d) ==> has_key(templates[key_index(templates, name)].1.difficulties@, d)
        },
        templates.len() > 0 && (pads.len() > 0 ==> has_key(templates, pads[0].mission@))
            ==> lobby_pick(templates, pads, mission, difficulty) is Some,
{
    crate::data::lemma_key_index(templates, match mission {
        Some(m) => m,
        None => Seq::empty(),
    });
    if templates.len() > 0 {
        crate::data::lemma_key_index(templates, templates[0].0@);
    }
}

/// What the player picked is what flies: a stored mission the file knows is the mission on
/// offer, and a stored level that mission has is the level on offer, whatever the pads say —
/// the defaults only fill in what is missing or stale.
pub proof fn law_the_players_pick_is_what_flies(
    templates: Seq<(String, MissionTemplate)>,
    pads: Seq<PadSpec>,
    mission: Seq<char>,
    difficulty: Option<Seq<char>>,
)
    requires
        has_key(templates, mission),
    ensures
        ({
            let r = lobby_pick(templates, pads, Some(mission), difficulty);
            let levels = templates[key_index(templates, mission)].1.difficulties@;
            &&& r is Some
            &&& (r->0).0 == mission
            &&& difficulty matches Some(d) ==> (has_key(levels, d) ==> (r->0).1 == Some(d))
            &&& (r->0).1 matches Some(l) ==> has_key(levels, l)
        }),
{
}

/// A choice the file does not know, or no choice at all, falls back to the default door: the
/// hub's first pad, or the first template when there are no pads; and with no level picked the
/// level is the one that door's pad deploys, when the template has it.
pub proof fn law_a_missing_pick_takes_the_default_door(
    templates: Seq<(String, MissionTemplate)>,
    pads: Seq<PadSpec>,
    mission: Option<Seq<char>>,
)
    requires
        templates.len() > 0,
        pads.len() > 0 ==> has_key(templates, pads[0].mission@),
        mission matches Some(m) ==> !has_key(templates, m),
    ensures
        ({
            let door = if pads.len() > 0 {
                pads[0].mission@
            } else {
                templates[0].0@
            };
            let r = lobby_pick(templates, pads, mission, None);
            let levels = templates[key_index(templates, door)].1.difficulties@;
            &&& r is Some
            &&& (r->0).0 == door
            &&& (pads.len() > 0 && has_key(levels, pads[0].difficulty@)) ==> (r->0).1 == Some(
                pads[0].difficulty@,
            )
        }),
{
    crate::data::lemma_key_index(templates, templates[0].0@);
    if pads.len() > 0 {
        lemma_pad_index(pads, pads[0].mission@);
    }
}

/// The choice as it stands against the file — see [`lobby_pick`].
pub fn chosen(templates: &Vec<(String, MissionTemplate)>, pads: &Vec<PadSpec>, choice: &LobbyChoice) -> (r:
    Option<(String, Option<String>)>)
    requires
        missions_in_key_order(templates@),
    ensures
        ({
            let want = lobby_pick(templates@, pads@, key_text(choice.mission), key_text(choice.difficulty));
            &&& r is Some == want is Some
            &&& r matches Some(pair) ==> pair.0@ == (want->0).0 && key_text(pair.1) == (want->0).1
        }),
{
    let default_mission: &str = if pads.len() > 0 {
        pads[0].mission.as_str()
    } else if templates.len() > 0 {
        templates[0].0.as_str()
    } else {
        return None;
    };
    let name: &str = match &choice.mission {
        Some(m) => if find_key(templates, m.as_str()) < templates.len() {
            m.as_str()
        } else {
            default_mission
        },
        None => default_mission,
    };
    let at = find_key(templates, name);
    if at >= templates.len() {
        return None;
    }
    let levels = &templates[at].1.difficulties;
    let p = find_pad(pads, name);
    let default_difficulty: Option<&str> = if p < pads.len() && find_key(
        levels,
        pads[p].difficulty.as_str(),
    ) < levels.len() {
        Some(pads[p].difficulty.as_str())
    } else if levels.len() > 0 {
        Some(levels[0].0.as_str())
    } else {
        None
    };
    let picked: Option<&str> = match &choice.difficulty {
        Some(d) => if find_key(levels, d.as_str()) < levels.len() {
            Some(d.as_str())
        } else {
            default_difficulty
        },
        None => default_difficulty,
    };
    let picked_owned = match picked {
        Some(d) => Some(String::from_str(d)),
        None => None,
    };
    Some((String::from_str(name), picked_owned))
}

/// What a lobby press does: the screen after it, and the deployment it asks for.
#[derive(Debug, PartialEq, Eq)]
pub struct LobbyPress {
    pub screen: Screen,
    pub deploy: Option<DeployRequest>,
}

/// The lobby's buttons. Picking a mission clears the level rather than leaving a key from
/// another template standing; *Deploy* asks for what [`chosen`] shows and hands the screen back
/// to the game; with nothing to fly it asks nothing and the screen stays.
pub fn lobby_press(
    choice: &mut LobbyChoice,
    action: &LobbyAction,
    screen: Screen,
    templates: &Vec<(String, MissionTemplate)>,
    pads: &Vec<PadSpec>,
) -> (p: LobbyPress)
    requires
        missions_in_key_order(templates@),
    ensures
        match *action {
            LobbyAction::PickMission(key) => {
                let same = old(choice).mission matches Some(m) && m@ == key@;
                &&& p.screen == screen && p.deploy is None
                &&& key_text(final(choice).mission) == Some(key@)
                &&& key_text(final(choice).difficulty) == (if same {
                    key_text(old(choice).difficulty)
                } else {
                    None
                })
            },
            LobbyAction::PickDifficulty(key) => {
                &&& p.screen == screen && p.deploy is None
                &&& key_text(final(choice).mission) == key_text(old(choice).mission)
                &&& key_text(final(choice).difficulty) == Some(key@)
            },
            LobbyAction::Deploy => {
                let want = lobby_pick(
                    templates@,
                    pads@,
                    key_text(old(choice).mission),
                    key_text(old(choice).difficulty),
                );
                &&& *final(choice) == *old(choice)
                &&& match want {
                    None => p.screen == screen && p.deploy is None,
                    Some(pair) => {
                        &&& p.screen == Screen::Playing
                        &&& p.deploy matches Some(r) && r.template@ == pair.0 && key_text(
                            r.difficulty,
                        ) == pair.1
                    },
                }
            },
            LobbyAction::Back => *final(choice) == *old(choice) && p.screen == Screen::Playing
                && p.deploy is None,
        },
{
    match action {
        LobbyAction::PickMission(key) => {
            let same = match &choice.mission {
                Some(m) => crate::shared::same_text(m.as_str(), key.as_str()),
                None => false,
            };
            if !same {
                choice.mission = Some(String::from_str(key.as_str()));
                choice.difficulty = None;
            }
            LobbyPress { screen, deploy: None }
        },
        LobbyAction::PickDifficulty(key) => {
            let same = match &choice.difficulty {
                Some(d) => crate::shared::same_text(d.as_str(), key.as_str()),
                None => false,
            };
            if !same {
                choice.difficulty = Some(String::from_str(key.as_str()));
            }
            LobbyPress { screen, deploy: None }
        },
        LobbyAction::Deploy => match chosen(templates, pads, choice) {
            None => LobbyPress { screen, deploy: None },
            Some((template, difficulty)) => LobbyPress {
                screen: Screen::Playing,
                deploy: Some(DeployRequest { template, difficulty }),
            },
        },
        LobbyAction::Back => LobbyPress { screen: Screen::Playing, deploy: None },
    }
}

} // verus!
