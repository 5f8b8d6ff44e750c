//! The objective line: the counter while the sortie runs, the verdict once it has fallen, and
//! nothing at all without a mission.

use vstd::prelude::*;
use vstd::string::StringExecFns;
use crate::mission::phase::{decided, phase_label, MissionPhase};
use crate::mission::run::KillTally;
use crate::shared::{decimal, decimal_text};

verus! {

/// The line for this phase and this counter; `None` hides the line.
///
/// - no mission (no counter): hidden, in every phase;
/// - `Won`, `Lost`: the phase's own word, never a second spelling;
/// - `Active`: `total/target`, the squad's kills against the file's target;
/// - `Briefing`, `Deploying`, `Hub`: hidden — nothing is being counted.
pub open spec fn objective_line(phase: MissionPhase, tally: Option<(nat, nat)>) -> Option<Seq<char>> {
    match tally {
        None => None,
        Some((total, target)) => if decided(phase) {
            Some(phase_label(phase))
        } else if phase is Active {
            Some(decimal(total) + "/"@ + decimal(target))
        } else {
            None
        },
    }
}

/// Mission state in, one line of text out. `None` means hide the line.
pub fn objective_text(phase: MissionPhase, tally: Option<&KillTally>) -> (r: Option<String>)
    requires
        tally matches Some(t) ==> t.wf(),
    ensures
        ({
            let want = objective_line(
                phase,
                match tally {
                    None => None,
                    Some(t) => Some((t.paid().len(), t.goal() as nat)),
                },
            );
            &&& r is Some == want is Some
            &&& r matches Some(s) ==> s@ == want->0
        }),
{
    let tally = match tally {
        Some(t) => t,
        None => return None,
    };
    if phase.is_decided() {
        return Some(String::from_str(phase.label()));
    }
    match phase {
        MissionPhase::Active => {
            let mut line = decimal_text(tally.total() as u64);
            proof {
                reveal_strlit("/");
            }
            line.append("/");
            let target = decimal_text(tally.target() as u64);
            line.append(target.as_str());
            Some(line)
        },
        _ => None,
    }
}

} // verus!
