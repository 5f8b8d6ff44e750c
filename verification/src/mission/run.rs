//! What a running sortie is made of: a clock in ticks, a counter per player, a wave list.
//!
//! Ticks, never a wall clock: the file speaks in seconds and the conversion happens once, at
//! the edge. Everything here counts ticks.

use std::collections::BTreeSet;
use vstd::prelude::*;
use vstd::string::StringExecFns;
use crate::data::{find_key, key_index, keys_ascending, Difficulty, MissionTemplate, Objective, Wave};
use crate::shared::{
    find_id, id_listed, id_rank, ids_ascending, lemma_id_rank_is, lemma_id_rank_splits,
    lemma_insert_at_rank_ascends,
    lemma_integer_keys_are_ordered, PlayerId, Point, TitanId,
};
use super::phase::{phase_label, MissionPhase};

verus! {

// ---------------------------------------------------------------------------
// Template ⊕ difficulty
// ---------------------------------------------------------------------------

/// The three numbers one sortie flies, after template and difficulty have been put together,
/// and the mode, which is always the template's.
#[derive(Debug)]
pub struct SortieNumbers<'a> {
    /// What the log and the HUD call it — `"Ashgate Skirmish · Recruit"`.
    pub name: String,
    pub target_duration_s_bits: u32,
    pub kill_target: u32,
    pub waves: &'a [Wave],
    pub objective: &'a Objective,
}

/// Template ⊕ difficulty. `None` for the difficulty is the direct drop-in and flies the
/// template's own numbers; a level the file does not know resolves to nothing, never to a
/// fallback.
pub fn resolve<'a>(template: &'a MissionTemplate, difficulty: Option<&str>) -> (r: Option<
    SortieNumbers<'a>,
>)
    requires
        keys_ascending(template.difficulties@),
    ensures
        match difficulty {
            None => r matches Some(n) && {
                &&& n.name@ == template.name@
                &&& n.target_duration_s_bits == template.target_duration_s_bits
                &&& n.kill_target == template.kill_target
                &&& n.waves@ == template.waves@
                &&& *n.objective == template.objective
            },
            Some(key) => {
                let at = key_index(template.difficulties@, key@);
                if at < template.difficulties@.len() {
                    let level: Difficulty = template.difficulties@[at].1;
                    r matches Some(n) && {
                        &&& n.name@ == template.name@ + " · "@ + level.name@
                        &&& n.target_duration_s_bits == level.target_duration_s_bits
                        &&& n.kill_target == level.kill_target
                        &&& n.waves@ == level.waves@
                        &&& *n.objective == template.objective
                    }
                } else {
                    r is None
                }
            },
        },
{
    match difficulty {
        None => Some(
            SortieNumbers {
                name: template.name.clone(),
                target_duration_s_bits: template.target_duration_s_bits,
                kill_target: template.kill_target,
                waves: template.waves.as_slice(),
                objective: &template.objective,
            },
        ),
        Some(key) => {
            let at = find_key(&template.difficulties, key);
            if at >= template.difficulties.len() {
                return None;
            }
            let level = &template.difficulties[at].1;
            let mut name = template.name.clone();
            proof {
                reveal_strlit(" · ");
            }
            name.append(" · ");
            name.append(level.name.as_str());
            Some(
                SortieNumbers {
                    name,
                    target_duration_s_bits: level.target_duration_s_bits,
                    kill_target: level.kill_target,
                    waves: level.waves.as_slice(),
                    objective: &template.objective,
                },
            )
        },
    }
}

// ---------------------------------------------------------------------------
// The mission, its verdict, its clock
// ---------------------------------------------------------------------------

/// The running sortie: the template key and its display name.
#[derive(Debug, PartialEq, Eq)]
pub struct Mission {
    pub template: String,
    pub name: String,
}

/// What the sortie was decided as.
#[derive(Clone, Copy, Debug, PartialEq, Eq, Structural)]
pub struct Verdict {
    pub won: bool,
}

impl Verdict {
    /// `WON` or `LOST` — the phase's own word, never a second spelling.
    pub fn label(self) -> (s: &'static str)
        ensures
            s@ == (if self.won {
                phase_label(MissionPhase::Won)
            } else {
                phase_label(MissionPhase::Lost)
            }),
    {
        if self.won {
            MissionPhase::Won.label()
        } else {
            MissionPhase::Lost.label()
        }
    }
}

/// The mission clock. In ticks, and only in ticks.
#[derive(Clone, Copy, Debug, PartialEq, Eq, Structural)]
pub struct MissionClock {
    /// The tick the mission was deployed at.
    pub started_at_tick: u64,
    /// The template's deadline in ticks, converted once at deploy.
    pub duration_ticks: u64,
    /// The tick the verdict was decided on; `None` while the mission runs.
    pub decided_at_tick: Option<u64>,
}

/// `a + b`, held at `u64::MAX`.
pub open spec fn saturating_sum(a: u64, b: u64) -> u64 {
    if a + b > u64::MAX {
        u64::MAX
    } else {
        (a + b) as u64
    }
}

impl MissionClock {
    /// A clock started at `started_at_tick` that runs for `duration_ticks`.
    pub fn new(started_at_tick: u64, duration_ticks: u64) -> (c: MissionClock)
        ensures
            c == (MissionClock { started_at_tick, duration_ticks, decided_at_tick: None }),
    {
        MissionClock { started_at_tick, duration_ticks, decided_at_tick: None }
    }

    /// The tick the mission is lost on if nothing else has happened by then.
    pub fn deadline_tick(&self) -> (t: u64)
        ensures
            t == saturating_sum(self.started_at_tick, self.duration_ticks),
    {
        self.started_at_tick.saturating_add(self.duration_ticks)
    }

    /// Ticks the mission has been running (`0` before it started).
    pub fn elapsed(&self, tick: u64) -> (e: u64)
        ensures
            e == (if tick >= self.started_at_tick {
                tick - self.started_at_tick
            } else {
                0
            }),
    {
        tick.saturating_sub(self.started_at_tick)
    }

    /// Whether the clock has run out at this tick. A zero-length mission never expires.
    pub fn expired(&self, tick: u64) -> (r: bool)
        ensures
            r == (self.duration_ticks > 0 && tick >= saturating_sum(
                self.started_at_tick,
                self.duration_ticks,
            )),
    {
        self.duration_ticks > 0 && tick >= self.deadline_tick()
    }
}

// ---------------------------------------------------------------------------
// The kill counter
// ---------------------------------------------------------------------------

/// The credits of a list of players, added up.
pub open spec fn credit_sum(s: Seq<(PlayerId, u32)>) -> nat
    decreases s.len(),
{
    if s.len() == 0 {
        0
    } else {
        credit_sum(s.drop_last()) + (s.last().1 as nat)
    }
}

/// The credits after one more kill by `p`.
pub open spec fn bump(s: Seq<(PlayerId, u32)>, p: PlayerId) -> Seq<(PlayerId, u32)> {
    let at = id_rank(s, p.0) as int;
    if id_listed(s, p.0) {
        s.update(at, (p, (s[at].1 + 1) as u32))
    } else {
        s.insert(at, (p, 1u32))
    }
}

/// What `p` is credited with; `0` for a player who has cut nothing.
pub open spec fn credit_of(s: Seq<(PlayerId, u32)>, p: PlayerId) -> u32 {
    if id_listed(s, p.0) {
        s[id_rank(s, p.0) as int].1
    } else {
        0
    }
}

proof fn lemma_credit_sum_concat(a: Seq<(PlayerId, u32)>, b: Seq<(PlayerId, u32)>)
    ensures
        credit_sum(a + b) == credit_sum(a) + credit_sum(b),
    decreases b.len(),
{
    if b.len() > 0 {
        lemma_credit_sum_concat(a, b.drop_last());
        assert((a + b).drop_last() =~= a + b.drop_last());
    }
}

proof fn lemma_credit_sum_split(s: Seq<(PlayerId, u32)>, i: int)
    requires
        0 <= i < s.len(),
    ensures
        credit_sum(s) == credit_sum(s.take(i)) + s[i].1 + credit_sum(s.skip(i + 1)),
{
    assert(s =~= s.take(i) + seq![s[i]] + s.skip(i + 1));
    lemma_credit_sum_concat(s.take(i) + seq![s[i]], s.skip(i + 1));
    lemma_credit_sum_concat(s.take(i), seq![s[i]]);
    assert(seq![s[i]].drop_last() =~= Seq::<(PlayerId, u32)>::empty());
    assert(credit_sum(seq![s[i]]) == credit_sum(Seq::<(PlayerId, u32)>::empty()) + s[i].1);
}

proof fn lemma_credit_sum_bump(s: Seq<(PlayerId, u32)>, p: PlayerId)
    requires
        ids_ascending(s),
        id_listed(s, p.0) ==> s[id_rank(s, p.0) as int].1 < u32::MAX,
    ensures
        credit_sum(bump(s, p)) == credit_sum(s) + 1,
        ids_ascending(bump(s, p)),
{
    lemma_id_rank_splits(s, p.0);
    let at = id_rank(s, p.0) as int;
    let t = bump(s, p);
    if id_listed(s, p.0) {
        lemma_credit_sum_split(s, at);
        lemma_credit_sum_split(t, at);
        assert(t.take(at) =~= s.take(at));
        assert(t.skip(at + 1) =~= s.skip(at + 1));
        assert forall|i: int, j: int| 0 <= i < j < t.len() implies t[i].0.0 < t[j].0.0 by {
            assert(t[i].0 == s[i].0);
            assert(t[j].0 == s[j].0);
        }
    } else {
        lemma_credit_sum_split(t, at);
        assert(t.take(at) =~= s.take(at));
        assert(t.skip(at + 1) =~= s.skip(at));
        assert(s =~= s.take(at) + s.skip(at));
        lemma_credit_sum_concat(s.take(at), s.skip(at));
        lemma_insert_at_rank_ascends(s, (p, 1u32));
    }
}

proof fn lemma_credit_sum_prefix(s: Seq<(PlayerId, u32)>, i: int)
    requires
        0 <= i <= s.len(),
    ensures
        credit_sum(s.take(i)) <= credit_sum(s),
{
    assert(s =~= s.take(i) + s.skip(i));
    lemma_credit_sum_concat(s.take(i), s.skip(i));
}

proof fn lemma_credit_of_within_sum(s: Seq<(PlayerId, u32)>, p: PlayerId)
    ensures
        credit_of(s, p) <= credit_sum(s),
{
    if id_listed(s, p.0) {
        lemma_credit_sum_split(s, id_rank(s, p.0) as int);
    }
}

/// One booked kill raises the cutter's count by one and leaves everybody else's as it was.
pub proof fn law_a_kill_counts_for_its_cutter_alone(
    s: Seq<(PlayerId, u32)>,
    cutter: PlayerId,
    other: PlayerId,
)
    requires
        ids_ascending(s),
        credit_of(s, cutter) < u32::MAX,
    ensures
        credit_of(bump(s, cutter), cutter) == credit_of(s, cutter) + 1,
        other.0 != cutter.0 ==> credit_of(bump(s, cutter), other) == credit_of(s, other),
{
    lemma_id_rank_splits(s, cutter.0);
    lemma_id_rank_splits(s, other.0);
    lemma_credit_sum_bump(s, cutter);
    let at = id_rank(s, cutter.0) as int;
    let ro = id_rank(s, other.0) as int;
    let t = bump(s, cutter);
    if id_listed(s, cutter.0) {
        lemma_id_rank_is(t, cutter.0, at);
        assert forall|i: int| 0 <= i < ro implies t[i].0.0 < other.0 by {
            assert(t[i].0 == s[i].0);
        }
        if ro < t.len() {
            assert(t[ro].0 == s[ro].0);
        }
        lemma_id_rank_is(t, other.0, ro);
        if other.0 != cutter.0 && ro < s.len() && ro == at {
            assert(s[ro].0.0 == cutter.0);
        }
    } else {
        assert forall|i: int| 0 <= i < at implies t[i].0.0 < cutter.0 by {
            assert(t[i] == s[i]);
        }
        lemma_id_rank_is(t, cutter.0, at);
        if other.0 < cutter.0 {
            if ro > at {
                assert(s[at].0.0 < other.0);
            }
            assert forall|i: int| 0 <= i < ro implies t[i].0.0 < other.0 by {
                assert(t[i] == s[i]);
            }
            if ro < at {
                assert(t[ro] == s[ro]);
            }
            lemma_id_rank_is(t, other.0, ro);
            if ro == at && ro < s.len() {
                assert(s[ro].0.0 >= cutter.0);
            }
        } else if other.0 > cutter.0 {
            if ro < at {
                assert(s[ro].0.0 >= other.0);
            }
            assert forall|i: int| 0 <= i < ro + 1 implies t[i].0.0 < other.0 by {
                if i < at {
                    assert(t[i] == s[i]);
                } else if i > at {
                    assert(t[i] == s[i - 1]);
                }
            }
            if ro + 1 < t.len() {
                assert(t[ro + 1] == s[ro]);
            }
            lemma_id_rank_is(t, other.0, ro + 1);
        }
    }
}

/// Who killed how many: one number per player, and the set of titans already paid for.
///
/// A dissolving titan keeps its [`TitanId`] for a while, so a second cortex hit on a body that
/// is already dying can arrive. The set answers "has this titan been paid for", which is the
/// only question that makes a kill a kill.
#[derive(Debug)]
pub struct KillTally {
    /// The number the mission counts to, out of the file.
    pub target: u32,
    by_player: Vec<(PlayerId, u32)>,
    credited: BTreeSet<u32>,
}

impl KillTally {
    /// Each player's kills, in id order.
    pub closed spec fn credits(&self) -> Seq<(PlayerId, u32)> {
        self.by_player@
    }

    /// The titans already paid for, by number.
    pub closed spec fn paid(&self) -> Set<u32> {
        self.credited@
    }

    pub closed spec fn goal(&self) -> u32 {
        self.target
    }

    /// The tally's invariant: one entry per player, in id order, and the per-player numbers add
    /// up to the number of titans paid for.
    pub open spec fn wf(&self) -> bool {
        &&& ids_ascending(self.credits())
        &&& self.paid().finite()
        &&& credit_sum(self.credits()) == self.paid().len()
        &&& self.paid().len() <= u32::MAX
    }

    /// A counter for a mission that counts to `target`, with nothing credited.
    pub fn with_target(target: u32) -> (t: KillTally)
        ensures
            t.wf(),
            t.goal() == target,
            t.credits() == Seq::<(PlayerId, u32)>::empty(),
            t.paid() == Set::<u32>::empty(),
    {
        KillTally { target, by_player: Vec::new(), credited: BTreeSet::new() }
    }

    /// The number the mission counts to.
    pub fn target(&self) -> (t: u32)
        ensures
            t == self.goal(),
    {
        self.target
    }

    /// Books one kill. Returns `false`, and changes nothing, when this titan was already paid
    /// for — the second cortex hit on a dissolving body counts nothing.
    pub fn credit(&mut self, player: PlayerId, titan: TitanId) -> (booked: bool)
        requires
            old(self).wf(),
            old(self).paid().len() < u32::MAX,
        ensures
            final(self).wf(),
            final(self).goal() == old(self).goal(),
            booked == !old(self).paid().contains(titan.0),
            booked ==> final(self).paid() == old(self).paid().insert(titan.0),
            booked ==> final(self).credits() == bump(old(self).credits(), player),
            !booked ==> final(self).paid() == old(self).paid(),
            !booked ==> final(self).credits() == old(self).credits(),
            booked ==> credit_of(final(self).credits(), player) == credit_of(old(self).credits(), player)
                + 1,
            forall|other: PlayerId|
                other.0 != player.0 ==> #[trigger] credit_of(final(self).credits(), other)
                    == credit_of(old(self).credits(), other),
            booked ==> credit_sum(final(self).credits()) == credit_sum(old(self).credits()) + 1,
            !booked ==> credit_sum(final(self).credits()) == credit_sum(old(self).credits()),
    {
        proof {
            lemma_integer_keys_are_ordered();
            lemma_credit_of_within_sum(self.by_player@, player);
            assert forall|other: PlayerId| other.0 != player.0 implies #[trigger] credit_of(
                bump(self.by_player@, player),
                other,
            ) == credit_of(self.by_player@, other) by {
                law_a_kill_counts_for_its_cutter_alone(self.by_player@, player, other);
            }
            law_a_kill_counts_for_its_cutter_alone(self.by_player@, player, player);
        }
        let ghost s = self.by_player@;
        if !self.credited.insert(titan.0) {
            return false;
        }
        let at = find_id(&self.by_player, player);
        proof {
            lemma_id_rank_splits(s, player.0);
            if id_listed(s, player.0) {
                lemma_credit_sum_split(s, at as int);
            }
        }
        if at < self.by_player.len() && self.by_player[at].0.0 == player.0 {
            let (pid, n) = self.by_player.remove(at);
            self.by_player.insert(at, (pid, n + 1));
            assert(self.by_player@ =~= bump(s, player));
        } else {
            self.by_player.insert(at, (player, 1));
            assert(self.by_player@ =~= bump(s, player));
        }
        proof {
            lemma_credit_sum_bump(s, player);
        }
        true
    }

    /// What this player is credited with. `0` for a player who has not cut anything.
    pub fn of(&self, player: PlayerId) -> (n: u32)
        requires
            self.wf(),
        ensures
            n == credit_of(self.credits(), player),
    {
        let at = find_id(&self.by_player, player);
        if at < self.by_player.len() && self.by_player[at].0.0 == player.0 {
            self.by_player[at].1
        } else {
            0
        }
    }

    /// Every kill of the squad: the per-player numbers added up — which is the number of
    /// distinct titans paid for.
    pub fn total(&self) -> (n: u32)
        requires
            self.wf(),
        ensures
            n == credit_sum(self.credits()),
            n == self.paid().len(),
    {
        let mut sum: u32 = 0;
        let mut i: usize = 0;
        while i < self.by_player.len()
            invariant
                self.wf(),
                0 <= i <= self.by_player.len(),
                sum == credit_sum(self.by_player@.take(i as int)),
            decreases self.by_player.len() - i,
        {
            proof {
                assert(self.by_player@.take(i + 1).drop_last() =~= self.by_player@.take(i as int));
                lemma_credit_sum_prefix(self.by_player@, i + 1);
            }
            sum = sum + self.by_player[i].1;
            i = i + 1;
        }
        assert(self.by_player@.take(i as int) =~= self.by_player@);
        sum
    }

    /// Whether the kill target is reached. A target of zero is never reached.
    pub fn reached(&self) -> (r: bool)
        requires
            self.wf(),
        ensures
            r == (self.goal() > 0 && self.paid().len() >= self.goal()),
    {
        self.target > 0 && self.total() >= self.target
    }

    /// Who is on the board, in id order — two machines list them the same.
    pub fn players(&self) -> (r: &[(PlayerId, u32)])
        ensures
            r@ == self.credits(),
    {
        self.by_player.as_slice()
    }
}

/// One blade hit on a titan, as the kill counter needs it: who cut, which titan, and whether
/// the cut landed in the cortex.
#[derive(Clone, Copy, Debug, PartialEq, Eq, Structural)]
pub struct KillHit {
    pub by: PlayerId,
    pub titan: TitanId,
    pub cortex: bool,
}

/// The credits and the paid-for titans after booking `hits` in order: only a cortex hit books,
/// and only on a titan not paid for yet.
pub open spec fn tally_after(credits: Seq<(PlayerId, u32)>, paid: Set<u32>, hits: Seq<KillHit>) -> (
    Seq<(PlayerId, u32)>,
    Set<u32>,
)
    decreases hits.len(),
{
    if hits.len() == 0 {
        (credits, paid)
    } else {
        let (c, p) = tally_after(credits, paid, hits.drop_last());
        let h = hits.last();
        if h.cortex && !p.contains(h.titan.0) {
            (bump(c, h.by), p.insert(h.titan.0))
        } else {
            (c, p)
        }
    }
}

/// The titans cut in the cortex by `hits`, by number.
pub open spec fn cortex_titans(hits: Seq<KillHit>) -> Set<u32>
    decreases hits.len(),
{
    if hits.len() == 0 {
        Set::empty()
    } else if hits.last().cortex {
        cortex_titans(hits.drop_last()).insert(hits.last().titan.0)
    } else {
        cortex_titans(hits.drop_last())
    }
}

/// After a run of hits the titans paid for are those paid for before and those cut in the
/// cortex: a hit anywhere else pays for nothing, and a titan cut twice is paid for once. A run
/// without a cortex hit changes nothing at all.
pub proof fn law_only_a_cortex_cut_pays(credits: Seq<(PlayerId, u32)>, paid: Set<u32>, hits: Seq<KillHit>)
    ensures
        tally_after(credits, paid, hits).1 == paid.union(cortex_titans(hits)),
        (forall|i: int| 0 <= i < hits.len() ==> !hits[i].cortex) ==> tally_after(credits, paid, hits)
            == (credits, paid),
    decreases hits.len(),
{
    if hits.len() > 0 {
        law_only_a_cortex_cut_pays(credits, paid, hits.drop_last());
        let (c, p) = tally_after(credits, paid, hits.drop_last());
        let h = hits.last();
        if h.cortex {
            assert(p.insert(h.titan.0) =~= paid.union(cortex_titans(hits)));
            if p.contains(h.titan.0) {
                assert(p.insert(h.titan.0) =~= p);
            }
        } else {
            assert(p =~= paid.union(cortex_titans(hits)));
        }
        if forall|i: int| 0 <= i < hits.len() ==> !hits[i].cortex {
            assert forall|i: int| 0 <= i < hits.drop_last().len() implies !hits.drop_last()[i].cortex by {
                assert(hits.drop_last()[i] == hits[i]);
            }
            assert(!hits[hits.len() - 1].cortex);
        }
    } else {
        assert(paid.union(Set::<u32>::empty()) =~= paid);
    }
}

/// How many of `hits` landed in the cortex — the only ones that can be booked.
pub open spec fn cortex_count(hits: Seq<KillHit>) -> nat
    decreases hits.len(),
{
    if hits.len() == 0 {
        0
    } else {
        cortex_count(hits.drop_last()) + (if hits.last().cortex {
            1nat
        } else {
            0nat
        })
    }
}

proof fn lemma_cortex_count_prefix(hits: Seq<KillHit>, i: int)
    requires
        0 <= i <= hits.len(),
    ensures
        cortex_count(hits.take(i)) <= cortex_count(hits),
    decreases hits.len() - i,
{
    if i < hits.len() {
        lemma_cortex_count_prefix(hits, i + 1);
        assert(hits.take(i + 1).drop_last() =~= hits.take(i));
    } else {
        assert(hits.take(i) =~= hits);
    }
}

/// Books the cortex kills among `hits` onto the players who made them, once per titan. A hit
/// anywhere else never counts: a torso hit cannot win a mission.
pub fn count_kills(tally: &mut KillTally, hits: &[KillHit])
    requires
        old(tally).wf(),
        old(tally).paid().len() + cortex_count(hits@) < u32::MAX,
    ensures
        final(tally).wf(),
        final(tally).goal() == old(tally).goal(),
        (final(tally).credits(), final(tally).paid()) == tally_after(
            old(tally).credits(),
            old(tally).paid(),
            hits@,
        ),
{
    let ghost c0 = tally.credits();
    let ghost p0 = tally.paid();
    let mut i: usize = 0;
    while i < hits.len()
        invariant
            0 <= i <= hits@.len(),
            tally.wf(),
            tally.goal() == old(tally).goal(),
            c0 == old(tally).credits(),
            p0 == old(tally).paid(),
            p0.len() + cortex_count(hits@) < u32::MAX,
            tally.paid().len() <= p0.len() + cortex_count(hits@.take(i as int)),
            (tally.credits(), tally.paid()) == tally_after(c0, p0, hits@.take(i as int)),
        decreases hits.len() - i,
    {
        let h = hits[i];
        proof {
            assert(hits@.take(i + 1).drop_last() =~= hits@.take(i as int));
            assert(hits@.take(i + 1).last() == h);
            lemma_cortex_count_prefix(hits@, i + 1);
        }
        if h.cortex {
            tally.credit(h.by, h.titan);
        }
        i = i + 1;
    }
    proof {
        assert(hits@.take(hits@.len() as int) =~= hits@);
    }
}

// ---------------------------------------------------------------------------
// The waves
// ---------------------------------------------------------------------------

/// One titan of a wave, resolved to a tick and a place.
#[derive(Debug, PartialEq, Eq)]
pub struct PendingTitan {
    pub at_tick: u64,
    pub kind: String,
    pub pos: Point,
}

/// How many titans at the front of `p` are due at `tick`.
pub open spec fn due_titans(p: Seq<PendingTitan>, tick: u64) -> nat
    decreases p.len(),
{
    if p.len() == 0 || p[0].at_tick > tick {
        0
    } else {
        1 + due_titans(p.drop_first(), tick)
    }
}

proof fn lemma_due_titans_exact(p: Seq<PendingTitan>, tick: u64, k: nat)
    requires
        k <= p.len(),
        forall|i: int| 0 <= i < k ==> p[i].at_tick <= tick,
        k == p.len() || p[k as int].at_tick > tick,
    ensures
        due_titans(p, tick) == k,
    decreases p.len(),
{
    if k > 0 {
        assert forall|i: int| 0 <= i < k - 1 implies p.drop_first()[i].at_tick <= tick by {
            assert(p.drop_first()[i] == p[i + 1]);
        }
        if k < p.len() {
            assert(p.drop_first()[k - 1] == p[k as int]);
        }
        lemma_due_titans_exact(p.drop_first(), tick, (k - 1) as nat);
    }
}

proof fn lemma_due_titans_bound(p: Seq<PendingTitan>, tick: u64)
    ensures
        due_titans(p, tick) <= p.len(),
        forall|i: int| 0 <= i < due_titans(p, tick) ==> p[i].at_tick <= tick,
        due_titans(p, tick) < p.len() ==> p[due_titans(p, tick) as int].at_tick > tick,
    decreases p.len(),
{
    if p.len() > 0 && p[0].at_tick <= tick {
        lemma_due_titans_bound(p.drop_first(), tick);
        assert forall|i: int| 0 <= i < due_titans(p, tick) implies p[i].at_tick <= tick by {
            if i > 0 {
                assert(p[i] == p.drop_first()[i - 1]);
            }
        }
    }
}

/// Nothing is released twice: after the titans due at `tick` have been taken, a release at
/// the same tick or an earlier one finds nothing.
pub proof fn law_nothing_is_released_twice(p: Seq<PendingTitan>, tick: u64, again: u64)
    requires
        again <= tick,
    ensures
        due_titans(p.skip(due_titans(p, tick) as int), again) == 0,
{
    lemma_due_titans_bound(p, tick);
    let n = due_titans(p, tick) as int;
    if n < p.len() {
        assert(p.skip(n)[0] == p[n]);
    }
}

/// In a schedule sorted by tick, one release hands out every titan that is overdue — however
/// many ticks late it comes — and none that is not due yet.
pub proof fn law_everything_overdue_comes_at_once(p: Seq<PendingTitan>, tick: u64)
    requires
        by_tick(p),
    ensures
        forall|i: int| 0 <= i < p.len() ==> (i < due_titans(p, tick) <==> p[i].at_tick <= tick),
{
    lemma_due_titans_bound(p, tick);
    let n = due_titans(p, tick) as int;
    assert forall|i: int| 0 <= i < p.len() implies (i < due_titans(p, tick) <==> p[i].at_tick
        <= tick) by {
        if i >= n {
            assert(p[n].at_tick <= p[i].at_tick);
        }
    }
}

/// Everything still to come, released from the front.
#[derive(Debug, Default)]
pub struct WaveSchedule {
    /// In release order: sorted by `at_tick`, and within a tick in file order.
    pub pending: Vec<PendingTitan>,
    /// How many have been released so far.
    pub released: u32,
}

/// How many titans the waves hold together.
pub open spec fn titan_count(waves: Seq<Wave>) -> nat
    decreases waves.len(),
{
    if waves.len() == 0 {
        0
    } else {
        titan_count(waves.drop_last()) + (waves.last().count as nat)
    }
}

/// The waves laid out one titan at a time, in file order: titan `i` of the whole list gets the
/// place `ring[i]`, and every titan of wave `w` gets the tick `ticks[w]`.
pub open spec fn laid_out(waves: Seq<Wave>, ticks: Seq<u64>, ring: Seq<Point>) -> Seq<PendingTitan>
    decreases waves.len(),
{
    if waves.len() == 0 {
        Seq::empty()
    } else {
        let w = waves.len() - 1;
        let before = titan_count(waves.drop_last());
        laid_out(waves.drop_last(), ticks, ring) + Seq::new(
            waves.last().count as nat,
            |j: int| PendingTitan { at_tick: ticks[w], kind: waves.last().kind, pos: ring[before + j] },
        )
    }
}

/// How many titans of `t` are due no later than `tick`.
pub open spec fn count_due_by(t: Seq<PendingTitan>, tick: u64) -> nat
    decreases t.len(),
{
    if t.len() == 0 {
        0
    } else {
        count_due_by(t.drop_last(), tick) + (if t.last().at_tick <= tick {
            1nat
        } else {
            0nat
        })
    }
}

/// `x` put behind every titan that is due no later than it.
pub open spec fn place(t: Seq<PendingTitan>, x: PendingTitan) -> Seq<PendingTitan> {
    t.insert(count_due_by(t, x.at_tick) as int, x)
}

/// The release order: sorted by tick, and within a tick in the order of `s` (a stable sort).
pub open spec fn release_order(s: Seq<PendingTitan>) -> Seq<PendingTitan>
    decreases s.len(),
{
    if s.len() == 0 {
        s
    } else {
        place(release_order(s.drop_last()), s.last())
    }
}

/// Ascending by tick.
pub open spec fn by_tick(t: Seq<PendingTitan>) -> bool {
    forall|i: int, j: int| 0 <= i <= j < t.len() ==> t[i].at_tick <= t[j].at_tick
}

proof fn lemma_count_due_by_splits(t: Seq<PendingTitan>, tick: u64)
    requires
        by_tick(t),
    ensures
        count_due_by(t, tick) <= t.len(),
        forall|i: int| 0 <= i < count_due_by(t, tick) ==> t[i].at_tick <= tick,
        forall|i: int| count_due_by(t, tick) <= i < t.len() ==> t[i].at_tick > tick,
    decreases t.len(),
{
    if t.len() > 0 {
        let p = t.drop_last();
        lemma_count_due_by_splits(p, tick);
        if t.last().at_tick <= tick {
            assert forall|i: int| 0 <= i < count_due_by(t, tick) implies t[i].at_tick <= tick by {
                if i < t.len() - 1 {
                    assert(t[i].at_tick <= t[t.len() - 1].at_tick);
                }
            }
        } else {
            assert forall|i: int| count_due_by(t, tick) <= i < t.len() implies t[i].at_tick
                > tick by {
                if i < t.len() - 1 {
                    assert(t[i] == p[i]);
                }
            }
            assert forall|i: int| 0 <= i < count_due_by(t, tick) implies t[i].at_tick <= tick by {
                assert(t[i] == p[i]);
            }
        }
    }
}

proof fn lemma_place_keeps_by_tick(t: Seq<PendingTitan>, x: PendingTitan)
    requires
        by_tick(t),
    ensures
        by_tick(place(t, x)),
        place(t, x).len() == t.len() + 1,
{
    lemma_count_due_by_splits(t, x.at_tick);
    let at = count_due_by(t, x.at_tick) as int;
    let u = place(t, x);
    assert forall|i: int, j: int| 0 <= i <= j < u.len() implies u[i].at_tick <= u[j].at_tick by {
        if j < at {
        } else if i > at {
            assert(u[i] == t[i - 1]);
            assert(u[j] == t[j - 1]);
        } else if i == at {
            if j > at {
                assert(u[j] == t[j - 1]);
            }
        } else if j == at {
        } else {
            assert(u[j] == t[j - 1]);
        }
    }
}

/// The release order is sorted by tick, and loses or invents no titan: it holds exactly the
/// titans it was given, each as often as it was given.
pub proof fn law_release_order_is_by_tick(s: Seq<PendingTitan>)
    ensures
        by_tick(release_order(s)),
        release_order(s).len() == s.len(),
        release_order(s).to_multiset() == s.to_multiset(),
    decreases s.len(),
{
    if s.len() > 0 {
        let rest = release_order(s.drop_last());
        law_release_order_is_by_tick(s.drop_last());
        lemma_place_keeps_by_tick(rest, s.last());
        lemma_count_due_by_splits(rest, s.last().at_tick);
        vstd::seq_lib::to_multiset_insert(rest, count_due_by(rest, s.last().at_tick) as int, s.last());
        vstd::seq_lib::to_multiset_build(s.drop_last(), s.last());
        assert(s.drop_last().push(s.last()) =~= s);
    } else {
        assert(release_order(s) =~= s);
    }
}

/// The titans of one tick, in the order of `t`.
pub open spec fn of_tick(t: Seq<PendingTitan>, tick: u64) -> Seq<PendingTitan>
    decreases t.len(),
{
    if t.len() == 0 {
        Seq::empty()
    } else if t.last().at_tick == tick {
        of_tick(t.drop_last(), tick).push(t.last())
    } else {
        of_tick(t.drop_last(), tick)
    }
}

proof fn lemma_of_tick_none(t: Seq<PendingTitan>, tick: u64)
    requires
        forall|i: int| 0 <= i < t.len() ==> t[i].at_tick != tick,
    ensures
        of_tick(t, tick) == Seq::<PendingTitan>::empty(),
    decreases t.len(),
{
    if t.len() > 0 {
        assert forall|i: int| 0 <= i < t.drop_last().len() implies t.drop_last()[i].at_tick != tick by {
            assert(t.drop_last()[i] == t[i]);
        }
        lemma_of_tick_none(t.drop_last(), tick);
        assert(t.last().at_tick != tick);
    }
}

proof fn lemma_of_tick_one(x: PendingTitan, tick: u64)
    ensures
        of_tick(seq![x], tick) == (if x.at_tick == tick {
            seq![x]
        } else {
            Seq::<PendingTitan>::empty()
        }),
{
    let one = seq![x];
    assert(one.drop_last() =~= Seq::<PendingTitan>::empty());
    assert(one.last() == x);
    assert(of_tick(one.drop_last(), tick) =~= Seq::<PendingTitan>::empty());
    if x.at_tick == tick {
        assert(Seq::<PendingTitan>::empty().push(x) =~= seq![x]);
    }
}

proof fn lemma_of_tick_concat(a: Seq<PendingTitan>, b: Seq<PendingTitan>, tick: u64)
    ensures
        of_tick(a + b, tick) == of_tick(a, tick) + of_tick(b, tick),
    decreases b.len(),
{
    if b.len() == 0 {
        assert(a + b =~= a);
        assert(of_tick(a, tick) + of_tick(b, tick) =~= of_tick(a, tick));
    } else {
        lemma_of_tick_concat(a, b.drop_last(), tick);
        assert((a + b).drop_last() =~= a + b.drop_last());
        assert((a + b).last() == b.last());
        if b.last().at_tick == tick {
            assert(of_tick(a, tick) + of_tick(b.drop_last(), tick).push(b.last()) =~= (of_tick(
                a,
                tick,
            ) + of_tick(b.drop_last(), tick)).push(b.last()));
        }
    }
}

/// Titans due on the same tick keep their file order: for every tick, the titans of that tick
/// come out of the release order exactly in the order they went in.
pub proof fn law_release_order_keeps_file_order_within_a_tick(s: Seq<PendingTitan>, tick: u64)
    ensures
        of_tick(release_order(s), tick) == of_tick(s, tick),
    decreases s.len(),
{
    if s.len() > 0 {
        let rest = release_order(s.drop_last());
        let x = s.last();
        law_release_order_keeps_file_order_within_a_tick(s.drop_last(), tick);
        law_release_order_is_by_tick(s.drop_last());
        lemma_count_due_by_splits(rest, x.at_tick);
        let c = count_due_by(rest, x.at_tick) as int;
        let head = rest.take(c);
        let tail = rest.skip(c);
        let one = seq![x];
        assert(release_order(s) =~= head + one + tail);
        assert(rest =~= head + tail);
        lemma_of_tick_concat(head + one, tail, tick);
        lemma_of_tick_concat(head, one, tick);
        lemma_of_tick_concat(head, tail, tick);
        assert(one.drop_last() =~= Seq::<PendingTitan>::empty());
        assert(one.last() == x);
        assert(s.drop_last().push(x) =~= s);
        if x.at_tick == tick {
            assert forall|i: int| 0 <= i < tail.len() implies tail[i].at_tick != tick by {
                assert(tail[i] == rest[c + i]);
            }
            lemma_of_tick_none(tail, tick);
            lemma_of_tick_one(x, tick);
            assert(of_tick(head, tick) + seq![x] + Seq::<PendingTitan>::empty() =~= of_tick(
                head,
                tick,
            ).push(x));
            assert(of_tick(head, tick) + Seq::<PendingTitan>::empty() =~= of_tick(head, tick));
        } else {
            lemma_of_tick_one(x, tick);
            assert(of_tick(head, tick) + Seq::<PendingTitan>::empty() =~= of_tick(head, tick));
        }
    }
}

proof fn lemma_laid_out_len(waves: Seq<Wave>, ticks: Seq<u64>, ring: Seq<Point>)
    ensures
        laid_out(waves, ticks, ring).len() == titan_count(waves),
    decreases waves.len(),
{
    if waves.len() > 0 {
        lemma_laid_out_len(waves.drop_last(), ticks, ring);
    }
}

proof fn lemma_titan_count_prefix(waves: Seq<Wave>, w: int)
    requires
        0 <= w <= waves.len(),
    ensures
        titan_count(waves.take(w)) <= titan_count(waves),
    decreases waves.len() - w,
{
    if w < waves.len() {
        lemma_titan_count_prefix(waves, w + 1);
        assert(waves.take(w + 1).drop_last() =~= waves.take(w));
    } else {
        assert(waves.take(w) =~= waves);
    }
}

/// Where `x` goes in a tick-sorted schedule: behind every titan due no later than it.
fn slot_for(pending: &Vec<PendingTitan>, at_tick: u64) -> (at: usize)
    requires
        by_tick(pending@),
    ensures
        at == count_due_by(pending@, at_tick),
{
    proof {
        lemma_count_due_by_splits(pending@, at_tick);
    }
    let mut i: usize = 0;
    while i < pending.len() && pending[i].at_tick <= at_tick
        invariant
            by_tick(pending@),
            0 <= i <= pending.len(),
            forall|j: int| 0 <= j < i ==> pending@[j].at_tick <= at_tick,
            count_due_by(pending@, at_tick) <= pending@.len(),
            forall|j: int| 0 <= j < count_due_by(pending@, at_tick) ==> pending@[j].at_tick
                <= at_tick,
            forall|j: int| count_due_by(pending@, at_tick) <= j < pending@.len() ==> pending@[j].at_tick
                > at_tick,
        decreases pending.len() - i,
    {
        i = i + 1;
    }
    proof {
        let c = count_due_by(pending@, at_tick) as int;
        if c < i {
            assert(pending@[c].at_tick <= at_tick);
        }
        if c > i {
            assert(pending@[i as int].at_tick <= at_tick);
        }
    }
    i
}

impl WaveSchedule {
    /// Turns the waves into single titans with a tick and a place, in release order.
    ///
    /// `ticks[w]` is the tick wave `w` is due on (its start plus its offset, converted once at
    /// the edge); `ring[i]` is where titan `i` of the whole list, counted in file order, stands.
    /// The list is sorted by tick, and within a tick kept in file order, so the same file gives
    /// the same list on every machine.
    pub fn of(waves: &[Wave], ticks: &[u64], ring: &[Point]) -> (s: WaveSchedule)
        requires
            ticks@.len() == waves@.len(),
            ring@.len() == titan_count(waves@),
        ensures
            s.pending@ == release_order(laid_out(waves@, ticks@, ring@)),
            s.released == 0,
    {
        let mut pending: Vec<PendingTitan> = Vec::new();
        let ghost mut done: Seq<PendingTitan> = Seq::empty();
        let mut index: usize = 0;
        let mut w: usize = 0;
        while w < waves.len()
            invariant
                ticks@.len() == waves@.len(),
                ring@.len() == titan_count(waves@),
                0 <= w <= waves@.len(),
                index == titan_count(waves@.take(w as int)),
                done == laid_out(waves@.take(w as int), ticks@, ring@),
                pending@ == release_order(done),
                by_tick(pending@),
            decreases waves.len() - w,
        {
            let wave = &waves[w];
            let ghost done_before = done;
            let ghost index_before = index;
            proof {
                assert(waves@.take(w + 1).drop_last() =~= waves@.take(w as int));
                lemma_titan_count_prefix(waves@, w + 1);
            }
            let mut j: u32 = 0;
            while j < wave.count
                invariant
                    ticks@.len() == waves@.len(),
                    ring@.len() == titan_count(waves@),
                    0 <= w < waves@.len(),
                    *wave == waves@[w as int],
                    0 <= j <= wave.count,
                    index_before + wave.count <= ring@.len(),
                    index == index_before + j,
                    done == done_before + Seq::new(
                        j as nat,
                        |k: int|
                            PendingTitan {
                                at_tick: ticks@[w as int],
                                kind: wave.kind,
                                pos: ring@[index_before + k],
                            },
                    ),
                    pending@ == release_order(done),
                    by_tick(pending@),
                decreases wave.count - j,
            {
                let titan = PendingTitan {
                    at_tick: ticks[w],
                    kind: wave.kind.clone(),
                    pos: ring[index],
                };
                let at = slot_for(&pending, titan.at_tick);
                proof {
                    let next = done.push(titan);
                    assert(next.drop_last() =~= done);
                    lemma_place_keeps_by_tick(pending@, titan);
                    lemma_count_due_by_splits(pending@, titan.at_tick);
                    assert(next =~= done_before + Seq::new(
                        (j + 1) as nat,
                        |k: int|
                            PendingTitan {
                                at_tick: ticks@[w as int],
                                kind: wave.kind,
                                pos: ring@[index_before + k],
                            },
                    ));
                    done = next;
                }
                pending.insert(at, titan);
                index = index + 1;
                j = j + 1;
            }
            proof {
                assert(done =~= laid_out(waves@.take(w + 1), ticks@, ring@));
            }
            w = w + 1;
        }
        proof {
            assert(waves@.take(waves@.len() as int) =~= waves@);
        }
        WaveSchedule { pending, released: 0 }
    }

    /// Takes everything due at this tick off the front — nothing a second time, and everything
    /// overdue at once.
    pub fn take_due(&mut self, tick: u64) -> (due: Vec<PendingTitan>)
        requires
            old(self).released + due_titans(old(self).pending@, tick) <= u32::MAX,
        ensures
            ({
                let n = due_titans(old(self).pending@, tick) as int;
                &&& due@ == old(self).pending@.take(n)
                &&& final(self).pending@ == old(self).pending@.skip(n)
                &&& final(self).released == old(self).released + n
            }),
    {
        let mut cut: usize = 0;
        while cut < self.pending.len() && self.pending[cut].at_tick <= tick
            invariant
                0 <= cut <= self.pending.len(),
                forall|i: int| 0 <= i < cut ==> self.pending@[i].at_tick <= tick,
            decreases self.pending.len() - cut,
        {
            cut = cut + 1;
        }
        proof {
            lemma_due_titans_exact(self.pending@, tick, cut as nat);
        }
        let ghost p = self.pending@;
        let mut due = self.pending.split_off(cut);
        std::mem::swap(&mut due, &mut self.pending);
        assert(due@ =~= p.take(cut as int));
        assert(self.pending@ =~= p.skip(cut as int));
        self.released = self.released + cut as u32;
        due
    }
}

} // verus!
