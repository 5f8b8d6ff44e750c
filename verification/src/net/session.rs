//! **Who is here** — the session, and the seat that outlives the connection.
//!
//! A [`Seat`] is a chair: it is created the moment a peer's first frame arrives and it stays
//! his for a hold window after his line drops. Silence first makes a seat *quiet* (after
//! `timeout_ticks`), and only `hold_ticks` after that is the chair freed. A local seat is never
//! swept: there is no line to it that can drop.

use vstd::prelude::*;
use vstd::string::StringExecFns;
use crate::shared::{
    find_id, id_listed, id_rank, ids_ascending, lemma_id_rank_is, lemma_id_rank_splits,
    lemma_insert_at_rank_ascends, PlayerId,
};

verus! {

/// Where a seat's intents come from.
#[derive(Debug, PartialEq, Eq)]
pub enum SeatKind {
    /// This machine's keyboard, or the script driver standing in for it.
    Local,
    /// A peer, by the address his frames come from, written out as text (`"127.0.0.1:40000"`).
    Remote(String),
}

impl SeatKind {
    pub fn is_local(&self) -> (r: bool)
        ensures
            r == (*self is Local),
    {
        match self {
            SeatKind::Local => true,
            SeatKind::Remote(_) => false,
        }
    }
}

/// One chair in the session.
#[derive(Debug)]
pub struct Seat {
    pub kind: SeatKind,
    /// What the lobby calls him. Not an identity — the [`PlayerId`] is.
    pub name: String,
    /// The tick his last frame arrived on.
    pub last_heard_tick: u64,
    /// Since when the line has been quiet, or `None` while he is connected.
    pub quiet_since: Option<u64>,
}

impl Seat {
    /// Whether he is answering right now. A quiet seat is still his.
    pub fn connected(&self) -> (r: bool)
        ensures
            r == (self.quiet_since is None),
    {
        self.quiet_since.is_none()
    }
}

/// One entry of the roster: the player's id and his chair.
pub type Entry = (PlayerId, Seat);

/// `a - b`, or `0` when `b` is later.
pub open spec fn ticks_since(a: u64, b: u64) -> int {
    if a >= b {
        a - b
    } else {
        0
    }
}

/// The chair `id` gets when he sits down: a fresh one, or his old one with the line refreshed.
pub open spec fn sat_down(s: Seq<Entry>, id: PlayerId, kind: SeatKind, name: String, tick: u64) -> Seq<
    Entry,
> {
    let at = id_rank(s, id.0) as int;
    if id_listed(s, id.0) {
        s.update(
            at,
            (
                id,
                Seat {
                    kind: kind,
                    name: s[at].1.name,
                    last_heard_tick: tick,
                    quiet_since: None,
                },
            ),
        )
    } else {
        s.insert(at, (id, Seat { kind: kind, name: name, last_heard_tick: tick, quiet_since: None }))
    }
}

/// The roster after a frame from `id` arrived at `tick`: his line is live again. An id without
/// a seat changes nothing.
pub open spec fn heard_at(s: Seq<Entry>, id: PlayerId, tick: u64) -> Seq<Entry> {
    let at = id_rank(s, id.0) as int;
    if id_listed(s, id.0) {
        s.update(at, (id, Seat { last_heard_tick: tick, quiet_since: None, ..s[at].1 }))
    } else {
        s
    }
}

/// Whether a sweep at `tick` frees this seat: a remote seat quiet for more than `hold_ticks`.
pub open spec fn frees(seat: Seat, tick: u64, hold_ticks: u64) -> bool {
    &&& !(seat.kind is Local)
    &&& match seat.quiet_since {
        Some(since) => ticks_since(tick, since) > hold_ticks,
        None => false,
    }
}

/// What a sweep at `tick` makes of a seat it keeps: a remote line silent for more than
/// `timeout_ticks` goes quiet now.
pub open spec fn swept(seat: Seat, tick: u64, timeout_ticks: u64) -> Seat {
    if !(seat.kind is Local) && seat.quiet_since is None && ticks_since(tick, seat.last_heard_tick)
        > timeout_ticks {
        Seat { quiet_since: Some(tick), ..seat }
    } else {
        seat
    }
}

/// The roster a sweep leaves: every seat it does not free, swept, in the same order.
pub open spec fn kept_by_sweep(s: Seq<Entry>, tick: u64, timeout_ticks: u64, hold_ticks: u64) -> Seq<
    Entry,
>
    decreases s.len(),
{
    if s.len() == 0 {
        s
    } else {
        let rest = kept_by_sweep(s.drop_last(), tick, timeout_ticks, hold_ticks);
        if frees(s.last().1, tick, hold_ticks) {
            rest
        } else {
            rest.push((s.last().0, swept(s.last().1, tick, timeout_ticks)))
        }
    }
}

/// The ids a sweep frees, in id order.
pub open spec fn freed_by_sweep(s: Seq<Entry>, tick: u64, hold_ticks: u64) -> Seq<PlayerId>
    decreases s.len(),
{
    if s.len() == 0 {
        Seq::empty()
    } else {
        let rest = freed_by_sweep(s.drop_last(), tick, hold_ticks);
        if frees(s.last().1, tick, hold_ticks) {
            rest.push(s.last().0)
        } else {
            rest
        }
    }
}

/// The seats at this keyboard.
pub open spec fn locals(s: Seq<Entry>) -> Seq<Entry>
    decreases s.len(),
{
    if s.len() == 0 {
        s
    } else if s.last().1.kind is Local {
        locals(s.drop_last()).push(s.last())
    } else {
        locals(s.drop_last())
    }
}

/// The ids of the seats that are not at this keyboard, in id order.
pub open spec fn remote_ids(s: Seq<Entry>) -> Seq<PlayerId>
    decreases s.len(),
{
    if s.len() == 0 {
        Seq::empty()
    } else if s.last().1.kind is Local {
        remote_ids(s.drop_last())
    } else {
        remote_ids(s.drop_last()).push(s.last().0)
    }
}

/// Sitting down seats a player, and sitting down again gets him no second chair: the roster
/// keeps its length, stays in id order, and he keeps the name he first sat down with.
pub proof fn law_a_returning_player_gets_no_second_seat(
    s: Seq<Entry>,
    id: PlayerId,
    kind: SeatKind,
    name: String,
    tick: u64,
    again_kind: SeatKind,
    again_name: String,
    again_tick: u64,
)
    requires
        ids_ascending(s),
    ensures
        ({
            let once = sat_down(s, id, kind, name, tick);
            let twice = sat_down(once, id, again_kind, again_name, again_tick);
            &&& ids_ascending(once)
            &&& id_listed(once, id.0)
            &&& twice.len() == once.len()
            &&& ids_ascending(twice)
            &&& twice[id_rank(twice, id.0) as int].1.name == once[id_rank(once, id.0) as int].1.name
        }),
{
    lemma_sitting_down_seats(s, id, kind, name, tick);
    let once = sat_down(s, id, kind, name, tick);
    lemma_sitting_down_seats(once, id, again_kind, again_name, again_tick);
}

proof fn lemma_sitting_down_seats(s: Seq<Entry>, id: PlayerId, kind: SeatKind, name: String, tick: u64)
    requires
        ids_ascending(s),
    ensures
        ({
            let t = sat_down(s, id, kind, name, tick);
            &&& ids_ascending(t)
            &&& id_rank(t, id.0) == id_rank(s, id.0)
            &&& id_listed(t, id.0)
            &&& id_listed(s, id.0) ==> t.len() == s.len()
            &&& id_listed(s, id.0) ==> t[id_rank(t, id.0) as int].1.name == s[id_rank(
                s,
                id.0,
            ) as int].1.name
        }),
{
    lemma_id_rank_splits(s, id.0);
    let at = id_rank(s, id.0) as int;
    let t = sat_down(s, id, kind, name, tick);
    if id_listed(s, id.0) {
        assert forall|i: int, j: int| 0 <= i < j < t.len() implies t[i].0.0 < t[j].0.0 by {
            assert(t[i].0.0 == s[i].0.0);
            assert(t[j].0.0 == s[j].0.0);
        }
        lemma_id_rank_is(t, id.0, at);
    } else {
        lemma_insert_at_rank_ascends(
            s,
            (id, Seat { kind: kind, name: name, last_heard_tick: tick, quiet_since: None }),
        );
        assert forall|i: int| 0 <= i < at implies t[i].0.0 < id.0 by {
            assert(t[i] == s[i]);
        }
        lemma_id_rank_is(t, id.0, at);
    }
}

/// A sweep never touches the seats at this keyboard: the local seats after it are the local
/// seats before it, unchanged and in the same order.
pub proof fn law_local_seats_survive_every_sweep(
    s: Seq<Entry>,
    tick: u64,
    timeout_ticks: u64,
    hold_ticks: u64,
)
    ensures
        locals(kept_by_sweep(s, tick, timeout_ticks, hold_ticks)) == locals(s),
    decreases s.len(),
{
    if s.len() > 0 {
        law_local_seats_survive_every_sweep(s.drop_last(), tick, timeout_ticks, hold_ticks);
        let rest = kept_by_sweep(s.drop_last(), tick, timeout_ticks, hold_ticks);
        if !frees(s.last().1, tick, hold_ticks) {
            let e = (s.last().0, swept(s.last().1, tick, timeout_ticks));
            assert(rest.push(e).drop_last() =~= rest);
            assert(rest.push(e).last() == e);
        }
    }
}

/// The hold starts when the line goes quiet: a seat that is connected is never freed, a seat
/// that goes quiet in a sweep is not freed by that same sweep, and a local seat is never
/// touched at all.
pub proof fn law_the_hold_starts_when_the_line_goes_quiet(
    seat: Seat,
    tick: u64,
    timeout_ticks: u64,
    hold_ticks: u64,
)
    ensures
        seat.quiet_since is None ==> !frees(seat, tick, hold_ticks),
        seat.quiet_since is None ==> !frees(swept(seat, tick, timeout_ticks), tick, hold_ticks),
        seat.kind is Local ==> !frees(seat, tick, hold_ticks) && swept(seat, tick, timeout_ticks)
            == seat,
{
}

/// Closing the door reports exactly whom it sends home: a seat's id is among the reported ids
/// exactly when the seat is not at this keyboard — whatever its line is doing, quiet or
/// connected — and a seat stays exactly when it is at this keyboard. Every seat is one or the
/// other, never both and never neither.
pub proof fn law_closing_the_door_reports_every_peer(s: Seq<Entry>)
    requires
        ids_ascending(s),
    ensures
        forall|i: int|
            0 <= i < s.len() ==> (remote_ids(s).contains(#[trigger] s[i].0) <==> !(s[i].1.kind is Local)),
        forall|i: int| 0 <= i < s.len() ==> (locals(s).contains(#[trigger] s[i]) <==> s[i].1.kind is Local),
        remote_ids(s).len() + locals(s).len() == s.len(),
{
    lemma_door_partition(s);
}

proof fn lemma_door_partition(s: Seq<Entry>)
    requires
        ids_ascending(s),
    ensures
        forall|i: int|
            0 <= i < s.len() ==> (remote_ids(s).contains(#[trigger] s[i].0) <==> !(s[i].1.kind is Local)),
        forall|i: int| 0 <= i < s.len() ==> (locals(s).contains(#[trigger] s[i]) <==> s[i].1.kind is Local),
        remote_ids(s).len() + locals(s).len() == s.len(),
        s.len() > 0 ==> forall|j: int| 0 <= j < remote_ids(s).len() ==> #[trigger] remote_ids(s)[j].0 <= s.last().0.0,
        s.len() > 0 ==> forall|j: int| 0 <= j < locals(s).len() ==> #[trigger] locals(s)[j].0.0 <= s.last().0.0,
    decreases s.len(),
{
    if s.len() > 0 {
        let p = s.drop_last();
        let x = s.last();
        assert(ids_ascending(p));
        lemma_door_partition(p);
        let rp = remote_ids(p);
        let lp = locals(p);
        if p.len() > 0 {
            assert(p.last().0.0 < x.0.0);
        }
        assert forall|j: int| 0 <= j < rp.len() implies rp[j].0 < x.0.0 by {
            if p.len() > 0 {
                assert(rp[j].0 <= p.last().0.0);
            }
        }
        assert forall|j: int| 0 <= j < lp.len() implies lp[j].0.0 < x.0.0 by {
            if p.len() > 0 {
                assert(lp[j].0.0 <= p.last().0.0);
            }
        }
        assert(!rp.contains(x.0)) by {
            if rp.contains(x.0) {
                let j = choose|j: int| 0 <= j < rp.len() && rp[j] == x.0;
                assert(rp[j].0 < x.0.0);
            }
        }
        assert(!lp.contains(x)) by {
            if lp.contains(x) {
                let j = choose|j: int| 0 <= j < lp.len() && lp[j] == x;
                assert(lp[j].0.0 < x.0.0);
            }
        }
        assert forall|i: int| 0 <= i < s.len() implies (remote_ids(s).contains(#[trigger] s[i].0)
            <==> !(s[i].1.kind is Local)) by {
            if i < s.len() - 1 {
                assert(s[i] == p[i]);
                assert(s[i].0.0 < x.0.0);
                if !(x.1.kind is Local) {
                    assert(remote_ids(s) == rp.push(x.0));
                    if remote_ids(s).contains(s[i].0) && !rp.contains(s[i].0) {
                        let j = choose|j: int| 0 <= j < rp.len() + 1 && rp.push(x.0)[j] == s[i].0;
                        assert(j == rp.len());
                    }
                    if rp.contains(s[i].0) {
                        let j = choose|j: int| 0 <= j < rp.len() && rp[j] == s[i].0;
                        assert(rp.push(x.0)[j] == s[i].0);
                    }
                }
            } else {
                if !(x.1.kind is Local) {
                    assert(remote_ids(s) == rp.push(x.0));
                    assert(rp.push(x.0)[rp.len() as int] == x.0);
                }
            }
        }
        assert forall|i: int| 0 <= i < s.len() implies (locals(s).contains(#[trigger] s[i])
            <==> s[i].1.kind is Local) by {
            if i < s.len() - 1 {
                assert(s[i] == p[i]);
                assert(s[i].0.0 < x.0.0);
                if x.1.kind is Local {
                    assert(locals(s) == lp.push(x));
                    if locals(s).contains(s[i]) && !lp.contains(s[i]) {
                        let j = choose|j: int| 0 <= j < lp.len() + 1 && lp.push(x)[j] == s[i];
                        assert(j == lp.len());
                    }
                    if lp.contains(s[i]) {
                        let j = choose|j: int| 0 <= j < lp.len() && lp[j] == s[i];
                        assert(lp.push(x)[j] == s[i]);
                    }
                }
            } else {
                if x.1.kind is Local {
                    assert(locals(s) == lp.push(x));
                    assert(lp.push(x)[lp.len() as int] == x);
                }
            }
        }
        assert forall|j: int| 0 <= j < remote_ids(s).len() implies #[trigger] remote_ids(s)[j].0
            <= s.last().0.0 by {
            if j < rp.len() {
                assert(remote_ids(s)[j] == rp[j]);
            }
        }
        assert forall|j: int| 0 <= j < locals(s).len() implies #[trigger] locals(s)[j].0.0
            <= s.last().0.0 by {
            if j < lp.len() {
                assert(locals(s)[j] == lp[j]);
            }
        }
    }
}

/// Everybody in this session, in id order.
#[derive(Debug)]
pub struct Roster {
    seats: Vec<Entry>,
}

impl Roster {
    /// The seats, in id order.
    pub closed spec fn entries(&self) -> Seq<Entry> {
        self.seats@
    }

    /// The roster's one invariant: every id once, ascending.
    pub open spec fn wf(&self) -> bool {
        ids_ascending(self.entries())
    }

    /// Nobody here.
    pub fn new() -> (r: Roster)
        ensures
            r.wf(),
            r.entries() == Seq::<Entry>::empty(),
    {
        Roster { seats: Vec::new() }
    }

    /// Sits somebody down, or moves him back into the chair he already had.
    ///
    /// **Returns whether this is a new seat** — a new seat needs a body and a returning one
    /// already has his. A returning player keeps his name; his kind (the port he comes back
    /// on) and his line are refreshed.
    pub fn seat(&mut self, id: PlayerId, kind: SeatKind, name: String, tick: u64) -> (new: bool)
        requires
            old(self).wf(),
        ensures
            final(self).wf(),
            new == !id_listed(old(self).entries(), id.0),
            final(self).entries() == sat_down(old(self).entries(), id, kind, name, tick),
    {
        let at = find_id(&self.seats, id);
        let ghost s = self.seats@;
        proof {
            lemma_id_rank_splits(s, id.0);
        }
        if at < self.seats.len() && self.seats[at].0.0 == id.0 {
            let (pid, mut seat) = self.seats.remove(at);
            seat.kind = kind;
            seat.last_heard_tick = tick;
            seat.quiet_since = None;
            self.seats.insert(at, (pid, seat));
            assert(self.seats@ =~= sat_down(s, id, kind, name, tick));
            false
        } else {
            self.seats.insert(
                at,
                (id, Seat { kind, name, last_heard_tick: tick, quiet_since: None }),
            );
            assert(self.seats@ =~= sat_down(s, id, kind, name, tick));
            assert forall|i: int, j: int|
                0 <= i < j < self.seats@.len() implies self.seats@[i].0.0
                < self.seats@[j].0.0 by {
                if j < at {
                } else if i > at {
                    assert(self.seats@[i] == s[i - 1]);
                    assert(self.seats@[j] == s[j - 1]);
                } else if i == at {
                    assert(self.seats@[j] == s[j - 1]);
                } else if j == at {
                } else {
                    assert(self.seats@[j] == s[j - 1]);
                }
            }
            true
        }
    }

    /// A frame arrived from him: his line is live again. Nothing happens for an id without a
    /// seat.
    pub fn heard(&mut self, id: PlayerId, tick: u64)
        requires
            old(self).wf(),
        ensures
            final(self).wf(),
            final(self).entries() == heard_at(old(self).entries(), id, tick),
    {
        let at = find_id(&self.seats, id);
        let ghost s = self.seats@;
        if at < self.seats.len() && self.seats[at].0.0 == id.0 {
            let (pid, mut seat) = self.seats.remove(at);
            seat.last_heard_tick = tick;
            seat.quiet_since = None;
            self.seats.insert(at, (pid, seat));
            proof {
                let want = s.update(
                    at as int,
                    (id, Seat { last_heard_tick: tick, quiet_since: None, ..s[at as int].1 }),
                );
                assert(self.seats@ =~= want);
                assert forall|i: int, j: int|
                    0 <= i < j < self.seats@.len() implies self.seats@[i].0.0
                    < self.seats@[j].0.0 by {
                    assert(self.seats@[i].0 == s[i].0);
                    assert(self.seats@[j].0 == s[j].0);
                }
            }
        }
    }

    /// Marks everybody who has gone quiet, and frees the seats whose hold has run out.
    /// Returns the ids whose seats were freed, in id order.
    ///
    /// A seat that goes quiet in this sweep is not also freed by it: the hold starts now.
    pub fn sweep(&mut self, tick: u64, timeout_ticks: u64, hold_ticks: u64) -> (freed: Vec<
        PlayerId,
    >)
        requires
            old(self).wf(),
        ensures
            final(self).wf(),
            final(self).entries() == kept_by_sweep(
                old(self).entries(),
                tick,
                timeout_ticks,
                hold_ticks,
            ),
            freed@ == freed_by_sweep(old(self).entries(), tick, hold_ticks),
    {
        let ghost s = self.seats@;
        let mut rest: Vec<Entry> = Vec::new();
        std::mem::swap(&mut rest, &mut self.seats);
        let mut freed: Vec<PlayerId> = Vec::new();
        let ghost mut i: int = 0;
        while rest.len() > 0
            invariant
                ids_ascending(s),
                0 <= i <= s.len(),
                rest@ == s.skip(i),
                self.seats@ == kept_by_sweep(s.take(i), tick, timeout_ticks, hold_ticks),
                freed@ == freed_by_sweep(s.take(i), tick, hold_ticks),
                ids_ascending(self.seats@),
                i < s.len() ==> forall|j: int|
                    0 <= j < self.seats@.len() ==> self.seats@[j].0.0 < s[i].0.0,
            decreases rest.len(),
        {
            let (pid, mut seat) = rest.remove(0);
            proof {
                assert(s.take(i + 1).drop_last() =~= s.take(i));
                assert(s[i] == (pid, seat));
                assert(s.skip(i).remove(0) =~= s.skip(i + 1));
            }
            let local = seat.kind.is_local();
            let mut frees_now = false;
            if !local {
                match seat.quiet_since {
                    None => {
                        if tick.saturating_sub(seat.last_heard_tick) > timeout_ticks {
                            seat.quiet_since = Some(tick);
                        }
                    },
                    Some(since) => {
                        if tick.saturating_sub(since) > hold_ticks {
                            frees_now = true;
                        }
                    },
                }
            }
            if frees_now {
                freed.push(pid);
            } else {
                let ghost before = self.seats@;
                self.seats.push((pid, seat));
                proof {
                    assert forall|a: int, b: int|
                        0 <= a < b < self.seats@.len() implies self.seats@[a].0.0
                        < self.seats@[b].0.0 by {
                        if b == self.seats@.len() - 1 {
                            assert(self.seats@[a] == before[a]);
                        } else {
                            assert(self.seats@[a] == before[a]);
                            assert(self.seats@[b] == before[b]);
                        }
                    }
                }
            }
            proof {
                if i + 1 < s.len() {
                    assert(s[i].0.0 < s[i + 1].0.0);
                }
                i = i + 1;
            }
        }
        proof {
            assert(s.take(s.len() as int) =~= s);
        }
        freed
    }

    /// Drops everybody who is not sitting at this keyboard — closing the door. Returns their
    /// ids, in id order.
    pub fn clear_remote(&mut self) -> (going: Vec<PlayerId>)
        requires
            old(self).wf(),
        ensures
            final(self).wf(),
            final(self).entries() == locals(old(self).entries()),
            going@ == remote_ids(old(self).entries()),
    {
        let ghost s = self.seats@;
        let mut rest: Vec<Entry> = Vec::new();
        std::mem::swap(&mut rest, &mut self.seats);
        let mut going: Vec<PlayerId> = Vec::new();
        let ghost mut i: int = 0;
        while rest.len() > 0
            invariant
                ids_ascending(s),
                0 <= i <= s.len(),
                rest@ == s.skip(i),
                self.seats@ == locals(s.take(i)),
                going@ == remote_ids(s.take(i)),
                ids_ascending(self.seats@),
                i < s.len() ==> forall|j: int|
                    0 <= j < self.seats@.len() ==> self.seats@[j].0.0 < s[i].0.0,
            decreases rest.len(),
        {
            let entry = rest.remove(0);
            proof {
                assert(s.take(i + 1).drop_last() =~= s.take(i));
                assert(s[i] == entry);
                assert(s.skip(i).remove(0) =~= s.skip(i + 1));
            }
            if entry.1.kind.is_local() {
                let ghost before = self.seats@;
                self.seats.push(entry);
                proof {
                    assert forall|a: int, b: int|
                        0 <= a < b < self.seats@.len() implies self.seats@[a].0.0
                        < self.seats@[b].0.0 by {
                        if b == self.seats@.len() - 1 {
                            assert(self.seats@[a] == before[a]);
                        } else {
                            assert(self.seats@[a] == before[a]);
                            assert(self.seats@[b] == before[b]);
                        }
                    }
                }
            } else {
                going.push(entry.0);
            }
            proof {
                if i + 1 < s.len() {
                    assert(s[i].0.0 < s[i + 1].0.0);
                }
                i = i + 1;
            }
        }
        proof {
            assert(s.take(s.len() as int) =~= s);
        }
        going
    }

    /// His chair, if he has one.
    pub fn get(&self, id: PlayerId) -> (r: Option<&Seat>)
        requires
            self.wf(),
        ensures
            r is Some == id_listed(self.entries(), id.0),
            r is Some ==> *r->0 == self.entries()[id_rank(self.entries(), id.0) as int].1,
    {
        let at = find_id(&self.seats, id);
        if at < self.seats.len() && self.seats[at].0.0 == id.0 {
            Some(&self.seats[at].1)
        } else {
            None
        }
    }

    /// Whether he has a chair.
    pub fn contains(&self, id: PlayerId) -> (r: bool)
        requires
            self.wf(),
        ensures
            r == id_listed(self.entries(), id.0),
    {
        let at = find_id(&self.seats, id);
        at < self.seats.len() && self.seats[at].0.0 == id.0
    }

    /// Everybody, in id order.
    pub fn iter(&self) -> (r: &[Entry])
        ensures
            r@ == self.entries(),
    {
        self.seats.as_slice()
    }

    pub fn len(&self) -> (n: usize)
        ensures
            n == self.entries().len(),
    {
        self.seats.len()
    }

    pub fn is_empty(&self) -> (r: bool)
        ensures
            r == (self.entries().len() == 0),
    {
        self.seats.len() == 0
    }
}

impl Default for Roster {
    fn default() -> (r: Roster)
        ensures
            r.wf(),
            r.entries() == Seq::<Entry>::empty(),
    {
        Roster::new()
    }
}

/// Seats a local player once he exists: without a chair he is seated at this keyboard as
/// `"you"`, and a player who already has one is left alone — so the roster is only written when
/// somebody new sits down. Returns whether he was seated now.
pub fn seat_the_local_player(roster: &mut Roster, id: PlayerId, tick: u64) -> (seated: bool)
    requires
        old(roster).wf(),
    ensures
        final(roster).wf(),
        seated == !id_listed(old(roster).entries(), id.0),
        !seated ==> final(roster).entries() == old(roster).entries(),
        seated ==> exists|you: String|
            you@ == "you"@ && #[trigger] sat_down(old(roster).entries(), id, SeatKind::Local, you, tick)
                == final(roster).entries(),
{
    if roster.contains(id) {
        return false;
    }
    let you = String::from_str("you");
    proof {
        reveal_strlit("you");
    }
    let ghost name = you;
    roster.seat(id, SeatKind::Local, you, tick);
    assert(sat_down(old(roster).entries(), id, SeatKind::Local, name, tick) == roster.entries());
    true
}

} // verus!
