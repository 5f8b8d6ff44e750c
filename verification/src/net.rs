//! net — the seam for multiplayer: one inbox that every source of intents writes into, and
//! from which intents are delivered to the players, with an optional fixed latency (`--lag`).

pub mod wire;
pub mod session;
pub mod local;
pub mod socket;

use std::collections::{BTreeMap, VecDeque};
use vstd::prelude::*;
use crate::shared::{lemma_integer_keys_are_ordered, Intent, PlayerId};

verus! {

/// Where the intents come from. Today there is exactly one transport.
#[derive(Clone, Copy, Debug, Default, PartialEq, Eq, Structural)]
pub enum Transport {
    #[default]
    LocalOnly,
}

/// One letter in the inbox: the tick from which it may be delivered, who it is for, and what.
pub type Letter = (u64, PlayerId, Intent);

/// How many letters at the front of `q` are due at tick `now`: delivery stops at the first
/// letter that is not.
pub open spec fn due_count(q: Seq<Letter>, now: u64) -> nat
    decreases q.len(),
{
    if q.len() == 0 || q[0].0 > now {
        0
    } else {
        1 + due_count(q.drop_first(), now)
    }
}

/// The map of last-delivered intents after delivering `s` in order, starting from `m`.
pub open spec fn remember(m: Map<u32, Intent>, s: Seq<Letter>) -> Map<u32, Intent>
    decreases s.len(),
{
    if s.len() == 0 {
        m
    } else {
        remember(m, s.drop_last()).insert(s.last().1.0, s.last().2)
    }
}

/// A letter as it is handed out: who, and what.
pub open spec fn handed_out(l: Letter) -> (PlayerId, Intent) {
    (l.1, l.2)
}

proof fn lemma_due_count_bound(q: Seq<Letter>, now: u64)
    ensures
        due_count(q, now) <= q.len(),
        forall|i: int| 0 <= i < due_count(q, now) ==> q[i].0 <= now,
        due_count(q, now) < q.len() ==> q[due_count(q, now) as int].0 > now,
    decreases q.len(),
{
    if q.len() > 0 && q[0].0 <= now {
        lemma_due_count_bound(q.drop_first(), now);
        assert forall|i: int| 0 <= i < due_count(q, now) implies q[i].0 <= now by {
            if i > 0 {
                assert(q[i] == q.drop_first()[i - 1]);
            }
        }
    }
}

proof fn lemma_due_count_exact(q: Seq<Letter>, now: u64, k: nat)
    requires
        k <= q.len(),
        forall|i: int| 0 <= i < k ==> q[i].0 <= now,
        k == q.len() || q[k as int].0 > now,
    ensures
        due_count(q, now) == k,
    decreases q.len(),
{
    if k > 0 {
        assert forall|i: int| 0 <= i < k - 1 implies q.drop_first()[i].0 <= now by {
            assert(q.drop_first()[i] == q[i + 1]);
        }
        if k < q.len() {
            assert(q.drop_first()[k - 1] == q[k as int]);
        }
        lemma_due_count_exact(q.drop_first(), now, (k - 1) as nat);
    }
}

/// Letters in the order of their due ticks.
pub open spec fn in_due_order(q: Seq<Letter>) -> bool {
    forall|i: int, j: int| 0 <= i <= j < q.len() ==> q[i].0 <= q[j].0
}

/// The latency holds a letter back by exactly that many ticks: thrown into an empty inbox at
/// `jetzt`, it is due at every tick from `jetzt + lag` on and at none before.
pub proof fn law_lag_holds_back_exactly(lag: u64, jetzt: u64, spieler: PlayerId, intent: Intent, now: u64)
    requires
        jetzt + lag <= u64::MAX,
    ensures
        due_count(Seq::<Letter>::empty().push(((jetzt + lag) as u64, spieler, intent)), now) == (
        if now >= jetzt + lag {
            1nat
        } else {
            0nat
        }),
{
    let q = Seq::<Letter>::empty().push(((jetzt + lag) as u64, spieler, intent));
    assert(q.drop_first() =~= Seq::<Letter>::empty());
    assert(q[0].0 == jetzt + lag);
    assert(due_count(q.drop_first(), now) == 0);
}

/// Nothing is lost when nobody collects: once every waiting letter is due, one collection hands
/// out all of them.
pub proof fn law_late_collection_gets_everything(q: Seq<Letter>, now: u64)
    requires
        forall|i: int| 0 <= i < q.len() ==> q[i].0 <= now,
    ensures
        due_count(q, now) == q.len(),
{
    lemma_due_count_exact(q, now, q.len());
}

/// In a queue kept in due order, a collection hands out exactly the letters that are due, and
/// leaves exactly the ones that are not.
pub proof fn law_due_letters_are_exactly_the_handed_out(q: Seq<Letter>, now: u64)
    requires
        in_due_order(q),
    ensures
        forall|i: int| 0 <= i < q.len() ==> (i < due_count(q, now) <==> q[i].0 <= now),
{
    lemma_due_count_bound(q, now);
    let n = due_count(q, now) as int;
    assert forall|i: int| 0 <= i < q.len() implies (i < due_count(q, now) <==> q[i].0 <= now) by {
        if i >= n {
            assert(q[n].0 <= q[i].0);
        }
    }
}

/// One latency and a clock that does not run backwards keep the queue in due order: a letter
/// thrown in is never due before one that was thrown in earlier.
pub proof fn law_a_steady_clock_keeps_due_order(q: Seq<Letter>, l: Letter)
    requires
        in_due_order(q),
        forall|i: int| 0 <= i < q.len() ==> q[i].0 <= l.0,
    ensures
        in_due_order(q.push(l)),
{
    assert forall|i: int, j: int| 0 <= i <= j < q.push(l).len() implies q.push(l)[i].0 <= q.push(
        l,
    )[j].0 by {
        if j < q.len() {
            assert(q.push(l)[i] == q[i]);
            assert(q.push(l)[j] == q[j]);
        } else if i < q.len() {
            assert(q.push(l)[i] == q[i]);
        }
    }
}

/// The newest intent for `spieler` among the delivered letters `s`, if any is for him.
pub open spec fn newest_in(s: Seq<(PlayerId, Intent)>, spieler: PlayerId) -> Option<Intent>
    decreases s.len(),
{
    if s.len() == 0 {
        None
    } else if s.last().0 == spieler {
        Some(s.last().1)
    } else {
        newest_in(s.drop_last(), spieler)
    }
}

/// What a player's body is handed from one delivery: the newest of the letters for him, or
/// nothing — then he keeps the intent he already has.
pub fn neuester_fuer(faellig: &[(PlayerId, Intent)], spieler: PlayerId) -> (r: Option<Intent>)
    ensures
        r == newest_in(faellig@, spieler),
{
    let mut i: usize = faellig.len();
    assert(faellig@.take(i as int) =~= faellig@);
    while i > 0
        invariant
            0 <= i <= faellig@.len(),
            newest_in(faellig@, spieler) == newest_in(faellig@.take(i as int), spieler),
        decreases i,
    {
        let (wer, intent) = faellig[i - 1];
        assert(faellig@.take(i as int).drop_last() =~= faellig@.take(i - 1));
        if wer.0 == spieler.0 {
            return Some(intent);
        }
        i = i - 1;
    }
    None
}

/// The one channel. Nobody writes an `Intent` straight at a player: everybody throws it in
/// here, and [`Posteingang::abholen`] hands out what is due.
#[derive(Debug, Default)]
pub struct Posteingang {
    /// How many ticks a letter waits before it may be delivered (`--lag`).
    pub lag_ticks: u64,
    warteschlange: VecDeque<Letter>,
    /// The intent last delivered per player, by the player's number.
    letzter: BTreeMap<u32, Intent>,
}

impl Posteingang {
    /// The latency letters are held back by.
    pub closed spec fn lag(&self) -> u64 {
        self.lag_ticks
    }

    /// What is waiting, oldest first.
    pub closed spec fn queue(&self) -> Seq<Letter> {
        self.warteschlange@
    }

    /// The last intent delivered to each player.
    pub closed spec fn latest(&self) -> Map<u32, Intent> {
        self.letzter@
    }

    /// An inbox with a fixed latency, nothing waiting and nothing delivered.
    pub fn mit_lag(lag_ticks: u64) -> (p: Self)
        ensures
            p.lag() == lag_ticks,
            p.queue() == Seq::<Letter>::empty(),
            p.latest() == Map::<u32, Intent>::empty(),
    {
        Posteingang { lag_ticks, warteschlange: VecDeque::new(), letzter: BTreeMap::new() }
    }

    /// Throws a letter in: it may be delivered from tick `jetzt + lag_ticks` on.
    pub fn einwerfen(&mut self, spieler: PlayerId, intent: Intent, jetzt: u64)
        requires
            jetzt + old(self).lag() <= u64::MAX,
        ensures
            final(self).lag() == old(self).lag(),
            final(self).queue() == old(self).queue().push(
                ((jetzt + old(self).lag()) as u64, spieler, intent),
            ),
            final(self).latest() == old(self).latest(),
    {
        let faellig = jetzt + self.lag_ticks;
        self.warteschlange.push_back((faellig, spieler, intent));
    }

    /// Hands out everything at the front that is due at `jetzt`, in the order it was thrown
    /// in, and remembers each one as that player's last intent.
    pub fn abholen(&mut self, jetzt: u64) -> (fertig: Vec<(PlayerId, Intent)>)
        ensures
            ({
                let n = due_count(old(self).queue(), jetzt) as int;
                &&& fertig@ == old(self).queue().take(n).map_values(|l: Letter| handed_out(l))
                &&& final(self).queue() == old(self).queue().skip(n)
                &&& final(self).latest() == remember(old(self).latest(), old(self).queue().take(n))
            }),
            final(self).lag() == old(self).lag(),
    {
        broadcast use vstd::std_specs::vecdeque::axiom_spec_len;
        proof {
            lemma_integer_keys_are_ordered();
        }
        let ghost q0 = self.warteschlange@;
        let ghost m0 = self.letzter@;
        let mut fertig: Vec<(PlayerId, Intent)> = Vec::new();
        let ghost mut k: int = 0;
        loop
            invariant
                0 <= k <= q0.len(),
                forall|i: int| 0 <= i < k ==> q0[i].0 <= jetzt,
                self.warteschlange@ == q0.skip(k),
                self.letzter@ == remember(m0, q0.take(k)),
                fertig@ == q0.take(k).map_values(|l: Letter| handed_out(l)),
                self.lag_ticks == old(self).lag_ticks,
            ensures
                k <= q0.len(),
                forall|i: int| 0 <= i < k ==> q0[i].0 <= jetzt,
                k == q0.len() || q0[k].0 > jetzt,
                self.warteschlange@ == q0.skip(k),
                self.letzter@ == remember(m0, q0.take(k)),
                fertig@ == q0.take(k).map_values(|l: Letter| handed_out(l)),
                self.lag_ticks == old(self).lag_ticks,
            decreases q0.len() - k,
        {
            if self.warteschlange.len() == 0 {
                break;
            }
            let faellig = self.warteschlange[0].0;
            if faellig > jetzt {
                break;
            }
            let front = self.warteschlange.pop_front();
            match front {
                Some((_, spieler, intent)) => {
                    self.letzter.insert(spieler.0, intent);
                    fertig.push((spieler, intent));
                    proof {
                        assert(q0.take(k + 1).drop_last() =~= q0.take(k));
                        assert(q0.take(k + 1).last() == q0[k]);
                        assert(q0.take(k + 1).map_values(|l: Letter| handed_out(l)) =~= q0.take(
                            k,
                        ).map_values(|l: Letter| handed_out(l)).push(handed_out(q0[k])));
                        assert(q0.skip(k).subrange(1, q0.skip(k).len() as int) =~= q0.skip(k + 1));
                        k = k + 1;
                    }
                },
                None => {
                    break;
                },
            }
        }
        proof {
            lemma_due_count_exact(q0, jetzt, k as nat);
        }
        fertig
    }

    /// The intent last delivered to this player, if any ever was.
    pub fn letzter(&self, spieler: PlayerId) -> (r: Option<Intent>)
        ensures
            r == (if self.latest().contains_key(spieler.0) {
                Some(self.latest()[spieler.0])
            } else {
                None::<Intent>
            }),
    {
        proof {
            lemma_integer_keys_are_ordered();
        }
        match self.letzter.get(&spieler.0) {
            Some(i) => Some(*i),
            None => None,
        }
    }

    /// How many letters are still waiting.
    pub fn wartend(&self) -> (n: usize)
        ensures
            n == self.queue().len(),
    {
        broadcast use vstd::std_specs::vecdeque::axiom_spec_len;
        self.warteschlange.len()
    }
}

} // verus!
