//! The open door: who may speak through it, and what a datagram that arrives becomes.
//!
//! A chair belongs to the address a peer's frames come from, not to the number a frame claims:
//! the address book is the authentication. A peer cannot send an intent in somebody else's
//! name, because the frame's own player field is never read.

use vstd::prelude::*;
use crate::data::{find_key, key_index, lemma_key_index};
use crate::shared::{IdCounter, PlayerId};
use super::session::{freed_by_sweep, heard_at, kept_by_sweep, locals, remote_ids, sat_down, Roster, SeatKind};
use super::wire::{decode, read, WireError, FRAME_BYTES};
use super::Posteingang;

verus! {

/// Which port this run opens: the one asked for, else the command line's, else the file's.
pub fn wanted_port(asked: Option<u16>, cli_port: Option<u16>, file_port: u16) -> (port: u16)
    ensures
        port == (match asked {
            Some(p) => p,
            None => match cli_port {
                Some(p) => p,
                None => file_port,
            },
        }),
{
    match asked {
        Some(p) => p,
        None => match cli_port {
            Some(p) => p,
            None => file_port,
        },
    }
}

/// Which address owns which chair, by address text (`"127.0.0.1:40000"`).
#[derive(Debug, Default)]
pub struct PeerBook {
    peers: Vec<(String, PlayerId)>,
}

/// The entries of `book` whose player is not among `gone`, in order.
pub open spec fn kept_peers(book: Seq<(String, PlayerId)>, gone: Seq<PlayerId>) -> Seq<(String, PlayerId)>
    decreases book.len(),
{
    if book.len() == 0 {
        book
    } else if gone.contains(book.last().1) {
        kept_peers(book.drop_last(), gone)
    } else {
        kept_peers(book.drop_last(), gone).push(book.last())
    }
}

/// What one datagram became.
#[derive(Debug, PartialEq, Eq)]
pub enum Arrival {
    /// Not a frame: thrown away, nothing changed.
    Dropped(WireError),
    /// A frame from a seated address, for that address's player.
    Heard(PlayerId),
    /// The first frame from an address: a new player, seated as the `index`-th seat.
    Joined { player: PlayerId, index: usize },
}

impl PeerBook {
    /// The book, in the order addresses first spoke.
    pub closed spec fn entries(&self) -> Seq<(String, PlayerId)> {
        self.peers@
    }

    pub fn new() -> (b: PeerBook)
        ensures
            b.entries() == Seq::<(String, PlayerId)>::empty(),
    {
        PeerBook { peers: Vec::new() }
    }

    /// How many addresses hold a chair.
    pub fn len(&self) -> (n: usize)
        ensures
            n == self.entries().len(),
    {
        self.peers.len()
    }

    /// The player this address speaks for, if it holds a chair.
    pub fn seat_of(&self, from: &str) -> (r: Option<PlayerId>)
        ensures
            ({
                let at = key_index(self.entries(), from@);
                &&& r is Some == (at < self.entries().len())
                &&& r matches Some(id) ==> id == self.entries()[at].1
            }),
    {
        proof {
            lemma_key_index(self.peers@, from@);
        }
        let at = find_key(&self.peers, from);
        if at < self.peers.len() {
            Some(self.peers[at].1)
        } else {
            None
        }
    }

    /// Forgets every address whose chair was given away.
    pub fn forget(&mut self, gone: &[PlayerId])
        ensures
            final(self).entries() == kept_peers(old(self).entries(), gone@),
    {
        let ghost b = self.peers@;
        let mut rest: Vec<(String, PlayerId)> = Vec::new();
        std::mem::swap(&mut rest, &mut self.peers);
        let ghost mut i: int = 0;
        while rest.len() > 0
            invariant
                0 <= i <= b.len(),
                rest@ == b.skip(i),
                self.peers@ == kept_peers(b.take(i), gone@),
            decreases rest.len(),
        {
            let entry = rest.remove(0);
            proof {
                assert(b.take(i + 1).drop_last() =~= b.take(i));
                assert(b[i] == entry);
                assert(b.skip(i).remove(0) =~= b.skip(i + 1));
            }
            let mut found = false;
            let mut j: usize = 0;
            while j < gone.len()
                invariant
                    0 <= j <= gone@.len(),
                    found == (exists|k: int| 0 <= k < j && gone@[k] == entry.1),
                decreases gone.len() - j,
            {
                if gone[j].0 == entry.1.0 {
                    found = true;
                }
                j = j + 1;
            }
            if !found {
                self.peers.push(entry);
            }
            proof {
                assert(found == gone@.contains(entry.1));
                i = i + 1;
            }
        }
        proof {
            assert(b.take(b.len() as int) =~= b);
        }
    }

    /// The door closes: every address is forgotten.
    pub fn clear(&mut self)
        ensures
            final(self).entries() == Seq::<(String, PlayerId)>::empty(),
    {
        self.peers = Vec::new();
    }
}

/// The player number a frame claims carries no weight: two datagrams that differ only in it are
/// both frames or both refused for the same reason, and carry the same intent — so the door
/// files them under the same chair with the same intent.
pub proof fn law_the_claimed_number_carries_no_weight(a: Seq<u8>, b: Seq<u8>)
    requires
        a.len() == b.len(),
        forall|i: int| 0 <= i < a.len() && !(1 <= i < 5) ==> a[i] == b[i],
    ensures
        match (read(a), read(b)) {
            (Ok(fa), Ok(fb)) => fa.intent == fb.intent,
            (Err(ea), Err(eb)) => ea == eb,
            _ => false,
        },
{
    if a.len() > 0 {
        assert(a[0] == b[0]);
    }
    if a.len() == FRAME_BYTES {
        assert(a[5] == b[5] && a[6] == b[6] && a[7] == b[7] && a[8] == b[8]);
        assert(a[9] == b[9] && a[10] == b[10] && a[11] == b[11] && a[12] == b[12]);
        assert(a[13] == b[13] && a[14] == b[14] && a[15] == b[15] && a[16] == b[16]);
        assert(a[17] == b[17] && a[18] == b[18] && a[19] == b[19] && a[20] == b[20]);
        assert(a[21] == b[21] && a[22] == b[22] && a[23] == b[23] && a[24] == b[24]);
        assert(a[25] == b[25] && a[26] == b[26] && a[27] == b[27] && a[28] == b[28]);
        assert(a[29] == b[29] && a[30] == b[30] && a[31] == b[31] && a[32] == b[32]);
    }
}

/// One datagram from `from` at `tick`.
///
/// - not a frame: `Dropped`, and nothing changes;
/// - from an address that holds a chair: that chair's line is live again and the intent goes
///   into the inbox **in that chair's name**, whatever number the frame claims;
/// - from a new address: it is given the next player number, seated as a remote seat named by
///   its address, and its intent goes into the inbox in its new name.
pub fn take_frame(
    book: &mut PeerBook,
    roster: &mut Roster,
    inbox: &mut Posteingang,
    ids: &mut IdCounter,
    from: String,
    bytes: &[u8],
    tick: u64,
) -> (a: Arrival)
    requires
        old(roster).wf(),
        read(bytes@) is Ok ==> tick + old(inbox).lag() <= u64::MAX,
        read(bytes@) is Ok && key_index(old(book).entries(), from@) >= old(book).entries().len()
            ==> old(ids).next < u32::MAX,
    ensures
        final(roster).wf(),
        final(inbox).lag() == old(inbox).lag(),
        final(inbox).latest() == old(inbox).latest(),
        match read(bytes@) {
            Err(e) => {
                &&& a == Arrival::Dropped(e)
                &&& final(book).entries() == old(book).entries()
                &&& final(roster).entries() == old(roster).entries()
                &&& final(inbox).queue() == old(inbox).queue()
                &&& *final(ids) == *old(ids)
            },
            Ok(frame) => {
                let at = key_index(old(book).entries(), from@);
                if at < old(book).entries().len() {
                    let id = old(book).entries()[at].1;
                    &&& a == Arrival::Heard(id)
                    &&& final(book).entries() == old(book).entries()
                    &&& final(roster).entries() == heard_at(old(roster).entries(), id, tick)
                    &&& final(inbox).queue() == old(inbox).queue().push(
                        ((tick + old(inbox).lag()) as u64, id, frame.intent),
                    )
                    &&& *final(ids) == *old(ids)
                } else {
                    let id = PlayerId(old(ids).next);
                    let seated = sat_down(old(roster).entries(), id, SeatKind::Remote(from), from, tick);
                    &&& a == (Arrival::Joined { player: id, index: old(roster).entries().len() as usize })
                    &&& final(book).entries() == old(book).entries().push((from, id))
                    &&& final(roster).entries() == heard_at(seated, id, tick)
                    &&& final(inbox).queue() == old(inbox).queue().push(
                        ((tick + old(inbox).lag()) as u64, id, frame.intent),
                    )
                    &&& final(ids).next == old(ids).next + 1
                }
            },
        },
{
    let frame = match decode(bytes) {
        Ok(f) => f,
        Err(e) => return Arrival::Dropped(e),
    };
    let (id, arrival) = match book.seat_of(from.as_str()) {
        Some(id) => (id, Arrival::Heard(id)),
        None => {
            let id = ids.next_player();
            let index = roster.len();
            book.peers.push((from.clone(), id));
            let kind = SeatKind::Remote(from.clone());
            roster.seat(id, kind, from, tick);
            (id, Arrival::Joined { player: id, index })
        },
    };
    roster.heard(id, tick);
    inbox.einwerfen(id, frame.intent, tick);
    arrival
}

/// The door closes: every peer's chair is given up and every address forgotten; the seats at
/// this keyboard stay. Returns the players who lost their chair, in id order.
pub fn close_the_door(book: &mut PeerBook, roster: &mut Roster) -> (gone: Vec<PlayerId>)
    requires
        old(roster).wf(),
    ensures
        final(roster).wf(),
        final(roster).entries() == locals(old(roster).entries()),
        gone@ == remote_ids(old(roster).entries()),
        final(book).entries() == Seq::<(String, PlayerId)>::empty(),
{
    let gone = roster.clear_remote();
    book.clear();
    gone
}

/// One sweep of the open door: quiet lines are marked, chairs whose hold ran out are given
/// away, and their addresses forgotten. Returns the players who lost their chair, in id order.
pub fn sweep_the_door(
    book: &mut PeerBook,
    roster: &mut Roster,
    tick: u64,
    timeout_ticks: u64,
    hold_ticks: u64,
) -> (freed: Vec<PlayerId>)
    requires
        old(roster).wf(),
    ensures
        final(roster).wf(),
        final(roster).entries() == kept_by_sweep(old(roster).entries(), tick, timeout_ticks, hold_ticks),
        freed@ == freed_by_sweep(old(roster).entries(), tick, hold_ticks),
        final(book).entries() == kept_peers(old(book).entries(), freed@),
{
    let freed = roster.sweep(tick, timeout_ticks, hold_ticks);
    book.forget(freed.as_slice());
    freed
}

} // verus!
