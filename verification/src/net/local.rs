//! The local transport: keys become an [`Intent`](crate::shared::Intent).
//!
//! This is the only place that knows what a key is. A double tap is a property of a key, not of
//! the simulation, so it is resolved here and the simulation only ever reads a button bit.
//!
//! The edges are taken per tick against the key state of the previous tick — never with a
//! per-frame "just pressed" flag — so a fixed loop that runs 0..n times per frame sees each
//! press exactly once.

use vstd::prelude::*;
use crate::shared::{Buttons, Intent};

verus! {

/// The double-tap memory of one key (plus a single-key route to the same bit): the key state at
/// the previous tick, and the tick of a first tap still waiting for its partner.
#[derive(Clone, Copy, Debug, Default, PartialEq, Eq, Structural)]
pub struct DodgeTap {
    space_down: bool,
    dodge_key_down: bool,
    armed_at: Option<u64>,
}

impl DodgeTap {
    /// The tapped key at the end of the previous tick.
    pub closed spec fn tap_key_was_down(&self) -> bool {
        self.space_down
    }

    /// The single-key route at the end of the previous tick.
    pub closed spec fn route_key_was_down(&self) -> bool {
        self.dodge_key_down
    }

    /// The tick of a first tap still waiting for its partner.
    pub closed spec fn armed(&self) -> Option<u64> {
        self.armed_at
    }

    /// Whether feeding these keys at `tick` fires the bit: an edge of the single-key route, or
    /// the second tap of a pair inside the window.
    pub open spec fn fires(self, tap: bool, route: bool, tick: u64, window_ticks: u64) -> bool {
        let tap_edge = tap && !self.tap_key_was_down();
        let route_edge = route && !self.route_key_was_down();
        route_edge || (tap_edge && (self.armed() matches Some(first) && (if tick >= first {
            tick - first
        } else {
            0
        }) <= window_ticks))
    }

    /// The memory after feeding these keys at `tick`: the keys are remembered, a completed pair
    /// is spent, and any other fresh tap arms.
    pub closed spec fn after(self, tap: bool, route: bool, tick: u64, window_ticks: u64) -> DodgeTap {
        let tap_edge = tap && !self.space_down;
        let pair = tap_edge && (self.armed_at matches Some(first) && (if tick >= first {
            tick - first
        } else {
            0
        }) <= window_ticks);
        DodgeTap {
            space_down: tap,
            dodge_key_down: route,
            armed_at: if !tap_edge {
                self.armed_at
            } else if pair {
                None
            } else {
                Some(tick)
            },
        }
    }

    /// The memory with the waiting tap forgotten.
    pub closed spec fn disarmed(self) -> DodgeTap {
        DodgeTap { armed_at: None, ..self }
    }

    /// Nothing held, nothing armed.
    pub fn new() -> (t: DodgeTap)
        ensures
            !t.tap_key_was_down(),
            !t.route_key_was_down(),
            t.armed() is None,
    {
        DodgeTap { space_down: false, dodge_key_down: false, armed_at: None }
    }

    /// Whether the bit fires **this** tick.
    ///
    /// - Both routes are edges: a held key fires once.
    /// - The first tap is consumed: three taps inside the window are one gesture.
    /// - A late second tap re-arms rather than failing.
    /// - The window is inclusive, and a tick that went backwards counts as no time at all.
    pub fn feed(&mut self, space: bool, dodge_key: bool, tick: u64, window_ticks: u64) -> (fired:
        bool)
        ensures
            ({
                let tap_edge = space && !old(self).tap_key_was_down();
                let route_edge = dodge_key && !old(self).route_key_was_down();
                let pair = tap_edge && (old(self).armed() matches Some(first) && (if tick >= first {
                    tick - first
                } else {
                    0
                }) <= window_ticks);
                &&& *final(self) == old(self).after(space, dodge_key, tick, window_ticks)
                &&& fired == old(self).fires(space, dodge_key, tick, window_ticks)
                &&& final(self).tap_key_was_down() == space
                &&& final(self).route_key_was_down() == dodge_key
                &&& fired == (route_edge || pair)
                &&& final(self).armed() == (if !tap_edge {
                    old(self).armed()
                } else if pair {
                    None
                } else {
                    Some(tick)
                })
            }),
    {
        let space_edge = space && !self.space_down;
        let key_edge = dodge_key && !self.dodge_key_down;
        self.space_down = space;
        self.dodge_key_down = dodge_key;

        let mut fired = key_edge;
        if space_edge {
            match self.armed_at {
                Some(first) if tick.saturating_sub(first) <= window_ticks => {
                    self.armed_at = None;
                    fired = true;
                },
                _ => self.armed_at = Some(tick),
            }
        }
        fired
    }

    /// Forgets the tap that is waiting for a partner. The previous tick's key state is a fact
    /// about the keyboard and stays.
    pub fn disarm(&mut self)
        ensures
            *final(self) == old(self).disarmed(),
            final(self).armed() is None,
            final(self).tap_key_was_down() == old(self).tap_key_was_down(),
            final(self).route_key_was_down() == old(self).route_key_was_down(),
    {
        self.armed_at = None;
    }
}

/// The laws of a double tap:
/// - a key held over two ticks fires at most on the first of them;
/// - the first tap is consumed: once a pair has fired, no tap is left waiting, so a third tap
///   only arms;
/// - a fresh tap that does not complete a pair arms, on this tick.
pub proof fn law_double_tap(t: DodgeTap, tap: bool, route: bool, tick: u64, later: u64, w: u64)
    ensures
        !t.after(tap, route, tick, w).fires(tap, route, later, w),
        (tap && !t.tap_key_was_down() && t.fires(tap, false, tick, w)) ==> t.after(
            tap,
            route,
            tick,
            w,
        ).armed() is None,
        (tap && !t.tap_key_was_down() && !t.fires(tap, false, tick, w)) ==> t.after(
            tap,
            route,
            tick,
            w,
        ).armed() == Some(tick),
{
}

/// The keys and mouse buttons held at this tick, as the bindings name them.
#[derive(Clone, Copy, Debug, Default, PartialEq, Eq, Structural)]
pub struct KeysDown {
    /// `Space` — jump, and the dodge's double tap.
    pub space: bool,
    /// `Shift` — boost.
    pub shift: bool,
    /// `Ctrl` — reel in. Nothing else reels in.
    pub ctrl: bool,
    /// `C` — the single-key dodge.
    pub c: bool,
    /// `Tab` — mark.
    pub tab: bool,
    /// `Q` — left hook.
    pub q: bool,
    /// `E` — right hook.
    pub e: bool,
    /// `F` — the left blade's second binding.
    pub f: bool,
    /// `W` — forward.
    pub w: bool,
    /// `S` — backward, and nothing else: it does not reel in.
    pub s: bool,
    /// `A` — strafe left, and the left flip's double tap.
    pub a: bool,
    /// `D` — strafe right, and the right flip's double tap.
    pub d: bool,
    /// Left mouse button — left blade.
    pub mouse_left: bool,
    /// Right mouse button — right blade.
    pub mouse_right: bool,
}

/// `b` with every bit of `mask` set when `on`, cleared otherwise.
pub open spec fn with_bit(b: u32, mask: u32, on: bool) -> u32 {
    if on {
        b | mask
    } else {
        b & !mask
    }
}

/// The buttons of one tick, given the keys and the two gestures.
pub open spec fn buttons_of(k: KeysDown, dodge: bool, flip: bool) -> u32 {
    let b = with_bit(0, Buttons::JUMP, k.space);
    let b = with_bit(b, Buttons::BOOST, k.shift);
    let b = with_bit(b, Buttons::REEL_IN, k.ctrl);
    let b = with_bit(b, Buttons::DODGE, dodge);
    let b = with_bit(b, Buttons::FLIP, flip);
    let b = with_bit(b, Buttons::MARK, k.tab);
    let b = with_bit(b, Buttons::HOOK_LEFT, k.q);
    let b = with_bit(b, Buttons::HOOK_RIGHT, k.e);
    let b = with_bit(b, Buttons::SLASH_LEFT, k.mouse_left || k.f);
    with_bit(b, Buttons::SLASH_RIGHT, k.mouse_right)
}

proof fn lemma_with_bit_keeps(b: u32, m: u32, on: bool, x: u32)
    requires
        m & x == 0,
    ensures
        with_bit(b, m, on) & x == b & x,
{
    if on {
        assert((b | m) & x == b & x) by (bit_vector)
            requires
                m & x == 0,
        ;
    } else {
        assert((b & !m) & x == b & x) by (bit_vector)
            requires
                m & x == 0,
        ;
    }
}

proof fn lemma_with_bit_sets(b: u32, m: u32, on: bool)
    requires
        m != 0,
    ensures
        (with_bit(b, m, on) & m != 0) == on,
{
    if on {
        assert((b | m) & m == m) by (bit_vector);
    } else {
        assert((b & !m) & m == 0) by (bit_vector);
    }
}

proof fn lemma_button_masks_apart()
    ensures
        Buttons::BOOST & Buttons::JUMP == 0,
        Buttons::REEL_IN & Buttons::JUMP == 0,
        Buttons::DODGE & Buttons::JUMP == 0,
        Buttons::FLIP & Buttons::JUMP == 0,
        Buttons::MARK & Buttons::JUMP == 0,
        Buttons::HOOK_LEFT & Buttons::JUMP == 0,
        Buttons::HOOK_RIGHT & Buttons::JUMP == 0,
        Buttons::SLASH_LEFT & Buttons::JUMP == 0,
        Buttons::SLASH_RIGHT & Buttons::JUMP == 0,
        Buttons::REEL_IN & Buttons::BOOST == 0,
        Buttons::DODGE & Buttons::BOOST == 0,
        Buttons::FLIP & Buttons::BOOST == 0,
        Buttons::MARK & Buttons::BOOST == 0,
        Buttons::HOOK_LEFT & Buttons::BOOST == 0,
        Buttons::HOOK_RIGHT & Buttons::BOOST == 0,
        Buttons::SLASH_LEFT & Buttons::BOOST == 0,
        Buttons::SLASH_RIGHT & Buttons::BOOST == 0,
        Buttons::DODGE & Buttons::REEL_IN == 0,
        Buttons::FLIP & Buttons::REEL_IN == 0,
        Buttons::MARK & Buttons::REEL_IN == 0,
        Buttons::HOOK_LEFT & Buttons::REEL_IN == 0,
        Buttons::HOOK_RIGHT & Buttons::REEL_IN == 0,
        Buttons::SLASH_LEFT & Buttons::REEL_IN == 0,
        Buttons::SLASH_RIGHT & Buttons::REEL_IN == 0,
        Buttons::FLIP & Buttons::DODGE == 0,
        Buttons::MARK & Buttons::DODGE == 0,
        Buttons::HOOK_LEFT & Buttons::DODGE == 0,
        Buttons::HOOK_RIGHT & Buttons::DODGE == 0,
        Buttons::SLASH_LEFT & Buttons::DODGE == 0,
        Buttons::SLASH_RIGHT & Buttons::DODGE == 0,
        Buttons::MARK & Buttons::FLIP == 0,
        Buttons::HOOK_LEFT & Buttons::FLIP == 0,
        Buttons::HOOK_RIGHT & Buttons::FLIP == 0,
        Buttons::SLASH_LEFT & Buttons::FLIP == 0,
        Buttons::SLASH_RIGHT & Buttons::FLIP == 0,
        Buttons::HOOK_LEFT & Buttons::MARK == 0,
        Buttons::HOOK_RIGHT & Buttons::MARK == 0,
        Buttons::SLASH_LEFT & Buttons::MARK == 0,
        Buttons::SLASH_RIGHT & Buttons::MARK == 0,
        Buttons::HOOK_RIGHT & Buttons::HOOK_LEFT == 0,
        Buttons::SLASH_LEFT & Buttons::HOOK_LEFT == 0,
        Buttons::SLASH_RIGHT & Buttons::HOOK_LEFT == 0,
        Buttons::SLASH_LEFT & Buttons::HOOK_RIGHT == 0,
        Buttons::SLASH_RIGHT & Buttons::HOOK_RIGHT == 0,
        Buttons::SLASH_RIGHT & Buttons::SLASH_LEFT == 0,
{
    assert(
        0x0000_0002u32 & 0x0000_0001u32 == 0 &&
        0x0000_0004u32 & 0x0000_0001u32 == 0 &&
        0x0000_0008u32 & 0x0000_0001u32 == 0 &&
        0x0000_0200u32 & 0x0000_0001u32 == 0 &&
        0x0000_0010u32 & 0x0000_0001u32 == 0 &&
        0x0000_0020u32 & 0x0000_0001u32 == 0 &&
        0x0000_0040u32 & 0x0000_0001u32 == 0 &&
        0x0000_0080u32 & 0x0000_0001u32 == 0 &&
        0x0000_0100u32 & 0x0000_0001u32 == 0 &&
        0x0000_0004u32 & 0x0000_0002u32 == 0 &&
        0x0000_0008u32 & 0x0000_0002u32 == 0 &&
        0x0000_0200u32 & 0x0000_0002u32 == 0 &&
        0x0000_0010u32 & 0x0000_0002u32 == 0 &&
        0x0000_0020u32 & 0x0000_0002u32 == 0 &&
        0x0000_0040u32 & 0x0000_0002u32 == 0 &&
        0x0000_0080u32 & 0x0000_0002u32 == 0 &&
        0x0000_0100u32 & 0x0000_0002u32 == 0 &&
        0x0000_0008u32 & 0x0000_0004u32 == 0 &&
        0x0000_0200u32 & 0x0000_0004u32 == 0 &&
        0x0000_0010u32 & 0x0000_0004u32 == 0 &&
        0x0000_0020u32 & 0x0000_0004u32 == 0 &&
        0x0000_0040u32 & 0x0000_0004u32 == 0 &&
        0x0000_0080u32 & 0x0000_0004u32 == 0 &&
        0x0000_0100u32 & 0x0000_0004u32 == 0 &&
        0x0000_0200u32 & 0x0000_0008u32 == 0 &&
        0x0000_0010u32 & 0x0000_0008u32 == 0 &&
        0x0000_0020u32 & 0x0000_0008u32 == 0 &&
        0x0000_0040u32 & 0x0000_0008u32 == 0 &&
        0x0000_0080u32 & 0x0000_0008u32 == 0 &&
        0x0000_0100u32 & 0x0000_0008u32 == 0 &&
        0x0000_0010u32 & 0x0000_0200u32 == 0 &&
        0x0000_0020u32 & 0x0000_0200u32 == 0 &&
        0x0000_0040u32 & 0x0000_0200u32 == 0 &&
        0x0000_0080u32 & 0x0000_0200u32 == 0 &&
        0x0000_0100u32 & 0x0000_0200u32 == 0 &&
        0x0000_0020u32 & 0x0000_0010u32 == 0 &&
        0x0000_0040u32 & 0x0000_0010u32 == 0 &&
        0x0000_0080u32 & 0x0000_0010u32 == 0 &&
        0x0000_0100u32 & 0x0000_0010u32 == 0 &&
        0x0000_0040u32 & 0x0000_0020u32 == 0 &&
        0x0000_0080u32 & 0x0000_0020u32 == 0 &&
        0x0000_0100u32 & 0x0000_0020u32 == 0 &&
        0x0000_0080u32 & 0x0000_0040u32 == 0 &&
        0x0000_0100u32 & 0x0000_0040u32 == 0 &&
        0x0000_0100u32 & 0x0000_0080u32 == 0
    ) by (bit_vector);
}

/// Every button of a tick is its own key and nothing else: `Ctrl` alone reels in — `S` is only
/// the backward axis —, `Q` and `E` are the hooks, the left blade is the left mouse button or
/// `F`, the right blade the right mouse button, `Tab` marks, `Space` jumps and `Shift` boosts;
/// the dodge and the flip bits are the two gestures. No key sets a bit that is not its own.
pub proof fn law_every_button_is_its_own_key(k: KeysDown, dodge: bool, flip: bool)
    ensures
        (buttons_of(k, dodge, flip) & Buttons::JUMP != 0) == (k.space),
        (buttons_of(k, dodge, flip) & Buttons::BOOST != 0) == (k.shift),
        (buttons_of(k, dodge, flip) & Buttons::REEL_IN != 0) == (k.ctrl),
        (buttons_of(k, dodge, flip) & Buttons::DODGE != 0) == (dodge),
        (buttons_of(k, dodge, flip) & Buttons::FLIP != 0) == (flip),
        (buttons_of(k, dodge, flip) & Buttons::MARK != 0) == (k.tab),
        (buttons_of(k, dodge, flip) & Buttons::HOOK_LEFT != 0) == (k.q),
        (buttons_of(k, dodge, flip) & Buttons::HOOK_RIGHT != 0) == (k.e),
        (buttons_of(k, dodge, flip) & Buttons::SLASH_LEFT != 0) == (k.mouse_left || k.f),
        (buttons_of(k, dodge, flip) & Buttons::SLASH_RIGHT != 0) == (k.mouse_right),
{
    lemma_button_masks_apart();
    let b0 = with_bit(0u32, Buttons::JUMP, k.space);
    let b1 = with_bit(b0, Buttons::BOOST, k.shift);
    let b2 = with_bit(b1, Buttons::REEL_IN, k.ctrl);
    let b3 = with_bit(b2, Buttons::DODGE, dodge);
    let b4 = with_bit(b3, Buttons::FLIP, flip);
    let b5 = with_bit(b4, Buttons::MARK, k.tab);
    let b6 = with_bit(b5, Buttons::HOOK_LEFT, k.q);
    let b7 = with_bit(b6, Buttons::HOOK_RIGHT, k.e);
    let b8 = with_bit(b7, Buttons::SLASH_LEFT, k.mouse_left || k.f);
    let b9 = with_bit(b8, Buttons::SLASH_RIGHT, k.mouse_right);
    assert(buttons_of(k, dodge, flip) == b9);
    lemma_with_bit_sets(0u32, Buttons::JUMP, k.space);
    lemma_with_bit_keeps(b0, Buttons::BOOST, k.shift, Buttons::JUMP);
    lemma_with_bit_keeps(b1, Buttons::REEL_IN, k.ctrl, Buttons::JUMP);
    lemma_with_bit_keeps(b2, Buttons::DODGE, dodge, Buttons::JUMP);
    lemma_with_bit_keeps(b3, Buttons::FLIP, flip, Buttons::JUMP);
    lemma_with_bit_keeps(b4, Buttons::MARK, k.tab, Buttons::JUMP);
    lemma_with_bit_keeps(b5, Buttons::HOOK_LEFT, k.q, Buttons::JUMP);
    lemma_with_bit_keeps(b6, Buttons::HOOK_RIGHT, k.e, Buttons::JUMP);
    lemma_with_bit_keeps(b7, Buttons::SLASH_LEFT, k.mouse_left || k.f, Buttons::JUMP);
    lemma_with_bit_keeps(b8, Buttons::SLASH_RIGHT, k.mouse_right, Buttons::JUMP);
    lemma_with_bit_sets(b0, Buttons::BOOST, k.shift);
    lemma_with_bit_keeps(b1, Buttons::REEL_IN, k.ctrl, Buttons::BOOST);
    lemma_with_bit_keeps(b2, Buttons::DODGE, dodge, Buttons::BOOST);
    lemma_with_bit_keeps(b3, Buttons::FLIP, flip, Buttons::BOOST);
    lemma_with_bit_keeps(b4, Buttons::MARK, k.tab, Buttons::BOOST);
    lemma_with_bit_keeps(b5, Buttons::HOOK_LEFT, k.q, Buttons::BOOST);
    lemma_with_bit_keeps(b6, Buttons::HOOK_RIGHT, k.e, Buttons::BOOST);
    lemma_with_bit_keeps(b7, Buttons::SLASH_LEFT, k.mouse_left || k.f, Buttons::BOOST);
    lemma_with_bit_keeps(b8, Buttons::SLASH_RIGHT, k.mouse_right, Buttons::BOOST);
    lemma_with_bit_sets(b1, Buttons::REEL_IN, k.ctrl);
    lemma_with_bit_keeps(b2, Buttons::DODGE, dodge, Buttons::REEL_IN);
    lemma_with_bit_keeps(b3, Buttons::FLIP, flip, Buttons::REEL_IN);
    lemma_with_bit_keeps(b4, Buttons::MARK, k.tab, Buttons::REEL_IN);
    lemma_with_bit_keeps(b5, Buttons::HOOK_LEFT, k.q, Buttons::REEL_IN);
    lemma_with_bit_keeps(b6, Buttons::HOOK_RIGHT, k.e, Buttons::REEL_IN);
    lemma_with_bit_keeps(b7, Buttons::SLASH_LEFT, k.mouse_left || k.f, Buttons::REEL_IN);
    lemma_with_bit_keeps(b8, Buttons::SLASH_RIGHT, k.mouse_right, Buttons::REEL_IN);
    lemma_with_bit_sets(b2, Buttons::DODGE, dodge);
    lemma_with_bit_keeps(b3, Buttons::FLIP, flip, Buttons::DODGE);
    lemma_with_bit_keeps(b4, Buttons::MARK, k.tab, Buttons::DODGE);
    lemma_with_bit_keeps(b5, Buttons::HOOK_LEFT, k.q, Buttons::DODGE);
    lemma_with_bit_keeps(b6, Buttons::HOOK_RIGHT, k.e, Buttons::DODGE);
    lemma_with_bit_keeps(b7, Buttons::SLASH_LEFT, k.mouse_left || k.f, Buttons::DODGE);
    lemma_with_bit_keeps(b8, Buttons::SLASH_RIGHT, k.mouse_right, Buttons::DODGE);
    lemma_with_bit_sets(b3, Buttons::FLIP, flip);
    lemma_with_bit_keeps(b4, Buttons::MARK, k.tab, Buttons::FLIP);
    lemma_with_bit_keeps(b5, Buttons::HOOK_LEFT, k.q, Buttons::FLIP);
    lemma_with_bit_keeps(b6, Buttons::HOOK_RIGHT, k.e, Buttons::FLIP);
    lemma_with_bit_keeps(b7, Buttons::SLASH_LEFT, k.mouse_left || k.f, Buttons::FLIP);
    lemma_with_bit_keeps(b8, Buttons::SLASH_RIGHT, k.mouse_right, Buttons::FLIP);
    lemma_with_bit_sets(b4, Buttons::MARK, k.tab);
    lemma_with_bit_keeps(b5, Buttons::HOOK_LEFT, k.q, Buttons::MARK);
    lemma_with_bit_keeps(b6, Buttons::HOOK_RIGHT, k.e, Buttons::MARK);
    lemma_with_bit_keeps(b7, Buttons::SLASH_LEFT, k.mouse_left || k.f, Buttons::MARK);
    lemma_with_bit_keeps(b8, Buttons::SLASH_RIGHT, k.mouse_right, Buttons::MARK);
    lemma_with_bit_sets(b5, Buttons::HOOK_LEFT, k.q);
    lemma_with_bit_keeps(b6, Buttons::HOOK_RIGHT, k.e, Buttons::HOOK_LEFT);
    lemma_with_bit_keeps(b7, Buttons::SLASH_LEFT, k.mouse_left || k.f, Buttons::HOOK_LEFT);
    lemma_with_bit_keeps(b8, Buttons::SLASH_RIGHT, k.mouse_right, Buttons::HOOK_LEFT);
    lemma_with_bit_sets(b6, Buttons::HOOK_RIGHT, k.e);
    lemma_with_bit_keeps(b7, Buttons::SLASH_LEFT, k.mouse_left || k.f, Buttons::HOOK_RIGHT);
    lemma_with_bit_keeps(b8, Buttons::SLASH_RIGHT, k.mouse_right, Buttons::HOOK_RIGHT);
    lemma_with_bit_sets(b7, Buttons::SLASH_LEFT, k.mouse_left || k.f);
    lemma_with_bit_keeps(b8, Buttons::SLASH_RIGHT, k.mouse_right, Buttons::SLASH_LEFT);
    lemma_with_bit_sets(b8, Buttons::SLASH_RIGHT, k.mouse_right);
}

/// The gesture memory of this machine's keyboard: one detector for the dodge, one per side for
/// the flip.
#[derive(Clone, Copy, Debug, Default, PartialEq, Eq, Structural)]
pub struct Gestures {
    pub dodge: DodgeTap,
    pub flip_left: DodgeTap,
    pub flip_right: DodgeTap,
}

impl Gestures {
    pub fn new() -> (g: Gestures)
        ensures
            g.dodge.armed() is None,
            g.flip_left.armed() is None,
            g.flip_right.armed() is None,
    {
        Gestures { dodge: DodgeTap::new(), flip_left: DodgeTap::new(), flip_right: DodgeTap::new() }
    }

    /// The buttons of this tick. The first tap of a dodge is still a jump; a flip is one bit and
    /// no side, because the side is the strafe axis of this very tick; a press on one side
    /// cancels a pending arm on the other, so `A · D · A` is steering and not a flip. The
    /// cancel comes after the feed, so it never eats the second tap of an honest double tap.
    pub fn buttons(&mut self, k: KeysDown, tick: u64, dodge_window_ticks: u64, flip_window_ticks: u64) -> (b:
        Buttons)
        ensures
            ({
                let dodge = old(self).dodge.fires(k.space, k.c, tick, dodge_window_ticks);
                let left = old(self).flip_left.fires(k.a, false, tick, flip_window_ticks);
                let right = old(self).flip_right.fires(k.d, false, tick, flip_window_ticks);
                let left_after = old(self).flip_left.after(k.a, false, tick, flip_window_ticks);
                let right_after = old(self).flip_right.after(k.d, false, tick, flip_window_ticks);
                &&& b.0 == buttons_of(k, dodge, left || right)
                &&& final(self).dodge == old(self).dodge.after(k.space, k.c, tick, dodge_window_ticks)
                &&& final(self).flip_left == (if k.d {
                    left_after.disarmed()
                } else {
                    left_after
                })
                &&& final(self).flip_right == (if k.a {
                    right_after.disarmed()
                } else {
                    right_after
                })
            }),
    {
        let dodge = self.dodge.feed(k.space, k.c, tick, dodge_window_ticks);
        let flip_left = self.flip_left.feed(k.a, false, tick, flip_window_ticks);
        let flip_right = self.flip_right.feed(k.d, false, tick, flip_window_ticks);
        if k.d {
            self.flip_left.disarm();
        }
        if k.a {
            self.flip_right.disarm();
        }
        let mut t = Buttons::none();
        t.set(Buttons::JUMP, k.space);
        t.set(Buttons::BOOST, k.shift);
        t.set(Buttons::REEL_IN, k.ctrl);
        t.set(Buttons::DODGE, dodge);
        t.set(Buttons::FLIP, flip_left || flip_right);
        t.set(Buttons::MARK, k.tab);
        t.set(Buttons::HOOK_LEFT, k.q);
        t.set(Buttons::HOOK_RIGHT, k.e);
        t.set(Buttons::SLASH_LEFT, k.mouse_left || k.f);
        t.set(Buttons::SLASH_RIGHT, k.mouse_right);
        t
    }
}

/// One movement axis from its two keys, as the bits of an `f32`: `1.0` for the plus key alone,
/// `-1.0` for the minus key alone, `0.0` for both or neither.
pub open spec fn axis(plus: bool, minus: bool) -> u32 {
    if plus && !minus {
        0x3f80_0000
    } else if minus && !plus {
        0xbf80_0000
    } else {
        0
    }
}

/// One movement axis from its two keys (see [`axis`]).
pub fn axis_bits(plus: bool, minus: bool) -> (b: u32)
    ensures
        b == axis(plus, minus),
{
    if plus && !minus {
        0x3f80_0000
    } else if minus && !plus {
        0xbf80_0000
    } else {
        0
    }
}

/// This tick's wish from this keyboard: `D`/`A` strafe, `W`/`S` forward, the look as the mouse
/// or a script left it, and the buttons of this tick.
pub fn local_intent(k: KeysDown, buttons: Buttons, yaw_bits: u32, pitch_bits: u32, tick: u64) -> (i: Intent)
    ensures
        i == (Intent {
            move_x_bits: axis(k.d, k.a),
            move_y_bits: axis(k.w, k.s),
            yaw_bits: yaw_bits,
            pitch_bits: pitch_bits,
            buttons: buttons,
            tick: tick,
        }),
{
    Intent {
        move_x_bits: axis_bits(k.d, k.a),
        move_y_bits: axis_bits(k.w, k.s),
        yaw_bits,
        pitch_bits,
        buttons,
        tick,
    }
}

} // verus!
