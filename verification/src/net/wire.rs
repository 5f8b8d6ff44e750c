//! **The wire format** — what one tick of one player looks like as bytes.
//!
//! ```text
//! byte 0        1..5        5..13     13..29                29..33
//! ┌─────────┬───────────┬──────────┬─────────────────────┬──────────┐
//! │ version │ player id │   tick   │ 4 × f32 (move, look)│ buttons  │
//! │   0x01  │    u32    │   u64    │                     │   u32    │
//! └─────────┴───────────┴──────────┴─────────────────────┴──────────┘
//!                            33 bytes, always, little-endian
//! ```
//!
//! No checksum, no sequence number, no authentication: a frame carries the [`PlayerId`] its
//! sender wrote, and [`decode`] hands it back unchanged.

use vstd::prelude::*;
use vstd::string::StringExecFns;
use crate::shared::{decimal, decimal_text, digit_char, Buttons, Intent, PlayerId};

verus! {

/// The version byte every frame starts with.
pub const VERSION: u8 = 0x01;

/// How many bytes one frame is. Always.
pub const FRAME_BYTES: usize = 33;

/// One player's wish for one tick, as it travels.
#[derive(Clone, Copy, Debug, PartialEq, Eq, Structural)]
pub struct Frame {
    /// Who the sender says he is.
    pub player: PlayerId,
    pub intent: Intent,
}

/// Why a packet was thrown away.
#[derive(Clone, Copy, Debug, PartialEq, Eq, Structural)]
pub enum WireError {
    /// Not [`FRAME_BYTES`] long; carries the length that arrived.
    Length(usize),
    /// A first byte that is not [`VERSION`]; carries that byte.
    Version(u8),
}

/// The hexadecimal digit for `d` (`0 <= d < 16`), lower case.
pub open spec fn hex_char(d: nat) -> char {
    if d < 10 {
        digit_char(d)
    } else if d == 10 {
        'a'
    } else if d == 11 {
        'b'
    } else if d == 12 {
        'c'
    } else if d == 13 {
        'd'
    } else if d == 14 {
        'e'
    } else {
        'f'
    }
}

/// A byte as `0x` and two hexadecimal digits.
pub open spec fn hex_byte(b: u8) -> Seq<char> {
    "0x"@ + seq![hex_char((b / 16) as nat), hex_char((b % 16) as nat)]
}

/// Why a packet was thrown away, in words.
pub open spec fn wire_error_text(e: WireError) -> Seq<char> {
    match e {
        WireError::Length(n) => decimal(n as nat) + " bytes, expected 33"@,
        WireError::Version(v) => "version "@ + hex_byte(v) + ", expected "@ + hex_byte(VERSION),
    }
}

fn hex_digit(d: u8) -> (s: &'static str)
    requires
        d < 16,
    ensures
        s@ == seq![hex_char(d as nat)],
{
    if d == 0 {
        proof {
            reveal_strlit("0");
        }
        "0"
    } else if d == 1 {
        proof {
            reveal_strlit("1");
        }
        "1"
    } else if d == 2 {
        proof {
            reveal_strlit("2");
        }
        "2"
    } else if d == 3 {
        proof {
            reveal_strlit("3");
        }
        "3"
    } else if d == 4 {
        proof {
            reveal_strlit("4");
        }
        "4"
    } else if d == 5 {
        proof {
            reveal_strlit("5");
        }
        "5"
    } else if d == 6 {
        proof {
            reveal_strlit("6");
        }
        "6"
    } else if d == 7 {
        proof {
            reveal_strlit("7");
        }
        "7"
    } else if d == 8 {
        proof {
            reveal_strlit("8");
        }
        "8"
    } else if d == 9 {
        proof {
            reveal_strlit("9");
        }
        "9"
    } else if d == 10 {
        proof {
            reveal_strlit("a");
        }
        "a"
    } else if d == 11 {
        proof {
            reveal_strlit("b");
        }
        "b"
    } else if d == 12 {
        proof {
            reveal_strlit("c");
        }
        "c"
    } else if d == 13 {
        proof {
            reveal_strlit("d");
        }
        "d"
    } else if d == 14 {
        proof {
            reveal_strlit("e");
        }
        "e"
    } else {
        proof {
            reveal_strlit("f");
        }
        "f"
    }
}

fn push_hex_byte(s: &mut String, b: u8)
    ensures
        final(s)@ == old(s)@ + hex_byte(b),
{
    proof {
        reveal_strlit("0x");
    }
    s.append("0x");
    s.append(hex_digit(b / 16));
    s.append(hex_digit(b % 16));
    assert(final(s)@ =~= old(s)@ + hex_byte(b));
}

impl WireError {
    /// Why the packet was thrown away, in words: `"12 bytes, expected 33"` or
    /// `"version 0x02, expected 0x01"`.
    pub fn message(&self) -> (s: String)
        ensures
            s@ == wire_error_text(*self),
    {
        match self {
            WireError::Length(n) => {
                let mut s = decimal_text(*n as u64);
                s.append(" bytes, expected 33");
                s
            },
            WireError::Version(v) => {
                let mut s = String::from_str("version ");
                push_hex_byte(&mut s, *v);
                s.append(", expected ");
                push_hex_byte(&mut s, VERSION);
                s
            },
        }
    }
}

// ---------------------------------------------------------------------------
// The format, as mathematics
// ---------------------------------------------------------------------------

/// The four bytes of `x`, least significant first.
pub open spec fn le_u32(x: u32) -> Seq<u8> {
    seq![
        (x & 0xff) as u8,
        ((x >> 8u32) & 0xff) as u8,
        ((x >> 16u32) & 0xff) as u8,
        ((x >> 24u32) & 0xff) as u8,
    ]
}

/// The eight bytes of `x`, least significant first.
pub open spec fn le_u64(x: u64) -> Seq<u8> {
    seq![
        (x & 0xff) as u8,
        ((x >> 8u64) & 0xff) as u8,
        ((x >> 16u64) & 0xff) as u8,
        ((x >> 24u64) & 0xff) as u8,
        ((x >> 32u64) & 0xff) as u8,
        ((x >> 40u64) & 0xff) as u8,
        ((x >> 48u64) & 0xff) as u8,
        ((x >> 56u64) & 0xff) as u8,
    ]
}

/// The `u32` whose little-endian bytes are `b0 b1 b2 b3`.
pub open spec fn u32_of(b0: u8, b1: u8, b2: u8, b3: u8) -> u32 {
    (b0 as u32) | ((b1 as u32) << 8u32) | ((b2 as u32) << 16u32) | ((b3 as u32) << 24u32)
}

/// The `u64` whose little-endian bytes are `b0 .. b7`.
pub open spec fn u64_of(b0: u8, b1: u8, b2: u8, b3: u8, b4: u8, b5: u8, b6: u8, b7: u8) -> u64 {
    (b0 as u64) | ((b1 as u64) << 8u64) | ((b2 as u64) << 16u64) | ((b3 as u64) << 24u64)
        | ((b4 as u64) << 32u64) | ((b5 as u64) << 40u64) | ((b6 as u64) << 48u64)
        | ((b7 as u64) << 56u64)
}

/// The `u32` stored little-endian at `at`.
pub open spec fn u32_at(b: Seq<u8>, at: int) -> u32 {
    u32_of(b[at], b[at + 1], b[at + 2], b[at + 3])
}

/// The bytes a frame goes on the line as.
pub open spec fn frame_bytes(f: Frame) -> Seq<u8> {
    seq![VERSION] + le_u32(f.player.0) + le_u64(f.intent.tick) + le_u32(f.intent.move_x_bits)
        + le_u32(f.intent.move_y_bits) + le_u32(f.intent.yaw_bits) + le_u32(f.intent.pitch_bits)
        + le_u32(f.intent.buttons.0)
}

/// The frame a well-formed datagram carries.
pub open spec fn frame_of(b: Seq<u8>) -> Frame {
    Frame {
        player: PlayerId(u32_at(b, 1)),
        intent: Intent {
            tick: u64_of(b[5], b[6], b[7], b[8], b[9], b[10], b[11], b[12]),
            move_x_bits: u32_at(b, 13),
            move_y_bits: u32_at(b, 17),
            yaw_bits: u32_at(b, 21),
            pitch_bits: u32_at(b, 25),
            buttons: Buttons(u32_at(b, 29)),
        },
    }
}

/// What a datagram reads as: the wrong length first, then the wrong version, then a frame.
pub open spec fn read(b: Seq<u8>) -> Result<Frame, WireError> {
    if b.len() != FRAME_BYTES {
        Err(WireError::Length(b.len() as usize))
    } else if b[0] != VERSION {
        Err(WireError::Version(b[0]))
    } else {
        Ok(frame_of(b))
    }
}

// ---------------------------------------------------------------------------
// Byte-level facts
// ---------------------------------------------------------------------------

proof fn lemma_u32_bytes_roundtrip(x: u32)
    ensures
        u32_of(le_u32(x)[0], le_u32(x)[1], le_u32(x)[2], le_u32(x)[3]) == x,
{
    let b0 = (x & 0xff) as u8;
    let b1 = ((x >> 8u32) & 0xff) as u8;
    let b2 = ((x >> 16u32) & 0xff) as u8;
    let b3 = ((x >> 24u32) & 0xff) as u8;
    assert((b0 as u32) | ((b1 as u32) << 8u32) | ((b2 as u32) << 16u32) | ((b3 as u32) << 24u32)
        == x) by (bit_vector)
        requires
            b0 == (x & 0xff) as u8,
            b1 == ((x >> 8u32) & 0xff) as u8,
            b2 == ((x >> 16u32) & 0xff) as u8,
            b3 == ((x >> 24u32) & 0xff) as u8,
    ;
}

proof fn lemma_u32_value_roundtrip(b0: u8, b1: u8, b2: u8, b3: u8)
    ensures
        le_u32(u32_of(b0, b1, b2, b3)) == seq![b0, b1, b2, b3],
{
    let x = u32_of(b0, b1, b2, b3);
    assert((x & 0xff) as u8 == b0 && ((x >> 8u32) & 0xff) as u8 == b1
        && ((x >> 16u32) & 0xff) as u8 == b2 && ((x >> 24u32) & 0xff) as u8 == b3)
        by (bit_vector)
        requires
            x == (b0 as u32) | ((b1 as u32) << 8u32) | ((b2 as u32) << 16u32) | ((b3 as u32)
                << 24u32),
    ;
    assert(le_u32(x) =~= seq![b0, b1, b2, b3]);
}

proof fn lemma_u64_bytes_roundtrip(x: u64)
    ensures
        u64_of(
            le_u64(x)[0],
            le_u64(x)[1],
            le_u64(x)[2],
            le_u64(x)[3],
            le_u64(x)[4],
            le_u64(x)[5],
            le_u64(x)[6],
            le_u64(x)[7],
        ) == x,
{
    let b0 = (x & 0xff) as u8;
    let b1 = ((x >> 8u64) & 0xff) as u8;
    let b2 = ((x >> 16u64) & 0xff) as u8;
    let b3 = ((x >> 24u64) & 0xff) as u8;
    let b4 = ((x >> 32u64) & 0xff) as u8;
    let b5 = ((x >> 40u64) & 0xff) as u8;
    let b6 = ((x >> 48u64) & 0xff) as u8;
    let b7 = ((x >> 56u64) & 0xff) as u8;
    assert((b0 as u64) | ((b1 as u64) << 8u64) | ((b2 as u64) << 16u64) | ((b3 as u64) << 24u64)
        | ((b4 as u64) << 32u64) | ((b5 as u64) << 40u64) | ((b6 as u64) << 48u64) | ((b7 as u64)
        << 56u64) == x) by (bit_vector)
        requires
            b0 == (x & 0xff) as u8,
            b1 == ((x >> 8u64) & 0xff) as u8,
            b2 == ((x >> 16u64) & 0xff) as u8,
            b3 == ((x >> 24u64) & 0xff) as u8,
            b4 == ((x >> 32u64) & 0xff) as u8,
            b5 == ((x >> 40u64) & 0xff) as u8,
            b6 == ((x >> 48u64) & 0xff) as u8,
            b7 == ((x >> 56u64) & 0xff) as u8,
    ;
}

proof fn lemma_u64_value_roundtrip(b0: u8, b1: u8, b2: u8, b3: u8, b4: u8, b5: u8, b6: u8, b7: u8)
    ensures
        le_u64(u64_of(b0, b1, b2, b3, b4, b5, b6, b7)) == seq![b0, b1, b2, b3, b4, b5, b6, b7],
{
    let x = u64_of(b0, b1, b2, b3, b4, b5, b6, b7);
    assert((x & 0xff) as u8 == b0 && ((x >> 8u64) & 0xff) as u8 == b1
        && ((x >> 16u64) & 0xff) as u8 == b2 && ((x >> 24u64) & 0xff) as u8 == b3
        && ((x >> 32u64) & 0xff) as u8 == b4 && ((x >> 40u64) & 0xff) as u8 == b5
        && ((x >> 48u64) & 0xff) as u8 == b6 && ((x >> 56u64) & 0xff) as u8 == b7)
        by (bit_vector)
        requires
            x == (b0 as u64) | ((b1 as u64) << 8u64) | ((b2 as u64) << 16u64) | ((b3 as u64)
                << 24u64) | ((b4 as u64) << 32u64) | ((b5 as u64) << 40u64) | ((b6 as u64)
                << 48u64) | ((b7 as u64) << 56u64),
    ;
    assert(le_u64(x) =~= seq![b0, b1, b2, b3, b4, b5, b6, b7]);
}

// ---------------------------------------------------------------------------
// The laws of the format
// ---------------------------------------------------------------------------

/// Every frame is exactly [`FRAME_BYTES`] long and starts with [`VERSION`].
pub proof fn law_frame_size(f: Frame)
    ensures
        frame_bytes(f).len() == FRAME_BYTES,
        frame_bytes(f)[0] == VERSION,
{
}

/// What was written reads back as exactly the frame that was written, bit for bit.
pub proof fn law_round_trip(f: Frame)
    ensures
        read(frame_bytes(f)) == Ok::<Frame, WireError>(f),
{
    let b = frame_bytes(f);
    lemma_u32_bytes_roundtrip(f.player.0);
    lemma_u64_bytes_roundtrip(f.intent.tick);
    lemma_u32_bytes_roundtrip(f.intent.move_x_bits);
    lemma_u32_bytes_roundtrip(f.intent.move_y_bits);
    lemma_u32_bytes_roundtrip(f.intent.yaw_bits);
    lemma_u32_bytes_roundtrip(f.intent.pitch_bits);
    lemma_u32_bytes_roundtrip(f.intent.buttons.0);
    assert(b.len() == FRAME_BYTES);
    assert(frame_of(b) == f);
}

/// Every well-formed datagram is the encoding of the frame it reads as: no byte of it goes
/// unread.
pub proof fn law_every_byte_is_read(b: Seq<u8>)
    requires
        b.len() == FRAME_BYTES,
        b[0] == VERSION,
    ensures
        frame_bytes(frame_of(b)) == b,
{
    lemma_u32_value_roundtrip(b[1], b[2], b[3], b[4]);
    lemma_u64_value_roundtrip(b[5], b[6], b[7], b[8], b[9], b[10], b[11], b[12]);
    lemma_u32_value_roundtrip(b[13], b[14], b[15], b[16]);
    lemma_u32_value_roundtrip(b[17], b[18], b[19], b[20]);
    lemma_u32_value_roundtrip(b[21], b[22], b[23], b[24]);
    lemma_u32_value_roundtrip(b[25], b[26], b[27], b[28]);
    lemma_u32_value_roundtrip(b[29], b[30], b[31], b[32]);
    assert(frame_bytes(frame_of(b)) =~= b);
}

/// Two datagrams that read as the same frame are the same datagram: flipping any byte of a
/// well-formed frame changes what it reads as, or makes it unreadable.
pub proof fn law_distinct_datagrams_distinct_frames(a: Seq<u8>, b: Seq<u8>)
    requires
        read(a) is Ok,
        read(a) == read(b),
    ensures
        a == b,
{
    law_every_byte_is_read(a);
    law_every_byte_is_read(b);
}

// ---------------------------------------------------------------------------
// The code
// ---------------------------------------------------------------------------

fn put_u32(x: u32) -> (r: (u8, u8, u8, u8))
    ensures
        seq![r.0, r.1, r.2, r.3] == le_u32(x),
{
    let r = ((x & 0xff) as u8, ((x >> 8) & 0xff) as u8, ((x >> 16) & 0xff) as u8, ((x >> 24)
        & 0xff) as u8);
    assert(seq![r.0, r.1, r.2, r.3] =~= le_u32(x));
    r
}

fn get_u32(bytes: &[u8], at: usize) -> (r: u32)
    requires
        at + 4 <= bytes@.len(),
    ensures
        r == u32_at(bytes@, at as int),
{
    (bytes[at] as u32) | ((bytes[at + 1] as u32) << 8) | ((bytes[at + 2] as u32) << 16) | ((
    bytes[at + 3] as u32) << 24)
}

/// Writes a frame. Never fails.
pub fn encode(frame: &Frame) -> (out: [u8; FRAME_BYTES])
    ensures
        out@ == frame_bytes(*frame),
{
    let i = &frame.intent;
    let p = put_u32(frame.player.0);
    let t = i.tick;
    let (t0, t1, t2, t3, t4, t5, t6, t7) = (
        (t & 0xff) as u8,
        ((t >> 8) & 0xff) as u8,
        ((t >> 16) & 0xff) as u8,
        ((t >> 24) & 0xff) as u8,
        ((t >> 32) & 0xff) as u8,
        ((t >> 40) & 0xff) as u8,
        ((t >> 48) & 0xff) as u8,
        ((t >> 56) & 0xff) as u8,
    );
    let mx = put_u32(i.move_x_bits);
    let my = put_u32(i.move_y_bits);
    let yw = put_u32(i.yaw_bits);
    let pt = put_u32(i.pitch_bits);
    let bt = put_u32(i.buttons.0);
    let out = [
        VERSION, p.0, p.1, p.2, p.3,
        t0, t1, t2, t3, t4, t5, t6, t7,
        mx.0, mx.1, mx.2, mx.3,
        my.0, my.1, my.2, my.3,
        yw.0, yw.1, yw.2, yw.3,
        pt.0, pt.1, pt.2, pt.3,
        bt.0, bt.1, bt.2, bt.3,
    ];
    assert(out@ =~= frame_bytes(*frame));
    out
}

/// Reads a frame, or says why not. Never panics, whatever arrives.
pub fn decode(bytes: &[u8]) -> (r: Result<Frame, WireError>)
    ensures
        r == read(bytes@),
{
    if bytes.len() != FRAME_BYTES {
        return Err(WireError::Length(bytes.len()));
    }
    if bytes[0] != VERSION {
        return Err(WireError::Version(bytes[0]));
    }
    let tick = (bytes[5] as u64) | ((bytes[6] as u64) << 8) | ((bytes[7] as u64) << 16) | ((
    bytes[8] as u64) << 24) | ((bytes[9] as u64) << 32) | ((bytes[10] as u64) << 40) | ((
    bytes[11] as u64) << 48) | ((bytes[12] as u64) << 56);
    let frame = Frame {
        player: PlayerId(get_u32(bytes, 1)),
        intent: Intent {
            tick,
            move_x_bits: get_u32(bytes, 13),
            move_y_bits: get_u32(bytes, 17),
            yaw_bits: get_u32(bytes, 21),
            pitch_bits: get_u32(bytes, 25),
            buttons: Buttons(get_u32(bytes, 29)),
        },
    };
    assert(frame == frame_of(bytes@));
    Ok(frame)
}

} // verus!
