use defeated_by_titan::net::wire::{decode, encode, Frame, WireError, FRAME_BYTES, VERSION};
use defeated_by_titan::shared::{Buttons, Intent, PlayerId};

fn a_frame() -> Frame {
    let mut buttons = Buttons::none();
    buttons.set(Buttons::HOOK_LEFT, true);
    buttons.set(Buttons::BOOST, true);
    Frame {
        player: PlayerId(3),
        intent: Intent {
            move_x_bits: (-1.0f32).to_bits(),
            move_y_bits: 0.5f32.to_bits(),
            yaw_bits: 1.234_5f32.to_bits(),
            pitch_bits: (-0.678_9f32).to_bits(),
            buttons,
            tick: 4_294_967_400, // past u32 on purpose: the tick is a u64
        },
    }
}

#[test]
fn wire_a_frame_survives_the_round_trip_bit_for_bit() {
    let sent = a_frame();
    let got = decode(&encode(&sent)).expect("a frame we wrote ourselves");
    assert_eq!(got, sent, "what went in is not what came out");
}

#[test]
fn wire_a_frame_is_always_the_same_size() {
    assert_eq!(FRAME_BYTES, 33);
    assert_eq!(encode(&a_frame()).len(), FRAME_BYTES);
    assert_eq!(
        encode(&Frame { player: PlayerId(0), intent: Intent::default() }).len(),
        FRAME_BYTES,
        "an empty intent takes exactly as many bytes as a full one"
    );
}

#[test]
fn wire_a_short_datagram_is_an_error_and_not_a_panic() {
    let full = encode(&a_frame());
    for len in [0usize, 1, 12, FRAME_BYTES - 1] {
        assert_eq!(decode(&full[..len]), Err(WireError::Length(len)));
    }
    let mut too_long = full.to_vec();
    too_long.push(0);
    assert_eq!(decode(&too_long), Err(WireError::Length(FRAME_BYTES + 1)));
}

#[test]
fn wire_a_frame_from_another_build_is_refused() {
    let mut bytes = encode(&a_frame());
    bytes[0] = 0x02;
    assert_eq!(decode(&bytes), Err(WireError::Version(0x02)));
}

#[test]
fn wire_every_byte_matters() {
    let base = encode(&a_frame());
    let reference = decode(&base).expect("valid");
    for byte in 1..FRAME_BYTES {
        let mut mutated = base;
        mutated[byte] ^= 0b0000_0001;
        let got = decode(&mutated).expect("still a valid frame");
        assert_ne!(got, reference, "byte {byte} is not read by decode() — it could carry anything");
    }
}

#[test]
fn wire_the_layout_is_little_endian_field_by_field() {
    let bytes = encode(&a_frame());
    assert_eq!(bytes[0], VERSION);
    assert_eq!(&bytes[1..5], &3u32.to_le_bytes());
    assert_eq!(&bytes[5..13], &4_294_967_400u64.to_le_bytes());
    assert_eq!(&bytes[13..17], &(-1.0f32).to_le_bytes());
    assert_eq!(&bytes[17..21], &0.5f32.to_le_bytes());
    assert_eq!(&bytes[21..25], &1.234_5f32.to_le_bytes());
    assert_eq!(&bytes[25..29], &(-0.678_9f32).to_le_bytes());
    assert_eq!(&bytes[29..33], &(Buttons::HOOK_LEFT | Buttons::BOOST).to_le_bytes());
}

#[test]
fn wire_distinct_frames_never_share_bytes() {
    let a = a_frame();
    let mut b = a_frame();
    b.intent.buttons.set(Buttons::JUMP, true);
    assert_ne!(encode(&a), encode(&b));
    let mut c = a_frame();
    c.player = PlayerId(4);
    assert_ne!(encode(&a), encode(&c));
}

#[test]
fn wire_a_length_error_wins_over_a_version_error() {
    let bytes = [0x02u8; 5];
    assert_eq!(decode(&bytes), Err(WireError::Length(5)));
}
