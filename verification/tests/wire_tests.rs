use vkb_bridge::axis::AxisRange;
use vkb_bridge::state::SharedState;
use vkb_bridge::wire::{
    decode_vkb2, encode_packet, encode_vkb2, packet_from_state, DecodeError, Packet, PKT_LEN,
};

fn sample_state() -> SharedState {
    let mut buttons = [0u8; 16];
    buttons[0] = 0b0000_0101;
    buttons[1] = 0x01;
    buttons[15] = 0x80;
    SharedState {
        axes_raw: [0, 4095, 2048, -10, 5000, 1, 100, 4094],
        hat_x: -1,
        hat_y: 1,
        buttons,
        revision: 77,
    }
}

fn ranges() -> [AxisRange; 8] {
    [AxisRange { min: 0, max: 4095 }; 8]
}

#[test]
fn encode_exact_bytes() {
    let mut buf = [0xAAu8; 42];
    encode_vkb2(&mut buf, 0x1234, &sample_state(), &ranges());
    let mut want = vec![b'V', b'K', b'B', b'2', 2, 0, 0x34, 0x12];
    for v in [0u16, 32768, 16388, 0, 32768, 8, 800, 32759] {
        want.push((v & 0xff) as u8);
        want.push((v >> 8) as u8);
    }
    want.push(0xFF);
    want.push(0x01);
    want.extend_from_slice(&sample_state().buttons);
    assert_eq!(want.len(), PKT_LEN);
    assert_eq!(buf.to_vec(), want);
}

#[test]
fn round_trip_of_snapshot() {
    let st = sample_state();
    for seq in [0u16, 1, 255, 256, 0x8000, 65535] {
        let mut buf = [0u8; 42];
        encode_vkb2(&mut buf, seq, &st, &ranges());
        let p = decode_vkb2(&buf).unwrap();
        assert_eq!(p.seq, seq);
        assert_eq!(p.axes, [0, 32768, 16388, 0, 32768, 8, 800, 32759]);
        assert_eq!(p.hat_x, -1);
        assert_eq!(p.hat_y, 1);
        assert_eq!(p.buttons, st.buttons);
        assert_eq!(p, packet_from_state(seq, &st, &ranges()));
    }
}

#[test]
fn round_trip_of_any_packet() {
    let p = Packet {
        seq: 0xFFFE,
        axes: [0, 1, 255, 256, 257, 0x7FFF, 0x8000, 0xFFFF],
        hat_x: -128,
        hat_y: 127,
        buttons: [0xFF; 16],
    };
    let mut buf = [0u8; 42];
    encode_packet(&mut buf, &p);
    assert_eq!(decode_vkb2(&buf), Ok(p));
}

#[test]
fn decode_ignores_reserved_byte() {
    let mut buf = [0u8; 42];
    encode_vkb2(&mut buf, 9, &sample_state(), &ranges());
    let want = decode_vkb2(&buf).unwrap();
    let mut other = buf;
    other[5] = 0x7F;
    assert_eq!(decode_vkb2(&other), Ok(want));
}

#[test]
fn decode_rejects_long_payload() {
    let mut buf = [0u8; 42];
    encode_vkb2(&mut buf, 9, &sample_state(), &ranges());
    let mut long = buf.to_vec();
    long.push(0);
    assert_eq!(decode_vkb2(&long), Err(DecodeError::TooLong));
    long.extend_from_slice(&[1, 2, 3]);
    assert_eq!(decode_vkb2(&long), Err(DecodeError::TooLong));
    assert_eq!(decode_vkb2(&[0u8; 2048]), Err(DecodeError::TooLong));
}

#[test]
fn frames_of_the_two_kinds_do_not_pass_for_each_other() {
    let st = vkb_bridge::multi::SharedState { axis_range: ranges(), input: sample_state() };
    let mut with_device = [0u8; 43];
    vkb_bridge::multi::encode_vkb2(&mut with_device, 5, 1, &st);
    assert_eq!(decode_vkb2(&with_device), Err(DecodeError::TooLong));
    let mut plain = [0u8; 42];
    encode_vkb2(&mut plain, 5, &sample_state(), &ranges());
    assert_eq!(vkb_bridge::multi::decode_vkb2(&plain), Err(DecodeError::TooShort));
}

#[test]
fn decode_rejects_short_payload() {
    let mut buf = [0u8; 42];
    encode_vkb2(&mut buf, 9, &sample_state(), &ranges());
    assert_eq!(decode_vkb2(&buf[..41]), Err(DecodeError::TooShort));
    assert_eq!(decode_vkb2(&[]), Err(DecodeError::TooShort));
    assert_eq!(decode_vkb2(b"VKB2"), Err(DecodeError::TooShort));
}

#[test]
fn decode_rejects_wrong_magic() {
    let mut buf = [0u8; 42];
    encode_vkb2(&mut buf, 9, &sample_state(), &ranges());
    for i in 0..4 {
        let mut bad = buf;
        bad[i] ^= 0x20;
        assert_eq!(decode_vkb2(&bad), Err(DecodeError::BadMagic));
    }
    let mut old = buf;
    old[3] = b'1';
    assert_eq!(decode_vkb2(&old), Err(DecodeError::BadMagic));
}

#[test]
fn decode_rejects_unsupported_version() {
    let mut buf = [0u8; 42];
    encode_vkb2(&mut buf, 9, &sample_state(), &ranges());
    for v in [0u8, 1, 3, 255] {
        let mut bad = buf;
        bad[4] = v;
        assert_eq!(decode_vkb2(&bad), Err(DecodeError::BadVersion));
    }
}

#[test]
fn decode_tests_length_before_magic_before_version() {
    assert_eq!(decode_vkb2(&[b'X'; 10]), Err(DecodeError::TooShort));
    assert_eq!(decode_vkb2(&[b'X'; 50]), Err(DecodeError::TooLong));
    let mut bad = [0u8; 42];
    bad[4] = 9;
    assert_eq!(decode_vkb2(&bad), Err(DecodeError::BadMagic));
}

#[test]
fn multi_encode_exact_bytes() {
    let st = vkb_bridge::multi::SharedState { axis_range: ranges(), input: sample_state() };
    let mut buf = [0xAAu8; 43];
    vkb_bridge::multi::encode_vkb2(&mut buf, 0xBEEF, 3, &st);
    let mut plain = [0u8; 42];
    encode_vkb2(&mut plain, 0xBEEF, &sample_state(), &ranges());
    assert_eq!(&buf[..5], b"VKB2\x02");
    assert_eq!(buf[5], 3);
    assert_eq!(buf[6], 0);
    assert_eq!(&buf[7..9], &[0xEF, 0xBE]);
    assert_eq!(&buf[7..], &plain[6..]);
    assert_eq!(vkb_bridge::multi::PKT_LEN, 43);
}

#[test]
fn multi_emit_moves_sequence_on() {
    let st = vkb_bridge::multi::SharedState::default();
    let mut buf = [0u8; 43];
    let mut seq = 65535u16;
    vkb_bridge::multi::emit(&mut buf, &mut seq, 1, &st);
    assert_eq!(seq, 0);
    assert_eq!(&buf[7..9], &[0xFF, 0xFF]);
    assert_eq!(&buf[9..11], &[0x00, 0x40]);
}

#[test]
fn multi_round_trip() {
    let st = vkb_bridge::multi::SharedState { axis_range: ranges(), input: sample_state() };
    for (device_id, seq) in [(0u8, 0u16), (1, 513), (255, 65535)] {
        let mut buf = [0u8; 43];
        vkb_bridge::multi::encode_vkb2(&mut buf, seq, device_id, &st);
        let (dev, p) = vkb_bridge::multi::decode_vkb2(&buf).unwrap();
        assert_eq!(dev, device_id);
        assert_eq!(p, packet_from_state(seq, &sample_state(), &ranges()));
    }
}

#[test]
fn multi_decode_rejects() {
    let st = vkb_bridge::multi::SharedState { axis_range: ranges(), input: sample_state() };
    let mut buf = [0u8; 43];
    vkb_bridge::multi::encode_vkb2(&mut buf, 1, 1, &st);
    assert_eq!(vkb_bridge::multi::decode_vkb2(&buf[..42]), Err(DecodeError::TooShort));
    let mut long = buf.to_vec();
    long.push(0);
    assert_eq!(vkb_bridge::multi::decode_vkb2(&long), Err(DecodeError::TooLong));
    let mut reserved = buf;
    reserved[6] = 0xEE;
    assert_eq!(vkb_bridge::multi::decode_vkb2(&reserved), vkb_bridge::multi::decode_vkb2(&buf));
    let mut magic = buf;
    magic[1] = b'k';
    assert_eq!(vkb_bridge::multi::decode_vkb2(&magic), Err(DecodeError::BadMagic));
    let mut version = buf;
    version[4] = 3;
    assert_eq!(vkb_bridge::multi::decode_vkb2(&version), Err(DecodeError::BadVersion));
}
