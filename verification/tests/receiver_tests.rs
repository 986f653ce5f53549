use vkb_bridge::apply::{button_changes, xor_16, ButtonWrite, Outcome, Receiver, Update};
use vkb_bridge::hat::{FourWayHat, HatState};
use vkb_bridge::sender::{emit, period_nanos, plan_wake, Wake, FIRST_SEQ};
use vkb_bridge::state::SharedState;
use vkb_bridge::wire::{encode_packet, DecodeError, Packet};
use vkb_bridge::axis::AxisRange;
use vkb_bridge::devices::{first_match, DeviceId};

#[test]
fn xor_of_button_sets() {
    let mut a = [0u8; 16];
    let mut b = [0u8; 16];
    a[0] = 0b1100;
    b[0] = 0b1010;
    a[15] = 0xFF;
    let d = xor_16(a, b);
    assert_eq!(d[0], 0b0110);
    assert_eq!(d[15], 0xFF);
    assert_eq!(&d[1..15], &[0u8; 14]);
    assert_eq!(xor_16(a, a), [0u8; 16]);
}

#[test]
fn one_changed_bit_gives_one_write() {
    let last = [0u8; 16];
    let mut new = [0u8; 16];
    new[1] = 0b0000_0001 << 1;
    assert_eq!(button_changes(&new, &last), vec![ButtonWrite { id: 10, down: true }]);
    assert_eq!(button_changes(&last, &new), vec![ButtonWrite { id: 10, down: false }]);
    assert_eq!(button_changes(&new, &new), Vec::new());
}

#[test]
fn writes_come_in_ascending_order() {
    let mut last = [0u8; 16];
    let mut new = [0u8; 16];
    last[0] = 0b0000_0011;
    new[0] = 0b1000_0001;
    new[15] = 0x80;
    last[7] = 0x10;
    assert_eq!(
        button_changes(&new, &last),
        vec![
            ButtonWrite { id: 2, down: false },
            ButtonWrite { id: 8, down: true },
            ButtonWrite { id: 61, down: false },
            ButtonWrite { id: 128, down: true },
        ]
    );
}

fn packet(seq: u16, buttons: [u8; 16]) -> [u8; 42] {
    let p = Packet { seq, axes: [1, 2, 3, 4, 5, 6, 7, 32768], hat_x: 1, hat_y: -1, buttons };
    let mut buf = [0u8; 42];
    encode_packet(&mut buf, &p);
    buf
}

const DISCRETE: HatState = HatState::Discrete(FourWayHat::Centered);

#[test]
fn receiver_applies_and_diffs_buttons() {
    let mut rx = Receiver::new();
    let mut b1 = [0u8; 16];
    b1[0] = 1;
    let out = rx.handle(&packet(7, b1), DISCRETE, true);
    assert_eq!(
        out,
        Outcome::Apply(Update {
            axes: [1, 2, 3, 4, 5, 6, 7, 32768],
            hat: Some(HatState::Discrete(FourWayHat::North)),
            buttons: vec![ButtonWrite { id: 1, down: true }],
        })
    );
    assert_eq!(rx.last_buttons, b1);
    let mut b2 = b1;
    b2[1] = 1;
    let out = rx.handle(&packet(8, b2), HatState::Continuous(0), true);
    assert_eq!(
        out,
        Outcome::Apply(Update {
            axes: [1, 2, 3, 4, 5, 6, 7, 32768],
            hat: Some(HatState::Continuous(4500)),
            buttons: vec![ButtonWrite { id: 9, down: true }],
        })
    );
    let out = rx.handle(&packet(9, b2), DISCRETE, false);
    assert_eq!(
        out,
        Outcome::Apply(Update { axes: [1, 2, 3, 4, 5, 6, 7, 32768], hat: None, buttons: vec![] })
    );
    assert_eq!(rx.received, 3);
    assert_eq!(rx.tracker.applied, 3);
    assert_eq!(rx.tracker.last_seq, Some(9));
}

#[test]
fn receiver_drops_stale_packets_without_touching_buttons() {
    let mut rx = Receiver::new();
    let mut b = [0u8; 16];
    b[3] = 0x0F;
    assert!(matches!(rx.handle(&packet(100, [0; 16]), DISCRETE, true), Outcome::Apply(_)));
    assert_eq!(rx.handle(&packet(100, b), DISCRETE, true), Outcome::Duplicate);
    assert_eq!(rx.handle(&packet(50, b), DISCRETE, true), Outcome::OutOfOrder);
    assert_eq!(rx.last_buttons, [0; 16]);
    assert_eq!(rx.tracker.last_seq, Some(100));
    assert_eq!((rx.tracker.duplicate, rx.tracker.out_of_order), (1, 1));
    assert!(matches!(rx.handle(&packet(200, b), DISCRETE, true), Outcome::Apply(_)));
    assert_eq!(rx.tracker.lost_estimate, 99);
    assert_eq!(rx.received, 4);
    assert_eq!(rx.bad, 0);
}

#[test]
fn receiver_counts_bad_datagrams() {
    let mut rx = Receiver::new();
    let good = packet(1, [0; 16]);
    assert_eq!(rx.handle(&good[..20], DISCRETE, true), Outcome::Bad(DecodeError::TooShort));
    let mut magic = good;
    magic[0] = b'W';
    assert_eq!(rx.handle(&magic, DISCRETE, true), Outcome::Bad(DecodeError::BadMagic));
    let mut version = good;
    version[4] = 1;
    assert_eq!(rx.handle(&version, DISCRETE, true), Outcome::Bad(DecodeError::BadVersion));
    let mut long = good.to_vec();
    long.push(0);
    assert_eq!(rx.handle(&long, DISCRETE, true), Outcome::Bad(DecodeError::TooLong));
    assert_eq!((rx.received, rx.bad), (4, 4));
    assert_eq!(rx.tracker.last_seq, None);
    assert_eq!(rx.tracker.applied, 0);
    assert!(rx.can_count());
    assert!(matches!(rx.handle(&good, DISCRETE, true), Outcome::Apply(_)));
    assert_eq!((rx.received, rx.bad), (5, 4));
}

#[test]
fn period_of_send_rate() {
    assert_eq!(period_nanos(250), 4_000_000);
    assert_eq!(period_nanos(1), 1_000_000_000);
    assert_eq!(period_nanos(3), 333_333_333);
    assert_eq!(period_nanos(1_000_000_000), 1);
    assert_eq!(period_nanos(2_000_000_000), 1);
    assert_eq!(period_nanos(u64::MAX), 1);
}

#[test]
fn wake_plan_never_catches_up() {
    assert_eq!(plan_wake(1000, 400), Wake { sleep_nanos: 600, next: 1000 });
    assert_eq!(plan_wake(1000, 1000), Wake { sleep_nanos: 0, next: 1000 });
    assert_eq!(plan_wake(1000, 5000), Wake { sleep_nanos: 0, next: 5000 });
}

#[test]
fn emit_moves_sequence_on() {
    let st = SharedState::default();
    let ranges = [AxisRange { min: 0, max: 10 }; 8];
    let mut buf = [0u8; 42];
    let mut seq = 65534u16;
    emit(&mut buf, &mut seq, &st, &ranges);
    assert_eq!(seq, 65535);
    assert_eq!(&buf[6..8], &[0xFE, 0xFF]);
    emit(&mut buf, &mut seq, &st, &ranges);
    assert_eq!(seq, 0);
    assert_eq!(&buf[6..8], &[0xFF, 0xFF]);
    emit(&mut buf, &mut seq, &st, &ranges);
    assert_eq!(seq, 1);
    assert_eq!(&buf[6..8], &[0x00, 0x00]);
}

#[test]
fn pacer_accumulates_and_resets() {
    let mut p = vkb_bridge::sender::Pacer::new(250, 1_000);
    assert_eq!(p.period, 4_000_000);
    assert_eq!(p.next, 1_000);
    assert!(p.can_begin());
    p.begin_tick();
    assert_eq!(p.next, 4_001_000);
    assert_eq!(p.end_tick(1_001_000), 3_000_000);
    assert_eq!(p.next, 4_001_000);
    p.begin_tick();
    assert_eq!(p.next, 8_001_000);
    assert_eq!(p.end_tick(9_000_000), 0);
    assert_eq!(p.next, 9_000_000);
    p.next = u64::MAX - 3_999_999;
    assert!(!p.can_begin());
    p.next = u64::MAX - 4_000_000;
    assert!(p.can_begin());
}

#[test]
fn first_matching_device() {
    let ids = vec![
        DeviceId { vendor: 1, product: 2 },
        DeviceId { vendor: 0x231d, product: 0x0201 },
        DeviceId { vendor: 0x231d, product: 0x0200 },
        DeviceId { vendor: 0x231d, product: 0x0200 },
    ];
    assert_eq!(first_match(&ids, 0x231d, 0x0200), Some(2));
    assert_eq!(first_match(&ids, 1, 2), Some(0));
    assert_eq!(first_match(&ids, 2, 1), None);
    assert_eq!(first_match(&Vec::new(), 1, 2), None);
}

#[test]
fn writes_lead_from_last_to_new() {
    let mut last = [0u8; 16];
    let mut new = [0u8; 16];
    for i in 0..16 {
        last[i] = (i as u8).wrapping_mul(37) ^ 0x5A;
        new[i] = (i as u8).wrapping_mul(101) ^ 0xC3;
    }
    let writes = button_changes(&new, &last);
    let mut st = SharedState::default();
    st.buttons = last;
    let mut previous = 0u8;
    for w in writes.iter() {
        assert!(w.id > previous);
        previous = w.id;
        assert!(st.set_button(w.id, w.down));
    }
    assert_eq!(st.buttons, new);
    assert_eq!(st.revision, writes.len() as u64);
}

#[test]
fn sequence_starts_at_zero_and_counts_up() {
    let st = SharedState::default();
    let ranges = [AxisRange { min: 0, max: 10 }; 8];
    let mut buf = [0u8; 42];
    let mut seq = FIRST_SEQ;
    assert_eq!(seq, 0);
    for n in 0..70000u32 {
        assert_eq!(seq, (n % 65536) as u16);
        emit(&mut buf, &mut seq, &st, &ranges);
        assert_eq!(&buf[6..8], &[(n % 256) as u8, ((n / 256) % 256) as u8]);
    }
}

#[test]
fn button_nine_is_bit_zero_of_byte_one() {
    let last = [0u8; 16];
    let mut new = [0u8; 16];
    new[1] = 0b0000_0001;
    assert_eq!(button_changes(&new, &last), vec![ButtonWrite { id: 9, down: true }]);
}
