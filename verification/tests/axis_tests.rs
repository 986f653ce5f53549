use vkb_bridge::axis::{
    build_axis_ranges, collect_ranges, normalize_axis, AxisInfo, AxisRange, MissingAxis,
};

fn range(min: i32, max: i32) -> AxisRange {
    AxisRange { min, max }
}

#[test]
fn normalize_ends_of_range() {
    assert_eq!(normalize_axis(0, range(0, 4095)), 0);
    assert_eq!(normalize_axis(4095, range(0, 4095)), 32768);
    assert_eq!(normalize_axis(-32768, range(-32768, 32767)), 0);
    assert_eq!(normalize_axis(32767, range(-32768, 32767)), 32768);
}

#[test]
fn normalize_inner_values_round_down() {
    assert_eq!(normalize_axis(2048, range(0, 4095)), 16388);
    assert_eq!(normalize_axis(1, range(0, 4095)), 8);
    assert_eq!(normalize_axis(0, range(-32768, 32767)), 16384);
    assert_eq!(normalize_axis(1, range(0, 3)), 10922);
}

#[test]
fn normalize_point_range_is_midpoint() {
    assert_eq!(normalize_axis(7, range(7, 7)), 16384);
    assert_eq!(normalize_axis(-1000, range(7, 7)), 16384);
    assert_eq!(normalize_axis(0, AxisRange::default()), 16384);
}

#[test]
fn normalize_clamps_outside_values() {
    assert_eq!(normalize_axis(-5, range(0, 4095)), 0);
    assert_eq!(normalize_axis(5000, range(0, 4095)), 32768);
    assert_eq!(normalize_axis(i32::MAX, range(i32::MIN, 0)), 32768);
    assert_eq!(normalize_axis(i32::MIN, range(0, i32::MAX)), 0);
}

#[test]
fn normalize_extreme_range_does_not_overflow() {
    assert_eq!(normalize_axis(i32::MAX, range(i32::MIN, i32::MAX)), 32768);
    assert_eq!(normalize_axis(i32::MIN, range(i32::MIN, i32::MAX)), 0);
    assert_eq!(normalize_axis(0, range(i32::MIN, i32::MAX)), 16384);
}

#[test]
fn normalize_inverted_range() {
    assert_eq!(normalize_axis(50, range(100, 0)), 16384);
    assert_eq!(normalize_axis(100, range(100, 0)), 0);
    assert_eq!(normalize_axis(0, range(100, 0)), 32768);
    assert_eq!(normalize_axis(150, range(100, 0)), 0);
    assert_eq!(normalize_axis(-50, range(100, 0)), 32768);
}

#[test]
fn normalize_is_monotonic_and_bounded() {
    let r = range(-300, 700);
    let mut last = 0u16;
    for raw in -400..=800 {
        let v = normalize_axis(raw, r);
        assert!(v <= 32768);
        assert!(v >= last);
        last = v;
    }
    assert_eq!(last, 32768);
}

fn info(code: u16, min: i32, max: i32) -> AxisInfo {
    AxisInfo { code, min, max }
}

#[test]
fn axis_ranges_in_slot_order() {
    let infos = vec![
        info(7, 70, 71),
        info(0, 0, 1),
        info(16, -1, 1),
        info(3, 30, 31),
        info(1, 10, 11),
        info(2, 20, 21),
        info(6, 60, 61),
        info(5, 50, 51),
        info(4, 40, 41),
    ];
    let out = build_axis_ranges(&infos).unwrap();
    for k in 0..8 {
        assert_eq!(out[k], range(10 * k as i32, 10 * k as i32 + 1));
    }
}

#[test]
fn axis_ranges_last_entry_wins() {
    let mut infos: Vec<AxisInfo> = (0..8).map(|c| info(c, 0, 100)).collect();
    infos.push(info(2, -5, 5));
    let out = build_axis_ranges(&infos).unwrap();
    assert_eq!(out[2], range(-5, 5));
    assert_eq!(out[1], range(0, 100));
    let table = collect_ranges(&infos);
    assert_eq!(table.len(), 8);
    assert_eq!(table.get(&2), Some(&range(-5, 5)));
    assert_eq!(table.get(&9), None);
}

#[test]
fn axis_ranges_first_missing_axis() {
    let infos = vec![info(0, 0, 1), info(1, 0, 1), info(2, 0, 1), info(4, 0, 1), info(7, 0, 1)];
    assert_eq!(build_axis_ranges(&infos), Err(MissingAxis { slot: 3, code: 3 }));
    assert_eq!(build_axis_ranges(&Vec::new()), Err(MissingAxis { slot: 0, code: 0 }));
}
