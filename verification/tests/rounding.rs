use flipper_ir_dumps::utils::round_to;

#[test]
fn lib_test_round_to() {
    assert_eq!(round_to(0, 550), 0);
    assert_eq!(round_to(1, 550), 0);
    assert_eq!(round_to(549, 550), 550);
    assert_eq!(round_to(550, 550), 550);
    assert_eq!(round_to(551, 550), 550);
    assert_eq!(round_to(120, 50), 100);
    assert_eq!(round_to(125, 50), 150);

    assert_eq!(round_to(2972, 550), 2750);
}

#[test]
fn plotting_test_round_to() {
    assert_eq!(round_to(0, 550), 0);
    assert_eq!(round_to(1, 550), 0);
    assert_eq!(round_to(549, 550), 550);
    assert_eq!(round_to(550, 550), 550);
    assert_eq!(round_to(551, 550), 550);
    assert_eq!(round_to(120, 50), 100);
    assert_eq!(round_to(125, 50), 150);
}

#[test]
fn round_to_gives_a_multiple_within_half_a_unit() {
    for unit in [1u32, 2, 3, 7, 50, 550, 1000] {
        for x in 0u32..3000 {
            let rounded = round_to(x, unit);
            assert_eq!(rounded % unit, 0);
            let distance = if rounded > x { rounded - x } else { x - rounded };
            assert!(distance <= unit / 2);
        }
    }
}

#[test]
fn round_to_sends_a_tie_upwards() {
    assert_eq!(round_to(275, 550), 550);
    assert_eq!(round_to(274, 550), 0);
    assert_eq!(round_to(825, 550), 1100);
    assert_eq!(round_to(824, 550), 550);
    assert_eq!(round_to(1, 2), 2);
    assert_eq!(round_to(3, 2), 4);
}

#[test]
fn round_to_reaches_the_largest_durations() {
    assert_eq!(round_to(u32::MAX, 550), 4_294_967_050);
    assert_eq!(round_to(u32::MAX, 1), u32::MAX);
    assert_eq!(round_to(u32::MAX, 1000), 4_294_967_000);
    assert_eq!(round_to(u32::MAX, u32::MAX), u32::MAX);
    assert_eq!(round_to(0, u32::MAX), 0);
}
