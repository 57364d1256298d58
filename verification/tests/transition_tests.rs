use backlight::transition::distance_of;
use backlight::transition::interval;
use backlight::transition::steps;

#[test]
fn distance_of_counts_the_units_between_two_levels() {
    assert_eq!(distance_of(100, 120), 20);
    assert_eq!(distance_of(120, 100), 20);
    assert_eq!(distance_of(7, 7), 0);
    assert_eq!(distance_of(i32::MIN, i32::MAX), u32::MAX);
    assert_eq!(distance_of(i32::MAX, i32::MIN), u32::MAX);
}

#[test]
fn no_steps_where_nothing_changes() {
    assert_eq!(steps(50, 50, false), Vec::<i32>::new());
    assert_eq!(steps(50, 50, true), Vec::<i32>::new());
    assert_eq!(steps(0, 0, true), Vec::<i32>::new());
}

#[test]
fn one_step_without_a_duration() {
    assert_eq!(steps(50, 80, false), vec![80]);
    assert_eq!(steps(80, 50, false), vec![50]);
    assert_eq!(steps(0, 255, false), vec![255]);
    assert_eq!(steps(10, 11, false), vec![11]);
}

#[test]
fn one_step_for_each_unit_with_a_duration() {
    assert_eq!(steps(100, 103, true), vec![101, 102, 103]);
    assert_eq!(steps(103, 100, true), vec![102, 101, 100]);
    assert_eq!(steps(10, 11, true), vec![11]);
    assert_eq!(steps(1, 0, true), vec![0]);
}

#[test]
fn steps_from_100_to_120_are_101_to_120() {
    let list = steps(100, 120, true);
    assert_eq!(list.len(), 20);
    assert_eq!(list, (101..=120).collect::<Vec<i32>>());
}

#[test]
fn steps_end_at_the_target_and_leave_out_the_start() {
    for (current, target) in [(0, 255), (255, 0), (17, 18), (18, 17), (40, 90)] {
        for timed in [false, true] {
            let list = steps(current, target, timed);
            assert_eq!(list.last(), Some(&target));
            assert!(!list.contains(&current));
        }
    }
}

#[test]
fn timed_steps_are_one_unit_apart() {
    for (current, target) in [(0, 300), (300, 0), (-5, 5), (5, -5)] {
        let list = steps(current, target, true);
        assert_eq!(list.len() as u32, distance_of(current, target));
        let way = if target > current { 1 } else { -1 };
        let mut before = current;
        for level in list {
            assert_eq!(level - before, way);
            before = level;
        }
        assert_eq!(before, target);
    }
}

#[test]
fn interval_divides_the_duration_among_the_steps() {
    // 200 ms over 20 steps: 10 ms each.
    assert_eq!(interval(100, 120, Some(200)), Some(10_000));
    assert_eq!(interval(120, 100, Some(200)), Some(10_000));
    assert_eq!(interval(0, 2, Some(1)), Some(500));
    assert_eq!(interval(0, 100, Some(0)), Some(0));
}

#[test]
fn interval_rounds_up_to_the_microsecond() {
    // 1000 ms over 3 steps: 333333.3 microseconds.
    assert_eq!(interval(0, 3, Some(1000)), Some(333_334));
    assert_eq!(interval(0, 7, Some(1)), Some(143));
    // 1 ms over 3 steps: 333.3 microseconds.
    assert_eq!(interval(0, 3, Some(1)), Some(334));
    // 1000 ms over 255 steps: 3921.6 microseconds.
    assert_eq!(interval(0, 255, Some(1000)), Some(3_922));
}

#[test]
fn the_intervals_together_are_never_less_than_the_duration() {
    for millis in [0u64, 1, 2, 7, 200, 999, 1000, 60_000, u64::MAX] {
        for target in [2, 3, 7, 20, 255, 96000] {
            let each = interval(0, target, Some(millis)).unwrap();
            let whole = millis as u128 * 1000;
            assert!(each * target as u128 >= whole);
            assert!(each * (target as u128) < whole + target as u128);
        }
    }
}

#[test]
fn interval_takes_the_longest_duration() {
    assert_eq!(interval(0, 2, Some(u64::MAX)), Some(u64::MAX as u128 * 500));
    assert_eq!(
        interval(i32::MIN, i32::MAX, Some(u64::MAX)),
        Some((u64::MAX as u128 * 1000 + u32::MAX as u128 - 1) / u32::MAX as u128)
    );
}

#[test]
fn no_interval_without_a_duration() {
    assert_eq!(interval(100, 120, None), None);
    assert_eq!(interval(0, 0, None), None);
}

#[test]
fn no_interval_for_a_change_of_one_unit_or_none() {
    assert_eq!(interval(10, 11, Some(200)), None);
    assert_eq!(interval(11, 10, Some(200)), None);
    assert_eq!(interval(10, 10, Some(200)), None);
}
