use perf_zoo::baseline::{uncontended_baseline, BASELINE_MAX_SUM};

fn by_steps(sum: u64) -> u64 {
    let mut value: u64 = 0;
    for _ in 0..sum {
        value += 1 + (value & 1);
    }
    value
}

#[test]
fn no_steps_leave_zero() {
    assert_eq!(uncontended_baseline(0), 0);
}

#[test]
fn first_step_adds_one() {
    assert_eq!(uncontended_baseline(1), 1);
}

#[test]
fn later_steps_add_two() {
    assert_eq!(uncontended_baseline(2), 3);
    assert_eq!(uncontended_baseline(3), 5);
    assert_eq!(uncontended_baseline(10), 19);
    assert_eq!(uncontended_baseline(1_000_000), 1_999_999);
}

#[test]
fn baseline_follows_the_step_rule() {
    for sum in 0u64..500 {
        assert_eq!(uncontended_baseline(sum), by_steps(sum));
    }
}

#[test]
fn baseline_exceeds_the_sum_from_two_steps_on() {
    assert!(!(uncontended_baseline(0) > 0));
    assert!(!(uncontended_baseline(1) > 1));
    for sum in 2u64..500 {
        assert!(uncontended_baseline(sum) > sum);
    }
}

#[test]
fn baseline_limit_is_two_to_the_63() {
    assert_eq!(BASELINE_MAX_SUM, 1u64 << 63);
}
