use ntp_client::sched::{hybrid_wait_plan, wait_until_sim, SimClock, WaitPlan};

#[test]
fn waits_inside_the_window_sleep_then_spin() {
    assert!(matches!(
        hybrid_wait_plan(500_000),
        WaitPlan::SleepThenSpin { sleep_us: 498_000 }
    ));
    assert!(matches!(
        hybrid_wait_plan(5_001),
        WaitPlan::SleepThenSpin { sleep_us: 3_001 }
    ));
    assert!(matches!(
        hybrid_wait_plan(1_999_999),
        WaitPlan::SleepThenSpin { sleep_us: 1_997_999 }
    ));
}

#[test]
fn waits_outside_the_window_proceed_at_once() {
    assert!(matches!(hybrid_wait_plan(5_000), WaitPlan::Proceed));
    assert!(matches!(hybrid_wait_plan(2_000_000), WaitPlan::Proceed));
    assert!(matches!(hybrid_wait_plan(0), WaitPlan::Proceed));
    assert!(matches!(hybrid_wait_plan(-50), WaitPlan::Proceed));
}

#[test]
fn a_half_second_wait_lands_within_two_milliseconds() {
    let start = 1_700_000_000_000_000i64;
    let deadline = start + 500_000;
    let mut clock = SimClock { now_us: start, tick_us: 100 };
    let landed = wait_until_sim(&mut clock, deadline);
    assert!(landed >= deadline);
    assert!(landed - deadline < 2_000);
    assert_eq!(landed, clock.now_us);
}

#[test]
fn overshoot_is_below_one_polling_tick() {
    let start = 42_000_000i64;
    let deadline = start + 123_457;
    let mut clock = SimClock { now_us: start, tick_us: 7 };
    let landed = wait_until_sim(&mut clock, deadline);
    assert!(landed >= deadline);
    assert!(landed < deadline + 7);
}

#[test]
fn a_large_correction_skips_the_wait() {
    let start = 10_000_000i64;
    let mut clock = SimClock { now_us: start, tick_us: 100 };
    let landed = wait_until_sim(&mut clock, start + 30_000_000);
    assert_eq!(landed, start);
    assert_eq!(clock.now_us, start);
}

#[test]
fn a_tiny_or_passed_deadline_skips_the_wait() {
    let start = 10_000_000i64;
    let mut clock = SimClock { now_us: start, tick_us: 100 };
    let landed = wait_until_sim(&mut clock, start + 4_000);
    assert_eq!(landed, start);
    let landed = wait_until_sim(&mut clock, start - 1_000);
    assert_eq!(landed, start);
}
