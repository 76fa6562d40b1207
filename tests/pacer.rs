use pi_os::pacer::{FrameTicks, TickPlan, FRAME_DURATION_NANOS};

#[test]
fn early_tick_sleeps_rest_of_interval() {
    let mut t = FrameTicks::with_interval(1_000, 100);
    for elapsed in [0u64, 1, 40, 99] {
        let mut c = FrameTicks::with_interval(1_000, 100);
        let plan = c.tick(1_000 + elapsed);
        assert_eq!(plan, TickPlan { skipped: 0, sleep: 100 - elapsed });
        assert_eq!(c.last_tick(), 1_100);
    }
    let plan = t.tick(1_030);
    assert_eq!(plan.skipped, 0);
    assert_eq!(plan.sleep, 70);
}

#[test]
fn late_tick_reports_skipped_intervals() {
    // elapsed = 3 * 100 + 25
    let mut t = FrameTicks::with_interval(0, 100);
    let plan = t.tick(325);
    assert_eq!(plan, TickPlan { skipped: 3, sleep: 75 });
    assert_eq!(t.last_tick(), 400);

    // elapsed exactly on a boundary: k = 2, rest = 0
    let mut t = FrameTicks::with_interval(0, 100);
    let plan = t.tick(200);
    assert_eq!(plan, TickPlan { skipped: 2, sleep: 100 });
    assert_eq!(t.last_tick(), 300);
}

#[test]
fn repeated_ticks_do_not_drift() {
    let mut t = FrameTicks::with_interval(500, 100);
    let mut now = 500u64;
    for _ in 0..50 {
        now += 37;
        let plan = t.tick(now);
        now += plan.sleep;
        assert_eq!(now, t.last_tick());
        assert_eq!((t.last_tick() - 500) % 100, 0);
    }
    assert_eq!(t.last_tick(), 500 + 50 * 100);
}

#[test]
fn frame_clock_defaults_to_frame_duration() {
    let mut t = FrameTicks::new(0);
    assert_eq!(t.interval_nanos(), 33_000_000);
    assert_eq!(FRAME_DURATION_NANOS, 33_000_000);
    let plan = t.tick(10_000_000);
    assert_eq!(plan, TickPlan { skipped: 0, sleep: 23_000_000 });
    let plan = t.tick(33_000_000 + 70_000_000);
    assert_eq!(plan, TickPlan { skipped: 2, sleep: 29_000_000 });
}

#[test]
fn plan_does_not_move_the_clock_and_woke_sets_it() {
    let mut t = FrameTicks::with_interval(100, 10);
    let plan = t.plan(125);
    assert_eq!(plan, TickPlan { skipped: 2, sleep: 5 });
    assert_eq!(t.last_tick(), 100);
    // a clock reading earlier than the last tick counts as no time elapsed
    assert_eq!(t.plan(50), TickPlan { skipped: 0, sleep: 10 });
    t.woke(131);
    assert_eq!(t.last_tick(), 131);
    assert_eq!(t.interval_nanos(), 10);
}

#[test]
fn constant_production_rate_stays_on_grid() {
    // production takes 250 each time with an interval of 100: two skipped, one slept into
    let mut t = FrameTicks::with_interval(1_000, 100);
    let mut now = 1_000u64;
    for _ in 0..7 {
        now += 250;
        let plan = t.tick(now);
        assert_eq!(plan.skipped, 2);
        now += plan.sleep;
    }
    assert_eq!(t.last_tick(), 1_000 + 7 * 3 * 100);
}
