use smol_concurrency_tools::Interval;

#[test]
fn first_tick_waits_full_period() {
    // Built at instant 0 with period 100: nothing is due before 100, and
    // the first tick carries at least the period.
    let mut iv = Interval::new(100, 0);
    assert_eq!(iv.poll(0), None);
    assert_eq!(iv.poll(50), None);
    assert_eq!(iv.poll(99), None);
    assert_eq!(iv.poll(100), Some(100));
}

#[test]
fn tick_reflects_actual_elapsed_time() {
    // The yielded duration is the real elapsed time since the previous
    // tick, not the nominal period, and the timer re-arms from the fire
    // instant, so latency is not corrected.
    let mut iv = Interval::new(100, 50);
    assert_eq!(iv.poll(170), Some(120));
    // Re-armed at 170: next deadline is 270.
    assert_eq!(iv.poll(250), None);
    assert_eq!(iv.poll(300), Some(130));
}

#[test]
fn every_tick_at_least_period() {
    let period = 100u64;
    let mut iv = Interval::new(period, 3);
    let mut now = 3u64;
    let mut ticked = 0usize;
    // Walk the clock forward in uneven steps; every tick that fires must
    // carry at least the period.
    for step in [7u64, 93, 11, 250, 1, 99, 101, 40, 60, 500, 13] {
        now += step;
        if let Some(d) = iv.poll(now) {
            assert!(d >= period);
            ticked += 1;
        }
    }
    assert!(ticked > 0);
}

#[test]
fn zero_period_ticks_every_poll() {
    // A period of zero fires as fast as the driver polls.
    let mut iv = Interval::new(0, 5);
    assert_eq!(iv.poll(5), Some(0));
    assert_eq!(iv.poll(6), Some(1));
    assert_eq!(iv.poll(6), Some(0));
}

#[test]
fn accessors_report_configuration() {
    let iv = Interval::new(250, 1000);
    assert_eq!(iv.period_nanos(), 250);
    assert_eq!(iv.deadline_nanos(), 1250);
}
