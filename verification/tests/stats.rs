use tcping::cli::{Args, OutputMode};
use tcping::stats::{Stats, OUTPUT_SCHEMA};

const MS: u64 = 1_000_000;

fn loopback_addr() -> String {
    String::from("127.0.0.1:80")
}

fn args(count: usize, continuous: bool, exit_on_success: bool) -> Args {
    Args {
        address: loopback_addr(),
        count,
        continuous,
        output_mode: OutputMode::Normal,
        exit_on_success,
        jitter: false,
        timeout_ms: 2000,
    }
}

#[test]
fn summary_handles_zero_probes() {
    let stats = Stats::new(loopback_addr(), 0);
    let summary = stats.summary();
    assert_eq!(summary.total_attempts, 0);
    assert_eq!(summary.packet_loss_bp, 0);
}

#[test]
fn summary_of_nothing_is_all_zero() {
    let stats = Stats::new(loopback_addr(), 3 * MS);
    let s = stats.summary();
    assert_eq!(s.successful_pings, 0);
    assert_eq!(s.packet_loss_bp, 0);
    assert_eq!(s.min_duration_ns, 0);
    assert_eq!(s.avg_duration_ns, 0);
    assert_eq!(s.max_duration_ns, 0);
    assert_eq!(s.resolve_time_ns, 3 * MS);
    assert_eq!(s.jitter_p95_ns, None);
    assert_eq!(s.addr, "127.0.0.1:80");
}

#[test]
fn jitter_is_difference_between_successive_successes() {
    let mut stats = Stats::new(loopback_addr(), 0);
    let first = stats.feed(true, 10 * MS, true);
    assert_eq!(first.jitter_ns, None);

    let second = stats.feed(true, 15 * MS, true);
    assert_eq!(second.jitter_ns, Some(5 * MS));
}

#[test]
fn jitter_p95_is_reported_when_enabled() {
    let mut stats = Stats::new(loopback_addr(), 0);
    stats.feed(true, 10 * MS, true);
    stats.feed(true, 20 * MS, true); // jitter 10
    stats.feed(true, 25 * MS, true); // jitter 5
    stats.feed(true, 40 * MS, true); // jitter 15

    let summary = stats.summary();
    assert_eq!(summary.jitter_p95_ns, Some(14_500_000));
}

#[test]
fn jitter_p95_is_none_when_disabled() {
    let mut stats = Stats::new(loopback_addr(), 0);
    stats.feed(true, 10 * MS, false);
    stats.feed(true, 20 * MS, false);

    let summary = stats.summary();
    assert_eq!(summary.jitter_p95_ns, None);
}

#[test]
fn jitter_is_only_computed_for_successes() {
    let mut stats = Stats::new(loopback_addr(), 0);
    let first = stats.feed(true, 10 * MS, true);
    assert_eq!(first.jitter_ns, None);

    let failed = stats.feed(false, 10_000 * MS, true);
    assert_eq!(failed.jitter_ns, None);

    let second = stats.feed(true, 20 * MS, true);
    assert_eq!(second.jitter_ns, Some(10 * MS));
}

#[test]
fn jitter_skips_the_failures_in_between() {
    let mut stats = Stats::new(loopback_addr(), 0);
    assert_eq!(stats.feed(true, 10 * MS, true).jitter_ns, None);
    assert_eq!(stats.feed(true, 15 * MS, true).jitter_ns, Some(5 * MS));
    assert_eq!(stats.feed(false, 2000 * MS, true).jitter_ns, None);
    assert_eq!(stats.feed(true, 20 * MS, true).jitter_ns, Some(5 * MS));
    // a shorter round trip gives the same distance
    assert_eq!(stats.feed(true, 12 * MS, true).jitter_ns, Some(8 * MS));
}

#[test]
fn jitter_needs_no_earlier_jitter_only_an_earlier_success() {
    let mut stats = Stats::new(loopback_addr(), 0);
    assert_eq!(stats.feed(true, 10 * MS, false).jitter_ns, None);
    assert_eq!(stats.feed(true, 13 * MS, false).jitter_ns, None);
    assert_eq!(stats.feed(true, 20 * MS, true).jitter_ns, Some(7 * MS));
    assert_eq!(stats.summary().jitter_p95_ns, Some(7 * MS));
}

#[test]
fn probe_record_carries_what_was_fed() {
    let mut stats = Stats::new(loopback_addr(), 0);
    let res = stats.feed(false, 2000 * MS, true);
    assert_eq!(res.schema, "tcping.v1");
    assert_eq!(res.schema, OUTPUT_SCHEMA);
    assert_eq!(res.record, "probe");
    assert!(!res.success);
    assert_eq!(res.duration_ns, 2000 * MS);
    assert_eq!(res.jitter_ns, None);
    assert_eq!(res.addr, "127.0.0.1:80");
}

#[test]
fn summary_projects_the_probes() {
    let mut stats = Stats::new(loopback_addr(), 1_500_000);
    stats.feed(true, 10 * MS, true);
    stats.feed(false, 2000 * MS, true);
    stats.feed(true, 40 * MS, true);
    stats.feed(true, 21 * MS, true);
    let s = stats.summary();
    assert_eq!(s.schema, "tcping.v1");
    assert_eq!(s.record, "summary");
    assert_eq!(s.addr, "127.0.0.1:80");
    assert_eq!(s.total_attempts, 4);
    assert_eq!(s.successful_pings, 3);
    assert_eq!(s.packet_loss_bp, 2500);
    assert_eq!(s.min_duration_ns, 10 * MS);
    // (10 + 40 + 21) / 3 = 23.666..., cut to a whole nanosecond
    assert_eq!(s.avg_duration_ns, 23_666_666);
    assert_eq!(s.max_duration_ns, 40 * MS);
    assert_eq!(s.resolve_time_ns, 1_500_000);
    // jitters 30 and 19: rank 0.95 between 19 and 30
    assert_eq!(s.jitter_p95_ns, Some(29_450_000));
    // the projection changes nothing
    let again = stats.summary();
    assert_eq!(again.total_attempts, 4);
    assert_eq!(again.avg_duration_ns, 23_666_666);
}

#[test]
fn summary_of_failures_only_reports_zeros() {
    let mut stats = Stats::new(loopback_addr(), 0);
    stats.feed(false, 2000 * MS, true);
    stats.feed(false, 1500 * MS, true);
    let s = stats.summary();
    assert_eq!(s.total_attempts, 2);
    assert_eq!(s.successful_pings, 0);
    assert_eq!(s.packet_loss_bp, 10_000);
    assert_eq!(s.min_duration_ns, 0);
    assert_eq!(s.avg_duration_ns, 0);
    assert_eq!(s.max_duration_ns, 0);
    assert_eq!(s.jitter_p95_ns, None);
}

fn loss_of(failed: usize, total: usize) -> u32 {
    let mut stats = Stats::new(loopback_addr(), 0);
    for i in 0..total {
        stats.feed(i >= failed, MS, false);
    }
    stats.summary().packet_loss_bp
}

#[test]
fn packet_loss_is_rounded_to_the_nearest_hundredth_of_a_percent() {
    assert_eq!(loss_of(0, 5), 0);
    assert_eq!(loss_of(5, 5), 10_000);
    assert_eq!(loss_of(1, 4), 2500);
    assert_eq!(loss_of(1, 3), 3333);
    assert_eq!(loss_of(2, 3), 6667);
    assert_eq!(loss_of(1, 8), 1250);
    // 3.125 percent: the half goes up
    assert_eq!(loss_of(1, 32), 313);
    assert_eq!(loss_of(1, 7), 1429);
}

#[test]
fn min_avg_max_keep_their_order() {
    let mut stats = Stats::new(loopback_addr(), 0);
    for rtt in [u64::MAX, 1, u64::MAX - 1, 7, 0] {
        stats.feed(true, rtt, false);
        let s = stats.summary();
        assert!(s.successful_pings <= s.total_attempts);
        assert!(s.min_duration_ns <= s.avg_duration_ns);
        assert!(s.avg_duration_ns <= s.max_duration_ns);
        assert!(s.packet_loss_bp <= 10_000);
    }
    let s = stats.summary();
    assert_eq!(s.min_duration_ns, 0);
    assert_eq!(s.max_duration_ns, u64::MAX);
    assert_eq!(
        s.avg_duration_ns,
        ((u64::MAX as u128 * 2 + 7) / 5) as u64
    );
}

#[test]
fn exit_code_is_zero_only_when_every_probe_succeeded() {
    let mut stats = Stats::new(loopback_addr(), 0);
    assert_eq!(stats.exit_code(), 1);
    stats.feed(true, MS, false);
    assert_eq!(stats.exit_code(), 0);
    stats.feed(true, MS, false);
    assert_eq!(stats.exit_code(), 0);
    stats.feed(false, MS, false);
    assert_eq!(stats.exit_code(), 1);
    stats.feed(true, MS, false);
    assert_eq!(stats.exit_code(), 1);
}

#[test]
fn loop_goes_on_while_probes_are_owed() {
    let mut stats = Stats::new(loopback_addr(), 0);
    assert!(stats.should_continue(&args(2, false, false)));
    assert!(!stats.should_continue(&args(0, false, false)));
    assert!(stats.should_continue(&args(0, true, false)));
    stats.feed(false, MS, false);
    assert_eq!(stats.attempts(), 1);
    assert!(stats.should_continue(&args(2, false, false)));
    stats.feed(false, MS, false);
    assert!(!stats.should_continue(&args(2, false, false)));
    assert!(stats.should_continue(&args(2, true, false)));
}

#[test]
fn loop_breaks_on_success_only_when_asked_to() {
    let stats = Stats::new(loopback_addr(), 0);
    assert!(stats.should_break(true, &args(4, false, true)));
    assert!(!stats.should_break(false, &args(4, false, true)));
    assert!(!stats.should_break(true, &args(4, false, false)));
    assert!(!stats.should_break(false, &args(4, false, false)));
}
