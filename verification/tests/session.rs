use tcping::cli::{Args, OutputMode};
use tcping::engine::{first_nameserver, Action, Event, Phase, Session, Step};
use tcping::probe::ProbeOutcome;

const MS: u64 = 1_000_000;

fn args(count: usize, continuous: bool, exit_on_success: bool, jitter: bool) -> Args {
    Args {
        address: String::from("127.0.0.1:80"),
        count,
        continuous,
        output_mode: OutputMode::Normal,
        exit_on_success,
        jitter,
        timeout_ms: 750,
    }
}

fn resolved() -> Event {
    Event::Resolved { addr: String::from("127.0.0.1:80"), literal: true, elapsed_ns: 0 }
}

fn finished(success: bool, ms: u64) -> Event {
    Event::ProbeFinished(ProbeOutcome { success, elapsed_ns: ms * MS })
}

fn is_probe(step: &Step) -> bool {
    step.report.is_none() && matches!(step.action, Action::Probe { timeout_ms: 750 })
}

/// Runs a session without cancellation and counts its probes.
fn probes_made(a: Args, outcomes: &[bool]) -> (usize, i32, usize) {
    let mut session = Session::new(a);
    let mut step = session.step(resolved());
    let mut made = 0;
    let mut reports = 0;
    loop {
        if step.report.is_some() {
            reports += 1;
        }
        match step.action {
            Action::Probe { .. } => {
                let success = outcomes[made];
                made += 1;
                step = session.step(finished(success, 10));
            }
            Action::Wait => step = session.step(Event::Tick),
            Action::Summarize(s) => {
                assert_eq!(s.total_attempts, made);
                step = session.step(Event::SummaryEmitted);
            }
            Action::Exit(code) => {
                assert_eq!(session.phase(), Phase::Done);
                return (made, code, reports);
            }
            Action::Fail | Action::Nothing => panic!("unexpected action"),
        }
    }
}

#[test]
fn first_probe_is_made_at_once() {
    let mut session = Session::new(args(4, false, false, false));
    assert_eq!(session.phase(), Phase::Resolving);
    let step = session.step(resolved());
    assert!(is_probe(&step));
    assert_eq!(session.phase(), Phase::Probing);
}

#[test]
fn early_exit_makes_one_probe_and_summarises() {
    let mut session = Session::new(args(4, false, true, false));
    assert!(is_probe(&session.step(resolved())));
    let step = session.step(finished(true, 12));
    let report = step.report.unwrap();
    assert!(report.success);
    assert_eq!(report.duration_ns, 12 * MS);
    match step.action {
        Action::Summarize(s) => {
            assert_eq!(s.total_attempts, 1);
            assert_eq!(s.successful_pings, 1);
        }
        _ => panic!("no summary"),
    }
    assert_eq!(session.phase(), Phase::Summarizing);
    assert!(matches!(session.step(Event::SummaryEmitted).action, Action::Exit(0)));
    assert_eq!(session.phase(), Phase::Done);

    assert_eq!(probes_made(args(4, false, true, false), &[true, true, true, true]), (1, 0, 1));
    assert_eq!(probes_made(args(4, true, true, false), &[false, false, true, true]), (3, 1, 3));
}

#[test]
fn bounded_session_makes_exactly_the_probes_asked_for() {
    for n in 1..6 {
        for pattern in 0..(1u32 << n) {
            let outcomes: Vec<bool> = (0..n).map(|i| pattern & (1 << i) != 0).collect();
            let all = outcomes.iter().all(|s| *s);
            let (made, code, reports) = probes_made(args(n, false, false, false), &outcomes);
            assert_eq!(made, n);
            assert_eq!(reports, n);
            assert_eq!(code, if all { 0 } else { 1 });
        }
    }
    // with early exit asked for, failures alone still make every probe
    assert_eq!(probes_made(args(3, false, true, false), &[false, false, false]), (3, 1, 3));
}

#[test]
fn session_that_is_asked_for_nothing_summarises_at_once() {
    let mut session = Session::new(args(0, false, false, false));
    match session.step(resolved()).action {
        Action::Summarize(s) => {
            assert_eq!(s.total_attempts, 0);
            assert_eq!(s.packet_loss_bp, 0);
        }
        _ => panic!("no summary"),
    }
    assert!(matches!(session.step(Event::SummaryEmitted).action, Action::Exit(1)));
}

#[test]
fn loop_waits_between_probes() {
    let mut session = Session::new(args(2, false, false, true));
    session.step(resolved());
    let step = session.step(finished(true, 10));
    assert!(step.report.unwrap().jitter_ns.is_none());
    assert!(matches!(step.action, Action::Wait));
    assert_eq!(session.phase(), Phase::Waiting);
    assert!(is_probe(&session.step(Event::Tick)));
    assert_eq!(session.phase(), Phase::Probing);
    let step = session.step(finished(true, 14));
    assert_eq!(step.report.unwrap().jitter_ns, Some(4 * MS));
    assert!(matches!(step.action, Action::Summarize(_)));
}

#[test]
fn cancellation_still_gives_a_summary() {
    // while waiting
    let mut session = Session::new(args(4, true, false, false));
    session.step(resolved());
    session.step(finished(true, 10));
    let step = session.step(Event::Cancelled);
    assert!(step.report.is_none());
    match step.action {
        Action::Summarize(s) => assert_eq!((s.total_attempts, s.successful_pings), (1, 1)),
        _ => panic!("no summary"),
    }
    assert!(matches!(session.step(Event::SummaryEmitted).action, Action::Exit(0)));

    // while a probe is under way: the probe does not count
    let mut session = Session::new(args(4, false, false, false));
    session.step(resolved());
    match session.step(Event::Cancelled).action {
        Action::Summarize(s) => assert_eq!(s.total_attempts, 0),
        _ => panic!("no summary"),
    }
    assert!(matches!(session.step(Event::SummaryEmitted).action, Action::Exit(1)));
}

#[test]
fn target_that_does_not_resolve_ends_the_session_without_summary() {
    let mut session = Session::new(args(4, false, false, false));
    let step = session.step(Event::ResolveFailed);
    assert!(step.report.is_none());
    assert!(matches!(step.action, Action::Fail));
    assert_eq!(session.phase(), Phase::Done);
    assert!(matches!(session.step(Event::Tick).action, Action::Nothing));
    assert!(matches!(session.step(resolved()).action, Action::Nothing));
}

#[test]
fn events_out_of_turn_change_nothing() {
    let mut session = Session::new(args(4, false, false, false));
    for event in [Event::Tick, Event::Cancelled, Event::SummaryEmitted, finished(true, 1)] {
        assert!(matches!(session.step(event).action, Action::Nothing));
        assert_eq!(session.phase(), Phase::Resolving);
    }
    session.step(resolved());
    for event in [Event::Tick, Event::SummaryEmitted, resolved(), Event::ResolveFailed] {
        assert!(matches!(session.step(event).action, Action::Nothing));
        assert_eq!(session.phase(), Phase::Probing);
    }
    session.step(finished(false, 1));
    for event in [finished(true, 1), Event::SummaryEmitted, resolved()] {
        assert!(matches!(session.step(event).action, Action::Nothing));
        assert_eq!(session.phase(), Phase::Waiting);
    }
    session.step(Event::Cancelled);
    for event in [Event::Tick, Event::Cancelled, finished(true, 1), resolved()] {
        assert!(matches!(session.step(event).action, Action::Nothing));
        assert_eq!(session.phase(), Phase::Summarizing);
    }
}

#[test]
fn resolution_time_and_endpoint_reach_the_records() {
    let mut session = Session::new(args(1, false, false, false));
    session.step(Event::Resolved {
        addr: String::from("[::1]:443"),
        literal: false,
        elapsed_ns: 2_500_000,
    });
    let step = session.step(finished(false, 750));
    assert_eq!(step.report.unwrap().addr, "[::1]:443");
    match step.action {
        Action::Summarize(s) => {
            assert_eq!(s.addr, "[::1]:443");
            assert_eq!(s.resolve_time_ns, 2_500_000);
            assert_eq!(s.packet_loss_bp, 10_000);
        }
        _ => panic!("no summary"),
    }
}

#[test]
fn literal_address_has_no_resolution_time() {
    let mut session = Session::new(args(0, false, false, false));
    let step = session.step(Event::Resolved {
        addr: String::from("192.0.2.7:22"),
        literal: true,
        elapsed_ns: 9_000,
    });
    match step.action {
        Action::Summarize(s) => assert_eq!(s.resolve_time_ns, 0),
        _ => panic!("no summary"),
    }
}

#[test]
fn first_name_server_line_is_found() {
    let conf = "# comment\nsearch lan\n  nameserver   192.0.2.53  \r\nnameserver 198.51.100.1\n";
    assert_eq!(first_nameserver(conf), Some(String::from("192.0.2.53")));
    assert_eq!(first_nameserver("nameserver\t2001:db8::1"), Some(String::from("2001:db8::1")));
    assert_eq!(first_nameserver("options rotate\n"), None);
    assert_eq!(first_nameserver(""), None);
    // the first such line counts, whatever it names
    assert_eq!(first_nameserver("nameservers x\nnameserver 192.0.2.1"), Some(String::from("s x")));
    assert_eq!(first_nameserver("nameserver\nnameserver 192.0.2.1"), Some(String::new()));
}
