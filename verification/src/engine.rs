//! Orchestrator: read the target, then decide, event by event, what a
//! session does next: probe, wait, summarise, stop.

use crate::cli::Args;
use crate::error::TcpingError;
use crate::probe::ProbeOutcome;
use crate::stats::{
    exit_code_of, is_result_of, is_summary_of, PingResult, Sample, Stats, Summary,
};
use crate::text::{
    chars_of, find, first_index, last_index, parse_decimal, parse_unsigned, rfind, same_text,
    slice_of, string_of, trim, trim_start, trimmed, trimmed_start,
};
use vstd::prelude::*;
use vstd::string::{StrSliceExecFns, StringExecFns};

verus! {

/// Why a target cannot be read.
#[derive(Clone, Copy, Debug, PartialEq, Eq, Structural)]
pub enum TargetFault {
    /// `[` without `]`.
    MissingBracket,
    /// `[host]` without `:port` right behind it.
    MissingPortAfterBracket,
    /// No `:` at all.
    MissingPort,
    /// Nothing in front of the port.
    EmptyHost,
    /// The port is no integer between 0 and 65535.
    InvalidPort,
}

/// The message of a fault.
pub open spec fn fault_text(f: TargetFault) -> Seq<char> {
    match f {
        TargetFault::MissingBracket => "missing closing ']' in target"@,
        TargetFault::MissingPortAfterBracket => "IPv6 target must end with ]:port"@,
        TargetFault::MissingPort => "target must be in the form host:port"@,
        TargetFault::EmptyHost => "target host is empty"@,
        TargetFault::InvalidPort => "port must be an integer between 0 and 65535"@,
    }
}

impl TargetFault {
    /// The message of the fault.
    pub fn message(&self) -> (m: &'static str)
        ensures
            m@ == fault_text(*self),
    {
        match self {
            TargetFault::MissingBracket => "missing closing ']' in target",
            TargetFault::MissingPortAfterBracket => "IPv6 target must end with ]:port",
            TargetFault::MissingPort => "target must be in the form host:port",
            TargetFault::EmptyHost => "target host is empty",
            TargetFault::InvalidPort => "port must be an integer between 0 and 65535",
        }
    }
}

/// The host part and the port part of the target `t`: of `[host]:port` what
/// stands between the brackets and what follows the colon behind them, else
/// what stands before and behind the last colon.
pub open spec fn split_target(t: Seq<char>) -> Result<(Seq<char>, Seq<char>), TargetFault> {
    if t.len() > 0 && t[0] == '[' {
        let rest = t.skip(1);
        match first_index(rest, ']') {
            None => Err(TargetFault::MissingBracket),
            Some(closing) => {
                let after = rest.skip(closing + 1);
                if after.len() > 0 && after[0] == ':' {
                    Ok((rest.take(closing), after.skip(1)))
                } else {
                    Err(TargetFault::MissingPortAfterBracket)
                }
            },
        }
    } else {
        match last_index(t, ':') {
            None => Err(TargetFault::MissingPort),
            Some(colon) => Ok((t.take(colon), t.skip(colon + 1))),
        }
    }
}

/// The host and the port that `address` names: white space around it does
/// not count, the host is not empty, and the port is an unsigned decimal
/// number of 65535 at most.
pub open spec fn parse_target(address: Seq<char>) -> Result<(Seq<char>, u16), TargetFault> {
    match split_target(trim(address)) {
        Err(f) => Err(f),
        Ok((host, port)) => {
            if host.len() == 0 {
                Err(TargetFault::EmptyHost)
            } else {
                match parse_unsigned(port, 65535) {
                    Some(p) => Ok((host, p as u16)),
                    None => Err(TargetFault::InvalidPort),
                }
            }
        },
    }
}

/// A target as it was written: host and port.
#[derive(Clone, Debug)]
pub struct ParsedTarget {
    pub host: String,
    pub port: u16,
}

impl ParsedTarget {
    /// Reads a target of the form `host:port` or `[host]:port`.
    pub fn parse(address: &str) -> (r: Result<ParsedTarget, TargetFault>)
        ensures
            match parse_target(address@) {
                Ok((host, port)) => r matches Ok(t) && t.host@ == host && t.port == port,
                Err(f) => r == Err::<ParsedTarget, TargetFault>(f),
            },
    {
        let all = chars_of(address);
        let t = trimmed(&all);
        let host_part: Vec<char>;
        let port_part: Vec<char>;
        if t.len() > 0 && t[0] == '[' {
            let rest = slice_of(&t, 1, t.len());
            match find(&rest, ']') {
                None => {
                    return Err(TargetFault::MissingBracket);
                },
                Some(closing) => {
                    let after = slice_of(&rest, closing + 1, rest.len());
                    if after.len() > 0 && after[0] == ':' {
                        host_part = slice_of(&rest, 0, closing);
                        port_part = slice_of(&after, 1, after.len());
                    } else {
                        return Err(TargetFault::MissingPortAfterBracket);
                    }
                },
            }
        } else {
            match rfind(&t, ':') {
                None => {
                    return Err(TargetFault::MissingPort);
                },
                Some(colon) => {
                    host_part = slice_of(&t, 0, colon);
                    port_part = slice_of(&t, colon + 1, t.len());
                },
            }
        }
        if host_part.len() == 0 {
            return Err(TargetFault::EmptyHost);
        }
        match parse_decimal(&port_part, 65535) {
            Some(p) => Ok(ParsedTarget { host: string_of(&host_part), port: p as u16 }),
            None => Err(TargetFault::InvalidPort),
        }
    }

    /// Reads a target of the form `host:port` or `[host]:port`; the error
    /// carries the message of the fault.
    pub fn new(address: &str) -> (r: Result<ParsedTarget, TcpingError>)
        ensures
            match parse_target(address@) {
                Ok((host, port)) => r matches Ok(t) && t.host@ == host && t.port == port,
                Err(f) => r matches Err(TcpingError::Other(m)) && m@ == fault_text(f),
            },
    {
        match Self::parse(address) {
            Ok(t) => Ok(t),
            Err(f) => Err(TcpingError::Other(String::from_str(f.message()))),
        }
    }
}

/// Whether `s` begins with `prefix`.
pub open spec fn starts_with(s: Seq<char>, prefix: Seq<char>) -> bool {
    s.len() >= prefix.len() && s.take(prefix.len() as int) == prefix
}

/// What a line of a resolver configuration names as a name server: what
/// follows the word `nameserver` at the beginning of the line, without the
/// white space around it.
pub open spec fn nameserver_of(line: Seq<char>) -> Option<Seq<char>> {
    let l = trim_start(line);
    if starts_with(l, "nameserver"@) {
        Some(trim(l.skip("nameserver"@.len() as int)))
    } else {
        None
    }
}

/// What the first line of `text` that names a name server names.
pub open spec fn first_nameserver_in(text: Seq<char>) -> Option<Seq<char>>
    decreases text.len(),
{
    match first_index(text, '\n') {
        None => nameserver_of(text),
        Some(end) => match nameserver_of(text.take(end)) {
            Some(name) => Some(name),
            None => if 0 <= end < text.len() {
                first_nameserver_in(text.skip(end + 1))
            } else {
                None
            },
        },
    }
}

fn nameserver(line: &Vec<char>) -> (r: Option<Vec<char>>)
    ensures
        match nameserver_of(line@) {
            Some(name) => r matches Some(v) && v@ == name,
            None => r is None,
        },
{
    let l = trimmed_start(line);
    let word_len = "nameserver".unicode_len();
    if l.len() < word_len {
        return None;
    }
    let head = slice_of(&l, 0, word_len);
    if !same_text(&head, "nameserver") {
        return None;
    }
    let rest = slice_of(&l, word_len, l.len());
    Some(trimmed(&rest))
}

/// The first name server that the resolver configuration `contents` names,
/// as it is written there.
pub fn first_nameserver(contents: &str) -> (r: Option<String>)
    ensures
        match first_nameserver_in(contents@) {
            Some(name) => r matches Some(s) && s@ == name,
            None => r is None,
        },
{
    let all = chars_of(contents);
    let mut rest = all;
    loop
        invariant
            first_nameserver_in(rest@) == first_nameserver_in(contents@),
        decreases rest.len(),
    {
        match find(&rest, '\n') {
            None => {
                return match nameserver(&rest) {
                    Some(v) => Some(string_of(&v)),
                    None => None,
                };
            },
            Some(end) => {
                let line = slice_of(&rest, 0, end);
                match nameserver(&line) {
                    Some(v) => {
                        return Some(string_of(&v));
                    },
                    None => {
                        rest = slice_of(&rest, end + 1, rest.len());
                    },
                }
            },
        }
    }
}

/// The cadence of the probes in milliseconds: a tick is due every second,
/// counted from the start of the loop; a tick that comes late delays the
/// next one and is not made up for.
pub const TICK_MS: u64 = 1000;

/// Where a session stands. A session begins in `Resolving`, loops between
/// `Probing` and `Waiting`, and ends through `Summarizing` in `Done`.
#[derive(Clone, Copy, Debug, PartialEq, Eq, Structural)]
pub enum Phase {
    /// The target is being resolved.
    Resolving,
    /// In the loop, with a probe under way.
    Probing,
    /// In the loop, between two probes.
    Waiting,
    /// The loop has ended and the summary is due.
    Summarizing,
    /// Nothing is left to do.
    Done,
}

/// What happened outside since the last step.
#[derive(Clone, Debug)]
pub enum Event {
    /// The target stands for the endpoint `addr`. Where the target was a
    /// literal address nothing was resolved; else resolving it took
    /// `elapsed_ns` nanoseconds.
    Resolved { addr: String, literal: bool, elapsed_ns: u64 },
    /// The target could not be resolved.
    ResolveFailed,
    /// The probe under way has ended.
    ProbeFinished(ProbeOutcome),
    /// The time of the next probe has come.
    Tick,
    /// The session was cancelled from outside.
    Cancelled,
    /// The summary has been handed to the formatter.
    SummaryEmitted,
}

/// What the session asks for next.
#[derive(Clone, Debug)]
pub enum Action {
    /// Make one probe with this timeout, then report `ProbeFinished`.
    Probe { timeout_ms: u64 },
    /// Wait for the next tick or for cancellation, whichever comes first,
    /// then report `Tick` or `Cancelled`.
    Wait,
    /// Hand this summary to the formatter, then report `SummaryEmitted`.
    Summarize(Summary),
    /// Leave with this exit status.
    Exit(i32),
    /// Leave with a failure and without a summary: there is no target.
    Fail,
    /// The event does not belong to the phase; nothing has changed.
    Nothing,
}

/// The answer to an event: the record of the probe that has ended, if one
/// has, to hand to the formatter first, and what to do then.
#[derive(Clone, Debug)]
pub struct Step {
    pub report: Option<PingResult>,
    pub action: Action,
}

/// A session as the decisions see it.
pub ghost struct Machine {
    pub args: Args,
    pub phase: Phase,
    pub addr: Seq<char>,
    pub resolve_ns: u64,
    pub history: Seq<Sample>,
}

/// How far a phase is on the way from `Resolving` to `Done`.
pub open spec fn stage(p: Phase) -> int {
    match p {
        Phase::Resolving => 0,
        Phase::Probing => 1,
        Phase::Waiting => 1,
        Phase::Summarizing => 2,
        Phase::Done => 3,
    }
}

/// Whether another probe is due after `attempts` probes: the session is
/// unbounded or has made fewer probes than asked for. A session also ends
/// when its counter of attempts is used up.
pub open spec fn goes_on(args: Args, attempts: nat) -> bool {
    (args.continuous || attempts < args.count) && attempts < usize::MAX
}

/// Whether the loop ends with a probe that is the `attempts`-th: it
/// succeeded and the session is to end on success, or no other probe is due.
pub open spec fn ends_with(args: Args, attempts: nat, success: bool) -> bool {
    (success && args.exit_on_success) || !goes_on(args, attempts)
}

/// The probe that an outcome is to the statistics.
pub open spec fn sample_of(args: Args, o: ProbeOutcome) -> Sample {
    Sample { success: o.success, rtt: o.elapsed_ns, want_jitter: args.jitter }
}

/// The resolution time on record: 0 for a literal address, which is not
/// resolved, whatever was measured.
pub open spec fn resolve_time(literal: bool, elapsed_ns: u64) -> u64 {
    if literal {
        0
    } else {
        elapsed_ns
    }
}

/// A session that has not begun.
pub open spec fn initial(args: Args) -> Machine {
    Machine {
        args,
        phase: Phase::Resolving,
        addr: Seq::empty(),
        resolve_ns: 0,
        history: Seq::empty(),
    }
}

/// The session after the event `e`. An event that does not belong to the
/// phase changes nothing.
pub open spec fn advance(m: Machine, e: Event) -> Machine {
    match (m.phase, e) {
        (Phase::Resolving, Event::Resolved { addr, literal, elapsed_ns }) => Machine {
            phase: if goes_on(m.args, 0) {
                Phase::Probing
            } else {
                Phase::Summarizing
            },
            addr: addr@,
            resolve_ns: resolve_time(literal, elapsed_ns),
            ..m
        },
        (Phase::Resolving, Event::ResolveFailed) => Machine { phase: Phase::Done, ..m },
        (Phase::Probing, Event::ProbeFinished(o)) => Machine {
            phase: if ends_with(m.args, m.history.len() + 1, o.success) {
                Phase::Summarizing
            } else {
                Phase::Waiting
            },
            history: m.history.push(sample_of(m.args, o)),
            ..m
        },
        (Phase::Probing, Event::Cancelled) => Machine { phase: Phase::Summarizing, ..m },
        (Phase::Waiting, Event::Cancelled) => Machine { phase: Phase::Summarizing, ..m },
        (Phase::Waiting, Event::Tick) => Machine { phase: Phase::Probing, ..m },
        (Phase::Summarizing, Event::SummaryEmitted) => Machine { phase: Phase::Done, ..m },
        _ => m,
    }
}

/// Whether `out` is the answer that the session `m` owes to the event `e`.
pub open spec fn answers(m: Machine, e: Event, out: Step) -> bool {
    match (m.phase, e) {
        (Phase::Resolving, Event::Resolved { addr, literal, elapsed_ns }) => {
            &&& out.report is None
            &&& if goes_on(m.args, 0) {
                out.action == (Action::Probe { timeout_ms: m.args.timeout_ms })
            } else {
                out.action matches Action::Summarize(s) && is_summary_of(
                    s,
                    addr@,
                    resolve_time(literal, elapsed_ns),
                    Seq::empty(),
                )
            }
        },
        (Phase::Resolving, Event::ResolveFailed) => out.report is None && out.action is Fail,
        (Phase::Probing, Event::ProbeFinished(o)) => {
            let now = m.history.push(sample_of(m.args, o));
            &&& out.report matches Some(res) && is_result_of(
                res,
                m.addr,
                m.history,
                sample_of(m.args, o),
            )
            &&& if ends_with(m.args, now.len(), o.success) {
                out.action matches Action::Summarize(s) && is_summary_of(
                    s,
                    m.addr,
                    m.resolve_ns,
                    now,
                )
            } else {
                out.action is Wait
            }
        },
        (Phase::Probing, Event::Cancelled) => {
            &&& out.report is None
            &&& out.action matches Action::Summarize(s) && is_summary_of(
                s,
                m.addr,
                m.resolve_ns,
                m.history,
            )
        },
        (Phase::Waiting, Event::Cancelled) => {
            &&& out.report is None
            &&& out.action matches Action::Summarize(s) && is_summary_of(
                s,
                m.addr,
                m.resolve_ns,
                m.history,
            )
        },
        (Phase::Waiting, Event::Tick) => {
            &&& out.report is None
            &&& out.action == (Action::Probe { timeout_ms: m.args.timeout_ms })
        },
        (Phase::Summarizing, Event::SummaryEmitted) => {
            &&& out.report is None
            &&& out.action == Action::Exit(exit_code_of(m.history))
        },
        _ => out.report is None && out.action is Nothing,
    }
}

/// The decisions of one session: which probe, wait or report comes next.
pub struct Session {
    args: Args,
    phase: Phase,
    stats: Option<Stats>,
}

impl Session {
    /// The session as the decisions see it.
    pub closed spec fn view(&self) -> Machine {
        Machine {
            args: self.args,
            phase: self.phase,
            addr: match self.stats {
                Some(stats) => stats.addr(),
                None => Seq::empty(),
            },
            resolve_ns: match self.stats {
                Some(stats) => stats.resolve_ns(),
                None => 0,
            },
            history: match self.stats {
                Some(stats) => stats@,
                None => Seq::empty(),
            },
        }
    }

    /// The statistics exist from the resolution on and are well formed; in
    /// the loop another probe is due.
    pub closed spec fn wf(&self) -> bool {
        &&& match self.stats {
            Some(stats) => stats.wf() && self.phase != Phase::Resolving,
            None => self.phase == Phase::Resolving || self.phase == Phase::Done,
        }
        &&& (self.phase == Phase::Probing || self.phase == Phase::Waiting) ==> goes_on(
            self.args,
            self@.history.len(),
        )
    }

    /// A session that has not begun: its first event is the resolution of
    /// its target.
    pub fn new(args: Args) -> (r: Self)
        ensures
            r.wf(),
            r@ == initial(args),
    {
        Session { args, phase: Phase::Resolving, stats: None }
    }

    /// The phase in which the session stands.
    pub fn phase(&self) -> (p: Phase)
        ensures
            p == self@.phase,
    {
        self.phase
    }

    /// Takes in what happened and says what to do next.
    pub fn step(&mut self, event: Event) -> (out: Step)
        requires
            old(self).wf(),
        ensures
            final(self).wf(),
            final(self)@ == advance(old(self)@, event),
            answers(old(self)@, event, out),
    {
        match (self.phase, event) {
            (Phase::Resolving, Event::Resolved { addr, literal, elapsed_ns }) => {
                let stats = Stats::new(addr, if literal { 0 } else { elapsed_ns });
                if stats.should_continue(&self.args) {
                    self.stats = Some(stats);
                    self.phase = Phase::Probing;
                    Step {
                        report: None,
                        action: Action::Probe { timeout_ms: self.args.timeout_ms },
                    }
                } else {
                    let summary = stats.summary();
                    self.stats = Some(stats);
                    self.phase = Phase::Summarizing;
                    Step { report: None, action: Action::Summarize(summary) }
                }
            },
            (Phase::Resolving, Event::ResolveFailed) => {
                self.phase = Phase::Done;
                Step { report: None, action: Action::Fail }
            },
            (Phase::Probing, Event::ProbeFinished(o)) => {
                let mut stats = self.stats.take().unwrap();
                let res = stats.feed(o.success, o.elapsed_ns, self.args.jitter);
                let ends = stats.should_break(o.success, &self.args) || !stats.should_continue(
                    &self.args,
                ) || stats.attempts() == usize::MAX;
                let action = if ends {
                    Action::Summarize(stats.summary())
                } else {
                    Action::Wait
                };
                self.stats = Some(stats);
                self.phase = if ends {
                    Phase::Summarizing
                } else {
                    Phase::Waiting
                };
                Step { report: Some(res), action }
            },
            (Phase::Probing, Event::Cancelled) | (Phase::Waiting, Event::Cancelled) => {
                let summary = self.stats.as_ref().unwrap().summary();
                self.phase = Phase::Summarizing;
                Step { report: None, action: Action::Summarize(summary) }
            },
            (Phase::Waiting, Event::Tick) => {
                self.phase = Phase::Probing;
                Step { report: None, action: Action::Probe { timeout_ms: self.args.timeout_ms } }
            },
            (Phase::Summarizing, Event::SummaryEmitted) => {
                let code = self.stats.as_ref().unwrap().exit_code();
                self.phase = Phase::Done;
                Step { report: None, action: Action::Exit(code) }
            },
            _ => Step { report: None, action: Action::Nothing },
        }
    }
}

/// The session after one probe with the outcome `o` and, where the loop
/// goes on, the tick that follows it.
pub open spec fn round(m: Machine, o: ProbeOutcome) -> Machine {
    let after = advance(m, Event::ProbeFinished(o));
    if after.phase == Phase::Waiting {
        advance(after, Event::Tick)
    } else {
        after
    }
}

/// The session after as many probes as it makes when nothing cancels it and
/// its probes end with `outcomes`, in this order.
pub open spec fn run(m: Machine, outcomes: Seq<ProbeOutcome>) -> Machine
    decreases outcomes.len(),
{
    if outcomes.len() == 0 || m.phase != Phase::Probing {
        m
    } else {
        run(round(m, outcomes[0]), outcomes.drop_first())
    }
}

/// No event takes a session back: the phase after an event is as far on the
/// way from `Resolving` to `Done` as the phase before it, or further.
pub proof fn lemma_never_back(m: Machine, e: Event)
    ensures
        stage(advance(m, e).phase) >= stage(m.phase),
        advance(m, e).args == m.args,
        m.history.len() <= advance(m, e).history.len() <= m.history.len() + 1,
{
}

/// The session asks for a probe exactly when it enters `Probing`, and it
/// enters `Probing` only from outside it: no probe is asked for while
/// another is under way.
pub proof fn lemma_one_probe_at_a_time(m: Machine, e: Event, out: Step)
    requires
        answers(m, e, out),
    ensures
        out.action is Probe <==> m.phase != Phase::Probing && advance(m, e).phase
            == Phase::Probing,
        out.action is Probe ==> out.action == (Action::Probe { timeout_ms: m.args.timeout_ms }),
        out.report is Some <==> m.phase == Phase::Probing && e is ProbeFinished,
{
}

/// Whether the event `e` makes the summary of the session `m` fall due.
pub open spec fn summary_due(m: Machine, e: Event) -> bool {
    m.phase != Phase::Summarizing && advance(m, e).phase == Phase::Summarizing
}

/// The session after the events `events`, one after the other.
pub open spec fn after(m: Machine, events: Seq<Event>) -> Machine
    decreases events.len(),
{
    if events.len() == 0 {
        m
    } else {
        advance(after(m, events.drop_last()), events.last())
    }
}

/// How many times a summary falls due over the events `events`.
pub open spec fn summaries_due(m: Machine, events: Seq<Event>) -> nat
    decreases events.len(),
{
    if events.len() == 0 {
        0
    } else {
        summaries_due(m, events.drop_last()) + (if summary_due(
            after(m, events.drop_last()),
            events.last(),
        ) {
            1nat
        } else {
            0nat
        })
    }
}

/// The session asks for a summary exactly when one falls due, and
/// cancellation in the loop makes it fall due.
pub proof fn lemma_summary_when_due(m: Machine, e: Event, out: Step)
    requires
        answers(m, e, out),
    ensures
        out.action is Summarize <==> summary_due(m, e),
        stage(m.phase) == 1 && e is Cancelled ==> summary_due(m, e) && advance(m, e).history
            == m.history,
        m.phase == Phase::Done ==> advance(m, e) == m,
{
}

/// Whatever happens, a summary falls due at most once: never before the
/// loop has ended, once by the time the session is in `Summarizing`, and
/// once by the time it is in `Done` unless its target did not resolve.
pub proof fn lemma_one_summary(args: Args, events: Seq<Event>)
    ensures
        ({
            let end = after(initial(args), events);
            let due = summaries_due(initial(args), events);
            &&& due <= 1
            &&& stage(end.phase) < 2 ==> due == 0
            &&& end.phase == Phase::Summarizing ==> due == 1
            &&& end.phase == Phase::Done && due == 0 ==> exists|i: int|
                0 <= i < events.len() && #[trigger] events[i] is ResolveFailed
        }),
    decreases events.len(),
{
    if events.len() > 0 {
        let head = events.drop_last();
        lemma_one_summary(args, head);
    }
}

/// Where the session is to end on success and its first probe succeeds, it
/// makes exactly that one probe and then summarises.
pub proof fn lemma_ends_on_first_success(
    args: Args,
    addr: String,
    literal: bool,
    elapsed_ns: u64,
    outcomes: Seq<ProbeOutcome>,
)
    requires
        args.exit_on_success,
        args.continuous || args.count >= 1,
        outcomes.len() >= 1,
        outcomes[0].success,
    ensures
        ({
            let begun = advance(initial(args), (Event::Resolved { addr, literal, elapsed_ns }));
            let end = run(begun, outcomes);
            end.phase == Phase::Summarizing && end.history.len() == 1
        }),
{
    let begun = advance(initial(args), (Event::Resolved { addr, literal, elapsed_ns }));
    let after = round(begun, outcomes[0]);
    assert(run(begun, outcomes) == run(after, outcomes.drop_first()));
}

proof fn lemma_bounded_run(m: Machine, outcomes: Seq<ProbeOutcome>)
    requires
        m.phase == Phase::Probing,
        !m.args.continuous,
        m.history.len() < m.args.count,
        outcomes.len() >= m.args.count - m.history.len(),
        m.args.exit_on_success ==> forall|i: int|
            0 <= i < m.args.count - m.history.len() ==> !(#[trigger] outcomes[i]).success,
    ensures
        run(m, outcomes).phase == Phase::Summarizing,
        run(m, outcomes).history.len() == m.args.count,
    decreases m.args.count - m.history.len(),
{
    let next = round(m, outcomes[0]);
    let rest = outcomes.drop_first();
    if m.history.len() + 1 < m.args.count {
        if m.args.exit_on_success {
            assert forall|i: int| 0 <= i < next.args.count - next.history.len() implies !(
            #[trigger] rest[i]).success by {}
        }
        lemma_bounded_run(next, rest);
    } else {
        assert(run(next, rest) == next);
    }
}

/// A bounded session that nothing cancels makes exactly as many probes as
/// it was asked for, whatever their outcomes, unless it is to end on success
/// and one of them succeeds.
pub proof fn lemma_bounded_count(
    args: Args,
    addr: String,
    literal: bool,
    elapsed_ns: u64,
    outcomes: Seq<ProbeOutcome>,
)
    requires
        !args.continuous,
        outcomes.len() >= args.count,
        args.exit_on_success ==> forall|i: int|
            0 <= i < args.count ==> !(#[trigger] outcomes[i]).success,
    ensures
        ({
            let begun = advance(initial(args), (Event::Resolved { addr, literal, elapsed_ns }));
            let end = run(begun, outcomes);
            end.phase == Phase::Summarizing && end.history.len() == args.count
        }),
{
    let begun = advance(initial(args), (Event::Resolved { addr, literal, elapsed_ns }));
    if args.count > 0 {
        lemma_bounded_run(begun, outcomes);
    }
}

} // verus!
