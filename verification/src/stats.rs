//! Running statistics of a probing session.
//!
//! [`Stats`] is fed one probe after the other, hands back a [`PingResult`]
//! for each, and projects a [`Summary`] of all of them on demand. Durations
//! are whole nanoseconds.

use crate::cli::Args;
use crate::quantile::{estimate_of, P2Quantile, P2_CAPACITY};
use vstd::prelude::*;

verus! {

/// Tag of the record layout, carried by every record.
pub const OUTPUT_SCHEMA: &'static str = "tcping.v1";

/// One probe as it was fed to the accumulator.
pub ghost struct Sample {
    pub success: bool,
    pub rtt: u64,
    pub want_jitter: bool,
}

/// How many of the probes succeeded.
pub open spec fn successes(h: Seq<Sample>) -> nat
    decreases h.len(),
{
    if h.len() == 0 {
        0
    } else {
        successes(h.drop_last()) + (if h.last().success { 1nat } else { 0nat })
    }
}

/// The sum of the round-trip times of the probes that succeeded.
pub open spec fn rtt_total(h: Seq<Sample>) -> nat
    decreases h.len(),
{
    if h.len() == 0 {
        0
    } else {
        rtt_total(h.drop_last()) + (if h.last().success { h.last().rtt as nat } else { 0nat })
    }
}

/// The shortest round-trip time of a probe that succeeded, if one did.
pub open spec fn fastest(h: Seq<Sample>) -> Option<u64>
    decreases h.len(),
{
    if h.len() == 0 {
        None
    } else if !h.last().success {
        fastest(h.drop_last())
    } else {
        match fastest(h.drop_last()) {
            Some(m) if m <= h.last().rtt => Some(m),
            _ => Some(h.last().rtt),
        }
    }
}

/// The longest round-trip time of a probe that succeeded, if one did.
pub open spec fn slowest(h: Seq<Sample>) -> Option<u64>
    decreases h.len(),
{
    if h.len() == 0 {
        None
    } else if !h.last().success {
        slowest(h.drop_last())
    } else {
        match slowest(h.drop_last()) {
            Some(m) if m >= h.last().rtt => Some(m),
            _ => Some(h.last().rtt),
        }
    }
}

/// The round-trip time of the latest probe that succeeded, if one did.
/// Failed probes in between do not count.
pub open spec fn last_success(h: Seq<Sample>) -> Option<u64>
    decreases h.len(),
{
    if h.len() == 0 {
        None
    } else if h.last().success {
        Some(h.last().rtt)
    } else {
        last_success(h.drop_last())
    }
}

/// The distance between two durations.
pub open spec fn distance(a: u64, b: u64) -> u64 {
    if a >= b {
        (a - b) as u64
    } else {
        (b - a) as u64
    }
}

/// The jitter of the probe `s` that follows the probes `before`: for a
/// successful probe with jitter asked for, the distance to the round-trip
/// time of the latest success before it; none where there is no such
/// success, where the probe failed, or where jitter was not asked for.
pub open spec fn jitter_of(before: Seq<Sample>, s: Sample) -> Option<u64> {
    if s.want_jitter && s.success {
        match last_success(before) {
            Some(prev) => Some(distance(s.rtt, prev)),
            None => None,
        }
    } else {
        None
    }
}

/// The jitter values that the probes gave, in order.
pub open spec fn jitters(h: Seq<Sample>) -> Seq<u64>
    decreases h.len(),
{
    if h.len() == 0 {
        Seq::empty()
    } else {
        match jitter_of(h.drop_last(), h.last()) {
            Some(j) => jitters(h.drop_last()).push(j),
            None => jitters(h.drop_last()),
        }
    }
}

/// The part of the jitter values that the percentile estimator counts.
pub open spec fn counted(js: Seq<u64>) -> Seq<u64> {
    if js.len() <= P2_CAPACITY {
        js
    } else {
        js.take(P2_CAPACITY as int)
    }
}

/// Packet loss in hundredths of a percent, rounded to the nearest, halves
/// up: `100 * (1 - ok / total)` percent, and 0 where nothing was attempted.
pub open spec fn loss_bp(total: nat, ok: nat) -> int {
    if total == 0 {
        0
    } else {
        ((total - ok) * 20000 + total) / (2 * total as int)
    }
}

/// `v`, or 0 where there is none.
pub open spec fn or_zero(v: Option<u64>) -> u64 {
    match v {
        Some(x) => x,
        None => 0,
    }
}

/// The mean round-trip time of the probes that succeeded, cut to a whole
/// nanosecond; 0 where none succeeded.
pub open spec fn mean_rtt(h: Seq<Sample>) -> nat {
    if successes(h) == 0 {
        0
    } else {
        rtt_total(h) / successes(h)
    }
}

/// No more probes succeed than are made, and a success is there exactly
/// when there is a fastest, a slowest and a latest one.
pub proof fn lemma_successes(h: Seq<Sample>)
    ensures
        successes(h) <= h.len(),
        successes(h) > 0 <==> fastest(h) is Some,
        successes(h) > 0 <==> slowest(h) is Some,
        successes(h) > 0 <==> last_success(h) is Some,
    decreases h.len(),
{
    if h.len() > 0 {
        lemma_successes(h.drop_last());
    }
}

/// The fastest round-trip time is that of a probe that succeeded, and no
/// probe that succeeded was faster; there is none exactly where every probe
/// failed.
pub proof fn lemma_fastest_is_least(h: Seq<Sample>)
    ensures
        match fastest(h) {
            Some(m) => {
                &&& exists|i: int| 0 <= i < h.len() && (#[trigger] h[i]).success && h[i].rtt == m
                &&& forall|j: int| 0 <= j < h.len() && (#[trigger] h[j]).success ==> m <= h[j].rtt
            },
            None => forall|j: int| 0 <= j < h.len() ==> !(#[trigger] h[j]).success,
        },
    decreases h.len(),
{
    if h.len() > 0 {
        let rest = h.drop_last();
        lemma_fastest_is_least(rest);
        assert forall|j: int| 0 <= j < rest.len() implies rest[j] == h[j] by {}
    }
}

/// The slowest round-trip time is that of a probe that succeeded, and no
/// probe that succeeded was slower; there is none exactly where every probe
/// failed.
pub proof fn lemma_slowest_is_greatest(h: Seq<Sample>)
    ensures
        match slowest(h) {
            Some(m) => {
                &&& exists|i: int| 0 <= i < h.len() && (#[trigger] h[i]).success && h[i].rtt == m
                &&& forall|j: int| 0 <= j < h.len() && (#[trigger] h[j]).success ==> m >= h[j].rtt
            },
            None => forall|j: int| 0 <= j < h.len() ==> !(#[trigger] h[j]).success,
        },
    decreases h.len(),
{
    if h.len() > 0 {
        let rest = h.drop_last();
        lemma_slowest_is_greatest(rest);
        assert forall|j: int| 0 <= j < rest.len() implies rest[j] == h[j] by {}
    }
}

/// The latest success is the probe that succeeded and was followed by
/// failures only; there is none exactly where every probe failed.
pub proof fn lemma_last_success_is_latest(h: Seq<Sample>)
    ensures
        match last_success(h) {
            Some(rtt) => exists|i: int|
                0 <= i < h.len() && (#[trigger] h[i]).success && h[i].rtt == rtt && forall|j: int|
                    i < j < h.len() ==> !(#[trigger] h[j]).success,
            None => forall|j: int| 0 <= j < h.len() ==> !(#[trigger] h[j]).success,
        },
    decreases h.len(),
{
    if h.len() > 0 {
        let rest = h.drop_last();
        lemma_last_success_is_latest(rest);
        assert forall|j: int| 0 <= j < rest.len() implies rest[j] == h[j] by {}
    }
}

/// Packet loss lies between 0 and 100 percent; it is 0 where every probe
/// succeeded and where none was made.
pub proof fn lemma_loss_range(total: nat, ok: nat)
    requires
        ok <= total,
    ensures
        0 <= loss_bp(total, ok) <= 10000,
        total == 0 ==> loss_bp(total, ok) == 0,
        ok == total ==> loss_bp(total, ok) == 0,
        ok == 0 && total > 0 ==> loss_bp(total, ok) == 10000,
{
    if total > 0 {
        let t = total as int;
        let f = (total - ok) as int;
        assert(0 <= (f * 20000 + t) / (2 * t) <= 10000) by (nonlinear_arith)
            requires
                0 <= f <= t,
                t > 0,
        ;
        assert((0 * 20000 + t) / (2 * t) == 0) by (nonlinear_arith)
            requires
                t > 0,
        ;
        assert((t * 20000 + t) / (2 * t) == 10000) by (nonlinear_arith)
            requires
                t > 0,
        ;
    }
}

proof fn lemma_mean_between(total: int, k: int, lo: int, hi: int)
    by (nonlinear_arith)
    requires
        k > 0,
        lo * k <= total <= hi * k,
    ensures
        lo <= total / k <= hi,
{
}

/// The sum of the successful round-trip times lies between their number
/// times the fastest and their number times the slowest.
pub proof fn lemma_total_between(h: Seq<Sample>)
    ensures
        successes(h) > 0 ==> or_zero(fastest(h)) * successes(h) <= rtt_total(h),
        successes(h) > 0 ==> rtt_total(h) <= or_zero(slowest(h)) * successes(h),
        rtt_total(h) <= successes(h) * u64::MAX,
    decreases h.len(),
{
    if h.len() > 0 {
        let rest = h.drop_last();
        lemma_total_between(rest);
        lemma_successes(rest);
        lemma_successes(h);
        if h.last().success {
            let k = successes(rest) as int;
            let x = h.last().rtt as int;
            let lo = or_zero(fastest(h)) as int;
            let hi = or_zero(slowest(h)) as int;
            let total0 = rtt_total(rest) as int;
            if k > 0 {
                let lo0 = or_zero(fastest(rest)) as int;
                let hi0 = or_zero(slowest(rest)) as int;
                assert(lo * (k + 1) <= total0 + x) by (nonlinear_arith)
                    requires
                        k > 0,
                        0 <= lo <= lo0,
                        lo <= x,
                        lo0 * k <= total0,
                ;
                assert(total0 + x <= hi * (k + 1)) by (nonlinear_arith)
                    requires
                        k > 0,
                        0 <= hi0 <= hi,
                        x <= hi,
                        total0 <= hi0 * k,
                ;
            } else {
                assert(lo * (k + 1) == x && hi * (k + 1) == x) by (nonlinear_arith)
                    requires
                        k == 0,
                        lo == x,
                        hi == x,
                ;
            }
        }
    }
}

/// Where a probe succeeded, the fastest round-trip time is at most the mean,
/// and the mean at most the slowest.
pub proof fn lemma_min_mean_max(h: Seq<Sample>)
    requires
        successes(h) > 0,
    ensures
        or_zero(fastest(h)) <= mean_rtt(h) <= or_zero(slowest(h)),
{
    lemma_total_between(h);
    lemma_mean_between(
        rtt_total(h) as int,
        successes(h) as int,
        or_zero(fastest(h)) as int,
        or_zero(slowest(h)) as int,
    );
}

/// A session that ends with status 0 has lost no packet.
pub proof fn lemma_clean_exit_has_no_loss(h: Seq<Sample>)
    requires
        exit_code_of(h) == 0,
    ensures
        loss_bp(h.len(), successes(h)) == 0,
{
    lemma_loss_range(h.len(), successes(h));
}

/// There are no more jitter values than successful probes.
pub proof fn lemma_jitters_len(h: Seq<Sample>)
    ensures
        jitters(h).len() <= successes(h),
    decreases h.len(),
{
    if h.len() > 0 {
        lemma_jitters_len(h.drop_last());
    }
}

/// Result of a single probe.
#[derive(Clone, Debug)]
pub struct PingResult {
    pub schema: &'static str,
    pub record: &'static str,
    pub success: bool,
    /// Duration of the attempt, in nanoseconds.
    pub duration_ns: u64,
    /// Distance to the round-trip time of the success before, in nanoseconds.
    pub jitter_ns: Option<u64>,
    /// The probed endpoint, as text.
    pub addr: String,
}

/// Roll-up of an entire probing session.
#[derive(Clone, Debug)]
pub struct Summary {
    pub schema: &'static str,
    pub record: &'static str,
    /// The probed endpoint, as text.
    pub addr: String,
    pub total_attempts: usize,
    pub successful_pings: usize,
    /// Share of the attempts that failed, in hundredths of a percent.
    pub packet_loss_bp: u32,
    pub min_duration_ns: u64,
    pub avg_duration_ns: u64,
    pub max_duration_ns: u64,
    pub resolve_time_ns: u64,
    pub jitter_p95_ns: Option<u64>,
}

/// The exit status after the probes `h`: 0 where at least one probe was made
/// and every one succeeded, else 1.
pub open spec fn exit_code_of(h: Seq<Sample>) -> i32 {
    if h.len() > 0 && successes(h) == h.len() {
        0
    } else {
        1
    }
}

/// `res` is the record of the probe `s` that follows the probes `before`,
/// made against `addr`.
pub open spec fn is_result_of(
    res: PingResult,
    addr: Seq<char>,
    before: Seq<Sample>,
    s: Sample,
) -> bool {
    &&& res.schema@ == OUTPUT_SCHEMA@
    &&& res.record@ == "probe"@
    &&& res.success == s.success
    &&& res.duration_ns == s.rtt
    &&& res.jitter_ns == jitter_of(before, s)
    &&& res.addr@ == addr
}

/// `s` is the summary of the probes `h`, made against `addr`, which took
/// `resolve_ns` to resolve.
pub open spec fn is_summary_of(
    s: Summary,
    addr: Seq<char>,
    resolve_ns: u64,
    h: Seq<Sample>,
) -> bool {
    &&& s.schema@ == OUTPUT_SCHEMA@
    &&& s.record@ == "summary"@
    &&& s.addr@ == addr
    &&& s.total_attempts == h.len()
    &&& s.successful_pings == successes(h)
    &&& s.packet_loss_bp == loss_bp(h.len(), successes(h))
    &&& s.min_duration_ns == or_zero(fastest(h))
    &&& s.avg_duration_ns == mean_rtt(h)
    &&& s.max_duration_ns == or_zero(slowest(h))
    &&& s.resolve_time_ns == resolve_ns
    &&& s.jitter_p95_ns == estimate_of(counted(jitters(h)))
}

/// Mutable accumulator used during a session.
pub struct Stats {
    addr: String,
    sent: usize,
    ok: usize,
    total_rtt: u128,
    min_rtt: u64,
    max_rtt: u64,
    last_rtt: Option<u64>,
    resolve_ns: u64,
    jitter_p95: Option<P2Quantile>,
    history: Ghost<Seq<Sample>>,
}

impl Stats {
    /// The probes fed so far, in order.
    pub closed spec fn view(&self) -> Seq<Sample> {
        self.history@
    }

    /// The probed endpoint, as text.
    pub closed spec fn addr(&self) -> Seq<char> {
        self.addr@
    }

    /// The time that resolving the target took, in nanoseconds.
    pub closed spec fn resolve_ns(&self) -> u64 {
        self.resolve_ns
    }

    /// The running aggregates are those of the probes fed so far.
    pub closed spec fn wf(&self) -> bool {
        let h = self.history@;
        &&& self.sent == h.len()
        &&& self.ok == successes(h)
        &&& self.total_rtt == rtt_total(h)
        &&& fastest(h) == (if self.ok > 0 { Some(self.min_rtt) } else { None })
        &&& slowest(h) == (if self.ok > 0 { Some(self.max_rtt) } else { None })
        &&& self.ok == 0 ==> self.min_rtt == u64::MAX && self.max_rtt == 0
        &&& self.last_rtt == last_success(h)
        &&& match self.jitter_p95 {
            Some(q) => q.wf() && q@ == counted(jitters(h)) && jitters(h).len() > 0,
            None => jitters(h).len() == 0,
        }
    }

    /// Create a new accumulator.
    pub fn new(addr: String, resolve_ns: u64) -> (r: Self)
        ensures
            r.wf(),
            r@ == Seq::<Sample>::empty(),
            r.addr() == addr@,
            r.resolve_ns() == resolve_ns,
    {
        Stats {
            addr,
            sent: 0,
            ok: 0,
            total_rtt: 0,
            min_rtt: u64::MAX,
            max_rtt: 0,
            last_rtt: None,
            resolve_ns,
            jitter_p95: None,
            history: Ghost(Seq::empty()),
        }
    }

    /// Feed one probe result and obtain a [`PingResult`] to hand to the
    /// formatter.
    pub fn feed(&mut self, success: bool, rtt: u64, want_jitter: bool) -> (res: PingResult)
        requires
            old(self).wf(),
            old(self)@.len() < usize::MAX,
        ensures
            final(self).wf(),
            final(self)@ == old(self)@.push((Sample { success, rtt, want_jitter })),
            final(self).addr() == old(self).addr(),
            final(self).resolve_ns() == old(self).resolve_ns(),
            is_result_of(
                res,
                old(self).addr(),
                old(self)@,
                (Sample { success, rtt, want_jitter }),
            ),
            !success || !want_jitter ==> res.jitter_ns is None,
            last_success(old(self)@) is None ==> res.jitter_ns is None,
            success && want_jitter ==> (forall|prev: u64|
                last_success(old(self)@) == Some(prev) ==> res.jitter_ns == Some(
                    distance(rtt, prev),
                )),
    {
        let ghost before = self.history@;
        let ghost now = before.push((Sample { success, rtt, want_jitter }));
        proof {
            assert(now.drop_last() =~= before);
            lemma_successes(before);
            lemma_total_between(before);
            lemma_jitters_len(before);
        }
        self.sent += 1;

        let jitter = if want_jitter && success {
            match self.last_rtt {
                Some(prev) => Some(if rtt >= prev { rtt - prev } else { prev - rtt }),
                None => None,
            }
        } else {
            None
        };

        if let Some(j) = jitter {
            let mut estimator = match self.jitter_p95.take() {
                Some(q) => q,
                None => P2Quantile::new(),
            };
            assert(estimator@ =~= counted(jitters(before)));
            estimator.observe(j);
            self.jitter_p95 = Some(estimator);
            assert(counted(jitters(before).push(j)) =~= (if jitters(before).len() < P2_CAPACITY {
                counted(jitters(before)).push(j)
            } else {
                counted(jitters(before))
            }));
        }

        if success {
            assert(self.ok as int * u64::MAX <= usize::MAX * u64::MAX) by (nonlinear_arith)
                requires
                    self.ok <= usize::MAX,
            ;
            self.ok += 1;
            self.total_rtt += rtt as u128;
            self.min_rtt = if rtt < self.min_rtt { rtt } else { self.min_rtt };
            self.max_rtt = if rtt > self.max_rtt { rtt } else { self.max_rtt };
            self.last_rtt = Some(rtt);
        }
        self.history = Ghost(now);

        PingResult {
            schema: OUTPUT_SCHEMA,
            record: "probe",
            success,
            duration_ns: rtt,
            jitter_ns: jitter,
            addr: self.addr.clone(),
        }
    }

    /// The number of probes fed so far.
    pub fn attempts(&self) -> (n: usize)
        requires
            self.wf(),
        ensures
            n == self@.len(),
    {
        self.sent
    }

    /// Should the main loop continue? It should while the session is
    /// unbounded or fewer probes were made than asked for.
    pub fn should_continue(&self, args: &Args) -> (go_on: bool)
        requires
            self.wf(),
        ensures
            go_on == (args.continuous || self@.len() < args.count),
    {
        args.continuous || self.sent < args.count
    }

    /// Should we break early because of exit-on-success?
    pub fn should_break(&self, success: bool, args: &Args) -> (stop: bool)
        ensures
            stop == (success && args.exit_on_success),
    {
        success && args.exit_on_success
    }

    /// Produce the final [`Summary`]: a projection of the probes fed so far
    /// that leaves the accumulator as it is.
    pub fn summary(&self) -> (s: Summary)
        requires
            self.wf(),
        ensures
            is_summary_of(s, self.addr(), self.resolve_ns(), self@),
            s.successful_pings <= s.total_attempts,
            s.packet_loss_bp <= 10000,
            s.total_attempts == 0 ==> s.packet_loss_bp == 0 && s.min_duration_ns == 0
                && s.avg_duration_ns == 0 && s.max_duration_ns == 0,
            s.successful_pings > 0 ==> s.min_duration_ns <= s.avg_duration_ns
                <= s.max_duration_ns,
    {
        proof {
            lemma_successes(self@);
            lemma_loss_range(self@.len(), successes(self@));
            lemma_total_between(self@);
            if successes(self@) > 0 {
                lemma_min_mean_max(self@);
            }
        }
        let packet_loss_bp: u32 = if self.sent == 0 {
            0
        } else {
            let failed: u128 = (self.sent - self.ok) as u128;
            let total: u128 = self.sent as u128;
            ((failed * 20000 + total) / (2 * total)) as u32
        };
        let jitter_p95_ns = match &self.jitter_p95 {
            Some(q) => q.estimate(),
            None => None,
        };
        Summary {
            schema: OUTPUT_SCHEMA,
            record: "summary",
            addr: self.addr.clone(),
            total_attempts: self.sent,
            successful_pings: self.ok,
            packet_loss_bp,
            min_duration_ns: if self.ok > 0 { self.min_rtt } else { 0 },
            avg_duration_ns: if self.ok > 0 {
                (self.total_rtt / (self.ok as u128)) as u64
            } else {
                0
            },
            max_duration_ns: if self.ok > 0 { self.max_rtt } else { 0 },
            resolve_time_ns: self.resolve_ns,
            jitter_p95_ns,
        }
    }

    /// Map statistics to a conventional Unix exit code: 0 where at least one
    /// probe was made and all of them succeeded, else 1.
    pub fn exit_code(&self) -> (code: i32)
        requires
            self.wf(),
        ensures
            code == exit_code_of(self@),
            code == 0 <==> self@.len() > 0 && successes(self@) == self@.len(),
            code == 0 || code == 1,
    {
        if self.ok == self.sent && self.sent > 0 {
            0
        } else {
            1
        }
    }
}

} // verus!
