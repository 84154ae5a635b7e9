//! Pluggable output layer.
//!
//! A formatter turns each record into what is to be written: text for the
//! text modes, a rounded record for the JSON mode. Writing it is the caller's
//! part.

use crate::cli::OutputMode;
use crate::stats::{PingResult, Summary};
use crate::text::{
    millis_text, percent_text, digits, push_decimal, push_millis, push_percent, push_str, round4,
    round_to_4,
};
use vstd::prelude::*;
use vstd::string::StringExecFns;

verus! {

/// What a formatter hands back for one record.
pub enum Rendered {
    /// Text to write as it is.
    Text(String),
    /// A probe record to serialise as one JSON line.
    Probe(JsonProbe),
    /// A summary record to serialise as one JSON line.
    Summary(JsonSummary),
}

/// Print behaviour contract: what a formatter hands back depends on its
/// output mode and on whether it has given out its header, and on nothing
/// else.
pub trait Formatter {
    /// The output mode that the formatter serves.
    spec fn mode(&self) -> OutputMode;

    /// Whether the formatter has given out its header; never for a mode
    /// without one.
    spec fn header_given(&self) -> bool;

    /// What is to be written for one probe.
    fn probe(&mut self, res: &PingResult) -> (out: Rendered)
        ensures
            renders_probe(old(self).mode(), old(self).header_given(), *res, out),
            final(self).mode() == old(self).mode(),
            final(self).header_given() == header_given_after_probe(
                old(self).mode(),
                old(self).header_given(),
            ),
    ;

    /// What is to be written for the summary.
    fn summary(&mut self, sum: &Summary) -> (out: Rendered)
        ensures
            renders_summary(old(self).mode(), old(self).header_given(), *sum, out),
            final(self).mode() == old(self).mode(),
            final(self).header_given() == header_given_after_summary(
                old(self).mode(),
                old(self).header_given(),
            ),
    ;
}

/// Whether a formatter has given out its header once it has shown a probe:
/// the CSV and the Markdown mode have, the others have none.
pub open spec fn header_given_after_probe(mode: OutputMode, before: bool) -> bool {
    match mode {
        OutputMode::Csv => true,
        OutputMode::Md => true,
        _ => before,
    }
}

/// Whether a formatter has given out its header once it has shown a
/// summary: the CSV mode has; the Markdown summary is a table of its own.
pub open spec fn header_given_after_summary(mode: OutputMode, before: bool) -> bool {
    match mode {
        OutputMode::Csv => true,
        _ => before,
    }
}

/// Whether `out` is what the mode shows for the probe `res`.
pub open spec fn renders_probe(
    mode: OutputMode,
    header_given: bool,
    res: PingResult,
    out: Rendered,
) -> bool {
    match mode {
        OutputMode::Normal => out matches Rendered::Text(t) && t@ == probe_line(res, ""@, ""@),
        OutputMode::Color => out matches Rendered::Text(t) && t@ == probe_line(
            res,
            status_paint(res.success),
            RESET@,
        ),
        OutputMode::Json => out matches Rendered::Probe(p) && is_json_probe(p, res),
        OutputMode::Csv => out matches Rendered::Text(t) && t@ == (if header_given {
            Seq::<char>::empty()
        } else {
            CSV_HEADER@ + "\n"@
        }) + joined(probe_fields(res), ","@) + "\n"@,
        OutputMode::Md => out matches Rendered::Text(t) && t@ == (if header_given {
            Seq::<char>::empty()
        } else {
            MD_HEADER@
        }) + md_row(res) + "\n"@,
    }
}

/// Whether `out` is what the mode shows for the summary `s`.
pub open spec fn renders_summary(
    mode: OutputMode,
    header_given: bool,
    s: Summary,
    out: Rendered,
) -> bool {
    match mode {
        OutputMode::Normal => out matches Rendered::Text(t) && t@ == summary_text(s, ""@, ""@),
        OutputMode::Color => out matches Rendered::Text(t) && t@ == summary_text(
            s,
            loss_paint(s),
            RESET@,
        ),
        OutputMode::Json => out matches Rendered::Summary(j) && is_json_summary(j, s),
        OutputMode::Csv => out matches Rendered::Text(t) && t@ == (if header_given {
            Seq::<char>::empty()
        } else {
            CSV_HEADER@ + "\n"@
        }) + joined(summary_fields(s), ","@) + "\n"@,
        OutputMode::Md => out matches Rendered::Text(t) && t@ == md_summary(s),
    }
}

/* ---------- Resolution banner ---------- */

/// How the name server is called where none is known.
pub const SYSTEM_DNS: &'static str = "system default";

/// What the plain text mode writes once the target is known, before the
/// first probe: an empty line for a literal address, else how the host was
/// resolved, by which name server and in what time. The other modes write
/// nothing.
pub open spec fn banner_text(
    mode: OutputMode,
    literal: bool,
    host: Seq<char>,
    ip: Seq<char>,
    dns: Option<Seq<char>>,
    resolve_ns: u64,
) -> Seq<char> {
    if mode != OutputMode::Normal {
        Seq::empty()
    } else if literal {
        "\n"@
    } else {
        "\nResolved "@ + host + " -> "@ + ip + "  (DNS "@ + (match dns {
            Some(name) => name,
            None => SYSTEM_DNS@,
        }) + ")  in "@ + millis_text(resolve_ns) + " ms\n\n"@
    }
}

/// The texts of an optional text.
pub open spec fn text_of(s: Option<String>) -> Option<Seq<char>> {
    match s {
        Some(t) => Some(t@),
        None => None,
    }
}

/// Writes the banner that goes before the first probe.
pub fn resolution_banner(
    mode: OutputMode,
    literal: bool,
    host: &str,
    ip: &str,
    dns: Option<String>,
    resolve_ns: u64,
) -> (out: String)
    ensures
        out@ == banner_text(mode, literal, host@, ip@, text_of(dns), resolve_ns),
{
    match mode {
        OutputMode::Normal => {
            if literal {
                String::from_str("\n")
            } else {
                let mut out = String::from_str("\nResolved ");
                push_str(&mut out, host);
                push_str(&mut out, " -> ");
                push_str(&mut out, ip);
                push_str(&mut out, "  (DNS ");
                match &dns {
                    Some(name) => push_str(&mut out, name.as_str()),
                    None => push_str(&mut out, SYSTEM_DNS),
                }
                push_str(&mut out, ")  in ");
                push_millis(&mut out, resolve_ns);
                push_str(&mut out, " ms\n\n");
                out
            }
        },
        _ => String::new(),
    }
}

/* ---------- Normal text ---------- */

/// How a probe's outcome is called in a line of text.
pub open spec fn status_word(success: bool) -> Seq<char> {
    if success {
        "open"@
    } else {
        "closed"@
    }
}

/// The line of text for one probe; `paint` and `reset` stand around the
/// status word.
pub open spec fn probe_line(res: PingResult, paint: Seq<char>, reset: Seq<char>) -> Seq<char> {
    let head = "Probing "@ + res.addr@ + "/tcp - "@ + paint + status_word(res.success) + reset
        + " - "@ + millis_text(res.duration_ns) + " ms"@;
    match res.jitter_ns {
        Some(j) => head + " jitter="@ + millis_text(j) + " ms"@ + "\n"@,
        None => head + "\n"@,
    }
}

/// The lines that follow the headline of a summary: the round-trip times
/// where a probe succeeded, the resolution time where there was one, the
/// jitter percentile where there is one.
pub open spec fn summary_tail(s: Summary) -> Seq<char> {
    let rtt = if s.successful_pings > 0 {
        "Round-trip min/avg/max = "@ + millis_text(s.min_duration_ns) + "/"@ + millis_text(
            s.avg_duration_ns,
        ) + "/"@ + millis_text(s.max_duration_ns) + " ms\n"@
    } else {
        Seq::empty()
    };
    let resolved = if s.resolve_time_ns > 0 {
        "Address resolved in "@ + millis_text(s.resolve_time_ns) + " ms\n"@
    } else {
        Seq::empty()
    };
    let jitter = match s.jitter_p95_ns {
        Some(j95) => "Jitter p95 = "@ + millis_text(j95) + " ms\n"@,
        None => Seq::empty(),
    };
    rtt + resolved + jitter
}

/// The text of a summary; `paint` and `reset` stand around the packet loss.
pub open spec fn summary_text(s: Summary, paint: Seq<char>, reset: Seq<char>) -> Seq<char> {
    "\n--- "@ + s.addr@ + " tcping statistics ---\n"@ + digits(s.total_attempts as nat)
        + " probes sent, "@ + digits(s.successful_pings as nat) + " successful, "@ + paint
        + percent_text(s.packet_loss_bp) + "%"@ + reset + " packet loss\n"@ + summary_tail(s)
}

/// Writes the line of text for one probe.
pub fn render_probe_line(res: &PingResult, paint: &str, reset: &str) -> (out: String)
    ensures
        out@ == probe_line(*res, paint@, reset@),
{
    let mut out = String::from_str("Probing ");
    push_str(&mut out, res.addr.as_str());
    push_str(&mut out, "/tcp - ");
    push_str(&mut out, paint);
    push_str(&mut out, if res.success { "open" } else { "closed" });
    push_str(&mut out, reset);
    push_str(&mut out, " - ");
    push_millis(&mut out, res.duration_ns);
    push_str(&mut out, " ms");
    match res.jitter_ns {
        Some(j) => {
            push_str(&mut out, " jitter=");
            push_millis(&mut out, j);
            push_str(&mut out, " ms");
        },
        None => {},
    }
    push_str(&mut out, "\n");
    out
}

/// Appends the lines that follow the headline of a summary.
pub fn push_summary_tail(out: &mut String, s: &Summary)
    ensures
        final(out)@ == old(out)@ + summary_tail(*s),
{
    if s.successful_pings > 0 {
        let mut line = String::from_str("Round-trip min/avg/max = ");
        push_millis(&mut line, s.min_duration_ns);
        push_str(&mut line, "/");
        push_millis(&mut line, s.avg_duration_ns);
        push_str(&mut line, "/");
        push_millis(&mut line, s.max_duration_ns);
        push_str(&mut line, " ms\n");
        push_str(out, line.as_str());
    }
    if s.resolve_time_ns > 0 {
        let mut line = String::from_str("Address resolved in ");
        push_millis(&mut line, s.resolve_time_ns);
        push_str(&mut line, " ms\n");
        push_str(out, line.as_str());
    }
    match s.jitter_p95_ns {
        Some(j95) => {
            let mut line = String::from_str("Jitter p95 = ");
            push_millis(&mut line, j95);
            push_str(&mut line, " ms\n");
            push_str(out, line.as_str());
        },
        None => {},
    }
}

/// Writes the text of a summary.
pub fn render_summary_text(s: &Summary, paint: &str, reset: &str) -> (out: String)
    ensures
        out@ == summary_text(*s, paint@, reset@),
{
    let mut out = String::from_str("\n--- ");
    push_str(&mut out, s.addr.as_str());
    push_str(&mut out, " tcping statistics ---\n");
    push_decimal(&mut out, s.total_attempts as u64);
    push_str(&mut out, " probes sent, ");
    push_decimal(&mut out, s.successful_pings as u64);
    push_str(&mut out, " successful, ");
    push_str(&mut out, paint);
    push_percent(&mut out, s.packet_loss_bp);
    push_str(&mut out, "%");
    push_str(&mut out, reset);
    push_str(&mut out, " packet loss\n");
    push_summary_tail(&mut out, s);
    out
}

/// Plain text, one line per probe.
pub struct Normal;

impl Formatter for Normal {
    open spec fn mode(&self) -> OutputMode {
        OutputMode::Normal
    }

    open spec fn header_given(&self) -> bool {
        false
    }

    fn probe(&mut self, res: &PingResult) -> (out: Rendered) {
        Rendered::Text(render_probe_line(res, "", ""))
    }

    fn summary(&mut self, s: &Summary) -> (out: Rendered) {
        Rendered::Text(render_summary_text(s, "", ""))
    }
}

/* ---------- JSON ---------- */

/// `v` rounded to four decimals of a millisecond, where there is one.
pub open spec fn round4_opt(v: Option<u64>) -> Option<u64> {
    match v {
        Some(ns) => Some(round4(ns) as u64),
        None => None,
    }
}

/// A probe record as the JSON mode shows it: durations rounded to four
/// decimals of a millisecond, in ten-thousandths of a millisecond.
#[derive(Clone, Debug)]
pub struct JsonProbe {
    pub schema: &'static str,
    pub record: &'static str,
    pub success: bool,
    pub duration: u64,
    pub jitter: Option<u64>,
    pub addr: String,
}

/// Whether `out` is the record of `res` with its durations rounded.
pub open spec fn is_json_probe(out: JsonProbe, res: PingResult) -> bool {
    &&& out.schema == res.schema
    &&& out.record == res.record
    &&& out.success == res.success
    &&& out.duration == round4(res.duration_ns)
    &&& out.jitter == round4_opt(res.jitter_ns)
    &&& out.addr@ == res.addr@
}

impl JsonProbe {
    /// The record of `res`, rounded.
    pub fn from(res: &PingResult) -> (out: JsonProbe)
        ensures
            is_json_probe(out, *res),
    {
        JsonProbe {
            schema: res.schema,
            record: res.record,
            success: res.success,
            duration: round_to_4(res.duration_ns),
            jitter: match res.jitter_ns {
                Some(j) => Some(round_to_4(j)),
                None => None,
            },
            addr: res.addr.clone(),
        }
    }
}

/// A summary record as the JSON mode shows it: durations rounded to four
/// decimals of a millisecond, in ten-thousandths of a millisecond; packet
/// loss in hundredths of a percent.
#[derive(Clone, Debug)]
pub struct JsonSummary {
    pub schema: &'static str,
    pub record: &'static str,
    pub addr: String,
    pub total_attempts: usize,
    pub successful_pings: usize,
    pub packet_loss: u32,
    pub min_duration: u64,
    pub avg_duration: u64,
    pub max_duration: u64,
    pub resolve_time: u64,
    pub jitter_p95: Option<u64>,
}

/// Whether `out` is the record of `s` with its durations rounded.
pub open spec fn is_json_summary(out: JsonSummary, s: Summary) -> bool {
    &&& out.schema == s.schema
    &&& out.record == s.record
    &&& out.addr@ == s.addr@
    &&& out.total_attempts == s.total_attempts
    &&& out.successful_pings == s.successful_pings
    &&& out.packet_loss == s.packet_loss_bp
    &&& out.min_duration == round4(s.min_duration_ns)
    &&& out.avg_duration == round4(s.avg_duration_ns)
    &&& out.max_duration == round4(s.max_duration_ns)
    &&& out.resolve_time == round4(s.resolve_time_ns)
    &&& out.jitter_p95 == round4_opt(s.jitter_p95_ns)
}

impl JsonSummary {
    /// The record of `s`, rounded.
    pub fn from(s: &Summary) -> (out: JsonSummary)
        ensures
            is_json_summary(out, *s),
    {
        JsonSummary {
            schema: s.schema,
            record: s.record,
            addr: s.addr.clone(),
            total_attempts: s.total_attempts,
            successful_pings: s.successful_pings,
            packet_loss: s.packet_loss_bp,
            min_duration: round_to_4(s.min_duration_ns),
            avg_duration: round_to_4(s.avg_duration_ns),
            max_duration: round_to_4(s.max_duration_ns),
            resolve_time: round_to_4(s.resolve_time_ns),
            jitter_p95: match s.jitter_p95_ns {
                Some(j) => Some(round_to_4(j)),
                None => None,
            },
        }
    }
}

/// One JSON object per record.
pub struct Json;

impl Formatter for Json {
    open spec fn mode(&self) -> OutputMode {
        OutputMode::Json
    }

    open spec fn header_given(&self) -> bool {
        false
    }

    fn probe(&mut self, res: &PingResult) -> (out: Rendered) {
        Rendered::Probe(JsonProbe::from(res))
    }

    fn summary(&mut self, s: &Summary) -> (out: Rendered) {
        Rendered::Summary(JsonSummary::from(s))
    }
}

/* ---------- ANSI-colored TTY ---------- */

/// Starts green text.
pub const GREEN: &'static str = "\x1b[32m";

/// Starts red text.
pub const RED: &'static str = "\x1b[31m";

/// Ends coloured text.
pub const RESET: &'static str = "\x1b[0m";

/// The colour of a probe's status: green for a success, red for a failure.
pub open spec fn status_paint(success: bool) -> Seq<char> {
    if success {
        GREEN@
    } else {
        RED@
    }
}

/// The colour of a summary's packet loss: green where no probe failed, red
/// where one did.
pub open spec fn loss_paint(s: Summary) -> Seq<char> {
    if s.successful_pings == s.total_attempts {
        GREEN@
    } else {
        RED@
    }
}

/// Text with the status and the packet loss in colour.
pub struct Color;

impl Formatter for Color {
    open spec fn mode(&self) -> OutputMode {
        OutputMode::Color
    }

    open spec fn header_given(&self) -> bool {
        false
    }

    fn probe(&mut self, res: &PingResult) -> (out: Rendered) {
        let paint = if res.success {
            GREEN
        } else {
            RED
        };
        Rendered::Text(render_probe_line(res, paint, RESET))
    }

    fn summary(&mut self, s: &Summary) -> (out: Rendered) {
        let paint = if s.successful_pings == s.total_attempts {
            GREEN
        } else {
            RED
        };
        Rendered::Text(render_summary_text(s, paint, RESET))
    }
}

/* ---------- CSV ---------- */

/// The names of the columns of the CSV mode.
pub const CSV_HEADER: &'static str =
    "record,address,status,rtt_ms,jitter_ms,total_attempts,successful_pings,packet_loss_pct,min_rtt_ms,avg_rtt_ms,max_rtt_ms,resolve_time_ms,jitter_p95_ms,schema";

/// The number of columns of the CSV mode.
pub const CSV_COLUMNS: usize = 14;

/// The texts of `fields`.
pub open spec fn texts(fields: Seq<String>) -> Seq<Seq<char>> {
    Seq::new(fields.len(), |i: int| fields[i]@)
}

/// `fields` one after the other with `sep` between each two.
pub open spec fn joined(fields: Seq<Seq<char>>, sep: Seq<char>) -> Seq<char>
    decreases fields.len(),
{
    if fields.len() == 0 {
        Seq::empty()
    } else if fields.len() == 1 {
        fields[0]
    } else {
        joined(fields.drop_last(), sep) + sep + fields.last()
    }
}

/// A duration in milliseconds with four decimals, or nothing where there is
/// none.
pub open spec fn opt_millis_text(v: Option<u64>) -> Seq<char> {
    match v {
        Some(ns) => millis_text(ns),
        None => Seq::empty(),
    }
}

/// The fields of the row of a probe; the columns of a summary stay empty.
pub open spec fn probe_fields(res: PingResult) -> Seq<Seq<char>> {
    let e = Seq::<char>::empty();
    seq![
        res.record@,
        res.addr@,
        status_word(res.success),
        millis_text(res.duration_ns),
        opt_millis_text(res.jitter_ns),
        e,
        e,
        e,
        e,
        e,
        e,
        e,
        e,
        res.schema@,
    ]
}

/// The fields of the row of a summary; the columns of a probe stay empty.
pub open spec fn summary_fields(s: Summary) -> Seq<Seq<char>> {
    let e = Seq::<char>::empty();
    seq![
        s.record@,
        s.addr@,
        e,
        e,
        e,
        digits(s.total_attempts as nat),
        digits(s.successful_pings as nat),
        percent_text(s.packet_loss_bp),
        millis_text(s.min_duration_ns),
        millis_text(s.avg_duration_ns),
        millis_text(s.max_duration_ns),
        millis_text(s.resolve_time_ns),
        opt_millis_text(s.jitter_p95_ns),
        s.schema@,
    ]
}

/// `fields` one after the other with `sep` between each two.
pub fn join(fields: &Vec<String>, sep: &str) -> (out: String)
    ensures
        out@ == joined(texts(fields@), sep@),
{
    let mut out = String::new();
    let mut i: usize = 0;
    while i < fields.len()
        invariant
            i <= fields.len(),
            out@ == joined(texts(fields@).take(i as int), sep@),
        decreases fields.len() - i,
    {
        let ghost upto = texts(fields@).take(i as int + 1);
        assert(upto.drop_last() =~= texts(fields@).take(i as int));
        if i > 0 {
            push_str(&mut out, sep);
        }
        push_str(&mut out, fields[i].as_str());
        i += 1;
    }
    assert(texts(fields@).take(i as int) =~= texts(fields@));
    out
}

/// A duration in milliseconds with four decimals.
pub fn millis_string(ns: u64) -> (out: String)
    ensures
        out@ == millis_text(ns),
{
    let mut out = String::new();
    push_millis(&mut out, ns);
    out
}

/// A number in decimal.
pub fn decimal_string(n: u64) -> (out: String)
    ensures
        out@ == digits(n as nat),
{
    let mut out = String::new();
    push_decimal(&mut out, n);
    out
}

/// Hundredths of a percent in percent with two decimals.
pub fn percent_string(bp: u32) -> (out: String)
    ensures
        out@ == percent_text(bp),
{
    let mut out = String::new();
    push_percent(&mut out, bp);
    out
}

/// Rows of comma-separated values under one header line.
pub struct Csv {
    header_done: bool,
}

impl Csv {
    /// A formatter that has not given out the header line yet.
    pub fn new() -> (r: Self)
        ensures
            !r.header_given(),
    {
        Csv { header_done: false }
    }

    /// Whether the header line has been given out.
    pub fn header_done(&self) -> (r: bool)
        ensures
            r == self.header_given(),
    {
        self.header_done
    }

    /// The header line, the first time; nothing from then on.
    pub fn ensure_header(&mut self) -> (out: String)
        ensures
            final(self).header_given(),
            out@ == (if old(self).header_given() {
                Seq::<char>::empty()
            } else {
                CSV_HEADER@ + "\n"@
            }),
    {
        if self.header_done {
            String::new()
        } else {
            self.header_done = true;
            let mut out = String::from_str(CSV_HEADER);
            push_str(&mut out, "\n");
            out
        }
    }

    /// A duration in milliseconds with four decimals, or nothing.
    pub fn fmt_opt_ms(v: Option<u64>) -> (out: String)
        ensures
            out@ == opt_millis_text(v),
    {
        match v {
            Some(ns) => millis_string(ns),
            None => String::new(),
        }
    }

    /// The row of a probe.
    pub fn probe_row(res: &PingResult) -> (out: String)
        ensures
            out@ == joined(probe_fields(*res), ","@),
    {
        let mut fields: Vec<String> = Vec::new();
        fields.push(String::from_str(res.record));
        fields.push(res.addr.clone());
        fields.push(String::from_str(if res.success { "open" } else { "closed" }));
        fields.push(millis_string(res.duration_ns));
        fields.push(Self::fmt_opt_ms(res.jitter_ns));
        fields.push(String::new());
        fields.push(String::new());
        fields.push(String::new());
        fields.push(String::new());
        fields.push(String::new());
        fields.push(String::new());
        fields.push(String::new());
        fields.push(String::new());
        fields.push(String::from_str(res.schema));
        assert(texts(fields@) =~= probe_fields(*res));
        join(&fields, ",")
    }

    /// The row of a summary.
    pub fn summary_row(s: &Summary) -> (out: String)
        ensures
            out@ == joined(summary_fields(*s), ","@),
    {
        let mut fields: Vec<String> = Vec::new();
        fields.push(String::from_str(s.record));
        fields.push(s.addr.clone());
        fields.push(String::new());
        fields.push(String::new());
        fields.push(String::new());
        fields.push(decimal_string(s.total_attempts as u64));
        fields.push(decimal_string(s.successful_pings as u64));
        fields.push(percent_string(s.packet_loss_bp));
        fields.push(millis_string(s.min_duration_ns));
        fields.push(millis_string(s.avg_duration_ns));
        fields.push(millis_string(s.max_duration_ns));
        fields.push(millis_string(s.resolve_time_ns));
        fields.push(Self::fmt_opt_ms(s.jitter_p95_ns));
        fields.push(String::from_str(s.schema));
        assert(texts(fields@) =~= summary_fields(*s));
        join(&fields, ",")
    }
}

impl Default for Csv {
    fn default() -> (r: Self)
        ensures
            !r.header_given(),
    {
        Self::new()
    }
}

impl Formatter for Csv {
    open spec fn mode(&self) -> OutputMode {
        OutputMode::Csv
    }

    closed spec fn header_given(&self) -> bool {
        self.header_done
    }

    fn probe(&mut self, res: &PingResult) -> (out: Rendered) {
        let mut out = self.ensure_header();
        push_str(&mut out, Self::probe_row(res).as_str());
        push_str(&mut out, "\n");
        Rendered::Text(out)
    }

    fn summary(&mut self, s: &Summary) -> (out: Rendered) {
        let mut out = self.ensure_header();
        push_str(&mut out, Self::summary_row(s).as_str());
        push_str(&mut out, "\n");
        Rendered::Text(out)
    }
}

/* ---------- Markdown table ---------- */

/// The two lines above the rows of the Markdown table.
pub const MD_HEADER: &'static str =
    "| address | status | rtt_ms | jitter_ms |\n|---------|--------|--------|-----------|\n";

/// How a probe's outcome is called in a row of the Markdown table.
pub open spec fn md_status(success: bool) -> Seq<char> {
    if success {
        "ok"@
    } else {
        "fail"@
    }
}

/// The jitter in a row of the Markdown table: a dash where there is none.
pub open spec fn md_jitter(v: Option<u64>) -> Seq<char> {
    match v {
        Some(ns) => millis_text(ns),
        None => "-"@,
    }
}

/// The row of a probe in the Markdown table.
pub open spec fn md_row(res: PingResult) -> Seq<char> {
    "| "@ + res.addr@ + " | "@ + md_status(res.success) + " | "@ + millis_text(res.duration_ns)
        + " | "@ + md_jitter(res.jitter_ns) + " |"@
}

/// The summary as a Markdown table of fields and values.
pub open spec fn md_summary(s: Summary) -> Seq<char> {
    let body = "\n### Summary\n\n"@ + "| field | value |\n"@ + "|-------|-------|\n"@
        + "| address | "@ + s.addr@ + " |\n"@ + "| total probes | "@ + digits(
        s.total_attempts as nat,
    ) + " |\n"@ + "| success | "@ + digits(s.successful_pings as nat) + " |\n"@ + "| loss % | "@
        + percent_text(s.packet_loss_bp) + " |\n"@ + "| min / avg / max (ms) | "@ + millis_text(
        s.min_duration_ns,
    ) + " / "@ + millis_text(s.avg_duration_ns) + " / "@ + millis_text(s.max_duration_ns)
        + " |\n"@ + "| resolve time (ms) | "@ + millis_text(s.resolve_time_ns) + " |\n"@;
    match s.jitter_p95_ns {
        Some(j95) => body + "| jitter p95 (ms) | "@ + millis_text(j95) + " |\n"@ + "\n"@,
        None => body + "\n"@,
    }
}

/// Rows of a Markdown table under one header.
pub struct Md {
    header_done: bool,
}

impl Md {
    /// Construct a new Markdown formatter.
    pub fn new() -> (r: Self)
        ensures
            !r.header_given(),
    {
        Md { header_done: false }
    }

    /// Whether the header has been given out.
    pub fn header_done(&self) -> (r: bool)
        ensures
            r == self.header_given(),
    {
        self.header_done
    }

    /// The row of a probe.
    pub fn render_row(res: &PingResult) -> (out: String)
        ensures
            out@ == md_row(*res),
    {
        let mut out = String::from_str("| ");
        push_str(&mut out, res.addr.as_str());
        push_str(&mut out, " | ");
        push_str(&mut out, if res.success { "ok" } else { "fail" });
        push_str(&mut out, " | ");
        push_millis(&mut out, res.duration_ns);
        push_str(&mut out, " | ");
        match res.jitter_ns {
            Some(j) => push_millis(&mut out, j),
            None => push_str(&mut out, "-"),
        }
        push_str(&mut out, " |");
        out
    }
}

impl Default for Md {
    fn default() -> (r: Self)
        ensures
            !r.header_given(),
    {
        Self::new()
    }
}

impl Formatter for Md {
    open spec fn mode(&self) -> OutputMode {
        OutputMode::Md
    }

    closed spec fn header_given(&self) -> bool {
        self.header_done
    }

    fn probe(&mut self, res: &PingResult) -> (out: Rendered) {
        let mut out = if self.header_done {
            String::new()
        } else {
            String::from_str(MD_HEADER)
        };
        self.header_done = true;
        push_str(&mut out, Self::render_row(res).as_str());
        push_str(&mut out, "\n");
        Rendered::Text(out)
    }

    fn summary(&mut self, s: &Summary) -> (out: Rendered) {
        let mut out = String::from_str("\n### Summary\n\n");
        push_str(&mut out, "| field | value |\n");
        push_str(&mut out, "|-------|-------|\n");
        push_str(&mut out, "| address | ");
        push_str(&mut out, s.addr.as_str());
        push_str(&mut out, " |\n");
        push_str(&mut out, "| total probes | ");
        push_decimal(&mut out, s.total_attempts as u64);
        push_str(&mut out, " |\n");
        push_str(&mut out, "| success | ");
        push_decimal(&mut out, s.successful_pings as u64);
        push_str(&mut out, " |\n");
        push_str(&mut out, "| loss % | ");
        push_percent(&mut out, s.packet_loss_bp);
        push_str(&mut out, " |\n");
        push_str(&mut out, "| min / avg / max (ms) | ");
        push_millis(&mut out, s.min_duration_ns);
        push_str(&mut out, " / ");
        push_millis(&mut out, s.avg_duration_ns);
        push_str(&mut out, " / ");
        push_millis(&mut out, s.max_duration_ns);
        push_str(&mut out, " |\n");
        push_str(&mut out, "| resolve time (ms) | ");
        push_millis(&mut out, s.resolve_time_ns);
        push_str(&mut out, " |\n");
        match s.jitter_p95_ns {
            Some(j95) => {
                push_str(&mut out, "| jitter p95 (ms) | ");
                push_millis(&mut out, j95);
                push_str(&mut out, " |\n");
            },
            None => {},
        }
        push_str(&mut out, "\n");
        Rendered::Text(out)
    }
}

/* ---------- Factory ---------- */

/// The formatter of one of the output modes.
pub enum AnyFormatter {
    Normal(Normal),
    Json(Json),
    Csv(Csv),
    Md(Md),
    Color(Color),
}

impl Formatter for AnyFormatter {
    open spec fn mode(&self) -> OutputMode {
        match self {
            AnyFormatter::Normal(f) => f.mode(),
            AnyFormatter::Json(f) => f.mode(),
            AnyFormatter::Csv(f) => f.mode(),
            AnyFormatter::Md(f) => f.mode(),
            AnyFormatter::Color(f) => f.mode(),
        }
    }

    open spec fn header_given(&self) -> bool {
        match self {
            AnyFormatter::Normal(f) => f.header_given(),
            AnyFormatter::Json(f) => f.header_given(),
            AnyFormatter::Csv(f) => f.header_given(),
            AnyFormatter::Md(f) => f.header_given(),
            AnyFormatter::Color(f) => f.header_given(),
        }
    }

    fn probe(&mut self, res: &PingResult) -> (out: Rendered) {
        match self {
            AnyFormatter::Normal(f) => f.probe(res),
            AnyFormatter::Json(f) => f.probe(res),
            AnyFormatter::Csv(f) => f.probe(res),
            AnyFormatter::Md(f) => f.probe(res),
            AnyFormatter::Color(f) => f.probe(res),
        }
    }

    fn summary(&mut self, s: &Summary) -> (out: Rendered) {
        match self {
            AnyFormatter::Normal(f) => f.summary(s),
            AnyFormatter::Json(f) => f.summary(s),
            AnyFormatter::Csv(f) => f.summary(s),
            AnyFormatter::Md(f) => f.summary(s),
            AnyFormatter::Color(f) => f.summary(s),
        }
    }
}

/// The formatter of an output mode, which has not given out a header.
pub fn from_mode(mode: OutputMode) -> (r: AnyFormatter)
    ensures
        r.mode() == mode,
        !r.header_given(),
{
    match mode {
        OutputMode::Normal => AnyFormatter::Normal(Normal),
        OutputMode::Json => AnyFormatter::Json(Json),
        OutputMode::Csv => AnyFormatter::Csv(Csv::new()),
        OutputMode::Md => AnyFormatter::Md(Md::new()),
        OutputMode::Color => AnyFormatter::Color(Color),
    }
}

} // verus!
