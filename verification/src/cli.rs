//! Argument parsing layer: what a session is asked to do, and how a
//! command line says it.

use crate::text::{
    chars_of, find, first_index, parse_decimal, parse_unsigned, push_str, same_text, slice_of,
    string_of,
};
use vstd::prelude::*;
use vstd::string::StringExecFns;

verus! {

/// Supported output modes.
#[derive(Clone, Copy, Debug, PartialEq, Eq, Structural)]
pub enum OutputMode {
    Normal,
    Json,
    Csv,
    /// Markdown
    Md,
    /// ANSI-colored TTY
    Color,
}

/// Global CLI arguments.
#[derive(Clone, Debug)]
pub struct Args {
    /// Target in the form `<host:port>`
    pub address: String,
    /// Number of probes (`-c`)
    pub count: usize,
    /// Keep probing until interrupted (`-t`)
    pub continuous: bool,
    /// Output format (`-o`)
    pub output_mode: OutputMode,
    /// Exit after first success (`-e`)
    pub exit_on_success: bool,
    /// Show per-probe jitter (`-j`)
    pub jitter: bool,
    /// Timeout per probe (ms)
    pub timeout_ms: u64,
}

/// The number of probes where none is given.
pub const DEFAULT_COUNT: usize = 4;

/// The timeout in milliseconds where none is given.
pub const DEFAULT_TIMEOUT_MS: u64 = 2000;

/// What is wrong with a number that is to be 1 or more.
pub enum NumberFault {
    /// It is no unsigned decimal number that fits.
    NotANumber,
    /// It is 0.
    Zero,
}

/// The number of 1 or more and `max` at most that `s` writes.
pub open spec fn positive(s: Seq<char>, max: nat) -> Result<nat, NumberFault> {
    match parse_unsigned(s, max) {
        None => Err(NumberFault::NotANumber),
        Some(n) => if n == 0 {
            Err(NumberFault::Zero)
        } else {
            Ok(n)
        },
    }
}

/// The message for a value that is no number.
pub open spec fn not_a_number_text(value: Seq<char>) -> Seq<char> {
    "'"@ + value + "' is not a valid number"@
}

/// The message for `value` where a count is to stand, if it is none.
pub open spec fn count_fault_text(value: Seq<char>) -> Seq<char> {
    match positive(value, usize::MAX as nat) {
        Err(NumberFault::Zero) => "count must be >= 1"@,
        _ => not_a_number_text(value),
    }
}

/// The message for `value` where a timeout is to stand, if it is none.
pub open spec fn timeout_fault_text(value: Seq<char>) -> Seq<char> {
    match positive(value, u64::MAX as nat) {
        Err(NumberFault::Zero) => "timeout must be >= 1"@,
        _ => not_a_number_text(value),
    }
}

fn not_a_number(value: &str) -> (m: String)
    ensures
        m@ == not_a_number_text(value@),
{
    let mut m = String::from_str("'");
    push_str(&mut m, value);
    push_str(&mut m, "' is not a valid number");
    m
}

/// Reads a number of probes: an unsigned decimal number of 1 or more.
pub fn parse_positive_usize(value: &str) -> (r: Result<usize, String>)
    ensures
        match positive(value@, usize::MAX as nat) {
            Ok(n) => r == Ok::<usize, String>(n as usize),
            Err(_) => r matches Err(m) && m@ == count_fault_text(value@),
        },
{
    let chars = chars_of(value);
    match parse_decimal(&chars, usize::MAX as u64) {
        None => Err(not_a_number(value)),
        Some(n) => {
            if n == 0 {
                Err(String::from_str("count must be >= 1"))
            } else {
                Ok(n as usize)
            }
        },
    }
}

/// Reads a timeout in milliseconds: an unsigned decimal number of 1 or
/// more.
pub fn parse_positive_u64(value: &str) -> (r: Result<u64, String>)
    ensures
        match positive(value@, u64::MAX as nat) {
            Ok(n) => r == Ok::<u64, String>(n as u64),
            Err(_) => r matches Err(m) && m@ == timeout_fault_text(value@),
        },
{
    let chars = chars_of(value);
    match parse_decimal(&chars, u64::MAX) {
        None => Err(not_a_number(value)),
        Some(n) => {
            if n == 0 {
                Err(String::from_str("timeout must be >= 1"))
            } else {
                Ok(n)
            }
        },
    }
}

/// The options of the command line.
#[derive(Clone, Copy, Debug, PartialEq, Eq, Structural)]
pub enum Opt {
    /// `-c`, `--count`, with a value
    Count,
    /// `-t`, `--continuous`
    Continuous,
    /// `-o`, `--output-mode`, with a value
    OutputMode,
    /// `-e`, `--exit-on-success`
    ExitOnSuccess,
    /// `-j`, `--jitter`
    Jitter,
    /// `--timeout-ms`, with a value
    TimeoutMs,
    /// `-h`, `--help`
    Help,
    /// `-V`, `--version`
    Version,
}

/// Why a command line gives no arguments. `at` is the index of a word of
/// the command line, `from` the index in that word at which a value begins.
#[derive(Clone, Copy, Debug, PartialEq, Eq, Structural)]
pub enum CliFault {
    /// No target is named.
    MissingAddress,
    /// The word is no option that is known, or a second target.
    Unexpected { at: usize },
    /// The option wants a value and the command line ends.
    MissingValue { opt: Opt },
    /// The option takes no value and was given one.
    UnexpectedValue { opt: Opt },
    /// The value is none that the option takes.
    InvalidValue { opt: Opt, at: usize, from: usize },
    /// The option stands twice.
    Repeated { opt: Opt },
    /// Help was asked for.
    Help,
    /// The version was asked for.
    Version,
}

/// The exit status that goes with a fault: asking for help or for the
/// version is no failure, anything else is a misuse.
pub open spec fn status_of(f: CliFault) -> u8 {
    if f == CliFault::Help || f == CliFault::Version {
        0
    } else {
        2
    }
}

impl CliFault {
    /// The exit status with which to leave after this fault.
    pub fn exit_status(&self) -> (code: u8)
        ensures
            code == status_of(*self),
    {
        match self {
            CliFault::Help => 0,
            CliFault::Version => 0,
            _ => 2,
        }
    }
}

/// What has been read of a command line so far.
#[derive(Clone, Copy, Debug, PartialEq, Eq, Structural)]
pub struct Draft {
    /// The index of the word that names the target.
    pub address_at: Option<usize>,
    pub count: Option<usize>,
    pub continuous: bool,
    pub output_mode: Option<OutputMode>,
    pub exit_on_success: bool,
    pub jitter: bool,
    pub timeout_ms: Option<u64>,
}

/// A draft after one word, and whether the word behind it was taken as its
/// value.
#[derive(Clone, Copy, Debug, PartialEq, Eq, Structural)]
pub struct Taken {
    pub draft: Draft,
    pub with_next: bool,
}

/// Nothing read yet.
pub open spec fn blank() -> Draft {
    Draft {
        address_at: None,
        count: None,
        continuous: false,
        output_mode: None,
        exit_on_success: false,
        jitter: false,
        timeout_ms: None,
    }
}

/// The option of a long name.
pub open spec fn long_opt(name: Seq<char>) -> Option<Opt> {
    if name == "count"@ {
        Some(Opt::Count)
    } else if name == "continuous"@ {
        Some(Opt::Continuous)
    } else if name == "output-mode"@ {
        Some(Opt::OutputMode)
    } else if name == "exit-on-success"@ {
        Some(Opt::ExitOnSuccess)
    } else if name == "jitter"@ {
        Some(Opt::Jitter)
    } else if name == "timeout-ms"@ {
        Some(Opt::TimeoutMs)
    } else if name == "help"@ {
        Some(Opt::Help)
    } else if name == "version"@ {
        Some(Opt::Version)
    } else {
        None
    }
}

/// The option of a short name.
pub open spec fn short_opt(c: char) -> Option<Opt> {
    if c == 'c' {
        Some(Opt::Count)
    } else if c == 't' {
        Some(Opt::Continuous)
    } else if c == 'o' {
        Some(Opt::OutputMode)
    } else if c == 'e' {
        Some(Opt::ExitOnSuccess)
    } else if c == 'j' {
        Some(Opt::Jitter)
    } else if c == 'h' {
        Some(Opt::Help)
    } else if c == 'V' {
        Some(Opt::Version)
    } else {
        None
    }
}

/// Whether the option wants a value.
pub open spec fn takes_value(o: Opt) -> bool {
    o == Opt::Count || o == Opt::OutputMode || o == Opt::TimeoutMs
}

/// The output mode of a name.
pub open spec fn mode_of(v: Seq<char>) -> Option<OutputMode> {
    if v == "normal"@ {
        Some(OutputMode::Normal)
    } else if v == "json"@ {
        Some(OutputMode::Json)
    } else if v == "csv"@ {
        Some(OutputMode::Csv)
    } else if v == "md"@ {
        Some(OutputMode::Md)
    } else if v == "color"@ {
        Some(OutputMode::Color)
    } else {
        None
    }
}

/// The draft with the option `o`, which takes no value, switched on. An
/// option stands once; help and version end the reading.
pub open spec fn with_flag(d: Draft, o: Opt) -> Result<Draft, CliFault> {
    match o {
        Opt::Continuous => if d.continuous {
            Err(CliFault::Repeated { opt: o })
        } else {
            Ok(Draft { continuous: true, ..d })
        },
        Opt::ExitOnSuccess => if d.exit_on_success {
            Err(CliFault::Repeated { opt: o })
        } else {
            Ok(Draft { exit_on_success: true, ..d })
        },
        Opt::Jitter => if d.jitter {
            Err(CliFault::Repeated { opt: o })
        } else {
            Ok(Draft { jitter: true, ..d })
        },
        Opt::Help => Err(CliFault::Help),
        Opt::Version => Err(CliFault::Version),
        _ => Ok(d),
    }
}

/// The draft with the value `v` for the option `o`; the value begins at
/// index `from` of the word `at`.
pub open spec fn with_value(d: Draft, o: Opt, v: Seq<char>, at: usize, from: usize) -> Result<
    Draft,
    CliFault,
> {
    let invalid = Err::<Draft, CliFault>(CliFault::InvalidValue { opt: o, at, from });
    match o {
        Opt::Count => if d.count is Some {
            Err(CliFault::Repeated { opt: o })
        } else {
            match positive(v, usize::MAX as nat) {
                Ok(n) => Ok(Draft { count: Some(n as usize), ..d }),
                Err(_) => invalid,
            }
        },
        Opt::TimeoutMs => if d.timeout_ms is Some {
            Err(CliFault::Repeated { opt: o })
        } else {
            match positive(v, u64::MAX as nat) {
                Ok(n) => Ok(Draft { timeout_ms: Some(n as u64), ..d }),
                Err(_) => invalid,
            }
        },
        Opt::OutputMode => if d.output_mode is Some {
            Err(CliFault::Repeated { opt: o })
        } else {
            match mode_of(v) {
                Some(mode) => Ok(Draft { output_mode: Some(mode), ..d }),
                None => invalid,
            }
        },
        _ => Ok(d),
    }
}

/// The draft with the word `at` as the target; there is one target.
pub open spec fn with_address(d: Draft, at: usize) -> Result<Draft, CliFault> {
    if d.address_at is Some {
        Err(CliFault::Unexpected { at })
    } else {
        Ok(Draft { address_at: Some(at), ..d })
    }
}

/// What the option `o` makes of the draft, where `inline` is the index in
/// the word `i` at which a value given within that word begins, if one is.
/// An option that wants a value and has none within its word takes the
/// next word.
pub open spec fn with_option(
    argv: Seq<Seq<char>>,
    i: int,
    d: Draft,
    o: Opt,
    inline: Option<int>,
) -> Result<Taken, CliFault> {
    if takes_value(o) {
        match inline {
            Some(from) => match with_value(d, o, argv[i].skip(from), i as usize, from as usize) {
                Ok(draft) => Ok(Taken { draft, with_next: false }),
                Err(f) => Err(f),
            },
            None => if i + 1 < argv.len() {
                match with_value(d, o, argv[i + 1], (i + 1) as usize, 0) {
                    Ok(draft) => Ok(Taken { draft, with_next: true }),
                    Err(f) => Err(f),
                }
            } else {
                Err(CliFault::MissingValue { opt: o })
            },
        }
    } else {
        match inline {
            Some(_) => Err(CliFault::UnexpectedValue { opt: o }),
            None => match with_flag(d, o) {
                Ok(draft) => Ok(Taken { draft, with_next: false }),
                Err(f) => Err(f),
            },
        }
    }
}

/// What the word `i`, which begins with two dashes, makes of the draft:
/// `--name`, `--name value` or `--name=value`.
pub open spec fn long_word(argv: Seq<Seq<char>>, i: int, d: Draft) -> Result<Taken, CliFault> {
    let word = argv[i];
    let eq = first_index(word, '=');
    let name = match eq {
        Some(e) => word.subrange(2, e),
        None => word.skip(2),
    };
    match long_opt(name) {
        None => Err(CliFault::Unexpected { at: i as usize }),
        Some(o) => with_option(
            argv,
            i,
            d,
            o,
            match eq {
                Some(e) => Some(e + 1),
                None => None,
            },
        ),
    }
}

/// What the short options of the word `i` from index `j` on make of the
/// draft: switches one after the other, and at most one option with a
/// value, which is the rest of the word (behind `=` where one stands) or
/// the next word.
pub open spec fn cluster(argv: Seq<Seq<char>>, i: int, j: int, d: Draft) -> Result<Taken, CliFault>
    decreases argv[i].len() - j,
{
    let word = argv[i];
    if j >= word.len() {
        Ok(Taken { draft: d, with_next: false })
    } else {
        match short_opt(word[j]) {
            None => Err(CliFault::Unexpected { at: i as usize }),
            Some(o) => if takes_value(o) {
                with_option(
                    argv,
                    i,
                    d,
                    o,
                    if j + 1 >= word.len() {
                        None
                    } else if word[j + 1] == '=' {
                        Some(j + 2)
                    } else {
                        Some(j + 1)
                    },
                )
            } else {
                match with_flag(d, o) {
                    Ok(draft) => cluster(argv, i, j + 1, draft),
                    Err(f) => Err(f),
                }
            },
        }
    }
}

/// Whether a word begins with two dashes.
pub open spec fn is_long(word: Seq<char>) -> bool {
    word.len() >= 2 && word[0] == '-' && word[1] == '-'
}

/// Whether a word holds short options: a dash and something behind it.
pub open spec fn is_short(word: Seq<char>) -> bool {
    word.len() >= 2 && word[0] == '-' && word[1] != '-'
}

/// What the word `i` makes of the draft.
pub open spec fn word(argv: Seq<Seq<char>>, i: int, d: Draft) -> Result<Taken, CliFault> {
    if is_long(argv[i]) {
        long_word(argv, i, d)
    } else if is_short(argv[i]) {
        cluster(argv, i, 1, d)
    } else {
        match with_address(d, i as usize) {
            Ok(draft) => Ok(Taken { draft, with_next: false }),
            Err(f) => Err(f),
        }
    }
}

/// What the words from `i` on make of the draft. Behind a word `--` every
/// word is a target (`plain`). A command line names a target.
pub open spec fn words(argv: Seq<Seq<char>>, i: int, d: Draft, plain: bool) -> Result<
    Draft,
    CliFault,
>
    decreases argv.len() + 1 - i,
{
    if i < 0 || i >= argv.len() {
        if d.address_at is None {
            Err(CliFault::MissingAddress)
        } else {
            Ok(d)
        }
    } else if plain {
        match with_address(d, i as usize) {
            Ok(draft) => words(argv, i + 1, draft, true),
            Err(f) => Err(f),
        }
    } else if argv[i].len() == 2 && is_long(argv[i]) {
        words(argv, i + 1, d, true)
    } else {
        match word(argv, i, d) {
            Ok(t) => words(argv, i + (if t.with_next { 2int } else { 1int }), t.draft, false),
            Err(f) => Err(f),
        }
    }
}

/// A word takes the next word as its value only where there is one.
pub proof fn lemma_next_word_is_there(argv: Seq<Seq<char>>, i: int, d: Draft)
    requires
        0 <= i < argv.len(),
    ensures
        word(argv, i, d) matches Ok(t) && t.with_next ==> i + 1 < argv.len(),
{
    if is_short(argv[i]) && !is_long(argv[i]) {
        lemma_cluster_next_word(argv, i, 1, d);
    }
}

proof fn lemma_cluster_next_word(argv: Seq<Seq<char>>, i: int, j: int, d: Draft)
    requires
        0 <= i < argv.len(),
        0 <= j,
    ensures
        cluster(argv, i, j, d) matches Ok(t) && t.with_next ==> i + 1 < argv.len(),
    decreases argv[i].len() - j,
{
    if j < argv[i].len() {
        match short_opt(argv[i][j]) {
            Some(o) => {
                if !takes_value(o) {
                    match with_flag(d, o) {
                        Ok(draft) => lemma_cluster_next_word(argv, i, j + 1, draft),
                        Err(_) => {},
                    }
                }
            },
            None => {},
        }
    }
}

/// What a command line says; its first word is the name of the program.
pub open spec fn command_line(argv: Seq<Seq<char>>) -> Result<Draft, CliFault> {
    words(argv, 1, blank(), false)
}

/// The words of a command line as texts.
pub open spec fn texts_of(argv: Seq<Vec<char>>) -> Seq<Seq<char>> {
    Seq::new(argv.len(), |k: int| argv[k]@)
}

/// An index as the grammar counts it.
pub open spec fn index_of(at: Option<usize>) -> Option<int> {
    match at {
        Some(k) => Some(k as int),
        None => None,
    }
}

fn find_long_opt(name: &Vec<char>) -> (r: Option<Opt>)
    ensures
        r == long_opt(name@),
{
    if same_text(name, "count") {
        Some(Opt::Count)
    } else if same_text(name, "continuous") {
        Some(Opt::Continuous)
    } else if same_text(name, "output-mode") {
        Some(Opt::OutputMode)
    } else if same_text(name, "exit-on-success") {
        Some(Opt::ExitOnSuccess)
    } else if same_text(name, "jitter") {
        Some(Opt::Jitter)
    } else if same_text(name, "timeout-ms") {
        Some(Opt::TimeoutMs)
    } else if same_text(name, "help") {
        Some(Opt::Help)
    } else if same_text(name, "version") {
        Some(Opt::Version)
    } else {
        None
    }
}

fn find_short_opt(c: char) -> (r: Option<Opt>)
    ensures
        r == short_opt(c),
{
    if c == 'c' {
        Some(Opt::Count)
    } else if c == 't' {
        Some(Opt::Continuous)
    } else if c == 'o' {
        Some(Opt::OutputMode)
    } else if c == 'e' {
        Some(Opt::ExitOnSuccess)
    } else if c == 'j' {
        Some(Opt::Jitter)
    } else if c == 'h' {
        Some(Opt::Help)
    } else if c == 'V' {
        Some(Opt::Version)
    } else {
        None
    }
}

fn wants_value(o: Opt) -> (r: bool)
    ensures
        r == takes_value(o),
{
    match o {
        Opt::Count => true,
        Opt::OutputMode => true,
        Opt::TimeoutMs => true,
        _ => false,
    }
}

fn find_mode(v: &Vec<char>) -> (r: Option<OutputMode>)
    ensures
        r == mode_of(v@),
{
    if same_text(v, "normal") {
        Some(OutputMode::Normal)
    } else if same_text(v, "json") {
        Some(OutputMode::Json)
    } else if same_text(v, "csv") {
        Some(OutputMode::Csv)
    } else if same_text(v, "md") {
        Some(OutputMode::Md)
    } else if same_text(v, "color") {
        Some(OutputMode::Color)
    } else {
        None
    }
}

fn set_flag(d: Draft, o: Opt) -> (r: Result<Draft, CliFault>)
    ensures
        r == with_flag(d, o),
{
    match o {
        Opt::Continuous => if d.continuous {
            Err(CliFault::Repeated { opt: o })
        } else {
            Ok(Draft { continuous: true, ..d })
        },
        Opt::ExitOnSuccess => if d.exit_on_success {
            Err(CliFault::Repeated { opt: o })
        } else {
            Ok(Draft { exit_on_success: true, ..d })
        },
        Opt::Jitter => if d.jitter {
            Err(CliFault::Repeated { opt: o })
        } else {
            Ok(Draft { jitter: true, ..d })
        },
        Opt::Help => Err(CliFault::Help),
        Opt::Version => Err(CliFault::Version),
        _ => Ok(d),
    }
}

fn set_value(d: Draft, o: Opt, v: &Vec<char>, at: usize, from: usize) -> (r: Result<
    Draft,
    CliFault,
>)
    ensures
        r == with_value(d, o, v@, at, from),
{
    match o {
        Opt::Count => if d.count.is_some() {
            Err(CliFault::Repeated { opt: o })
        } else {
            match parse_decimal(v, usize::MAX as u64) {
                Some(n) if n > 0 => Ok(Draft { count: Some(n as usize), ..d }),
                _ => Err(CliFault::InvalidValue { opt: o, at, from }),
            }
        },
        Opt::TimeoutMs => if d.timeout_ms.is_some() {
            Err(CliFault::Repeated { opt: o })
        } else {
            match parse_decimal(v, u64::MAX) {
                Some(n) if n > 0 => Ok(Draft { timeout_ms: Some(n), ..d }),
                _ => Err(CliFault::InvalidValue { opt: o, at, from }),
            }
        },
        Opt::OutputMode => if d.output_mode.is_some() {
            Err(CliFault::Repeated { opt: o })
        } else {
            match find_mode(v) {
                Some(mode) => Ok(Draft { output_mode: Some(mode), ..d }),
                None => Err(CliFault::InvalidValue { opt: o, at, from }),
            }
        },
        _ => Ok(d),
    }
}

fn set_address(d: Draft, at: usize) -> (r: Result<Draft, CliFault>)
    ensures
        r == with_address(d, at),
{
    if d.address_at.is_some() {
        Err(CliFault::Unexpected { at })
    } else {
        Ok(Draft { address_at: Some(at), ..d })
    }
}

fn set_option(argv: &Vec<Vec<char>>, i: usize, d: Draft, o: Opt, inline: Option<usize>) -> (r:
    Result<Taken, CliFault>)
    requires
        i < argv.len(),
        inline matches Some(from) ==> from <= argv[i as int].len(),
    ensures
        r == with_option(texts_of(argv@), i as int, d, o, index_of(inline)),
{
    if wants_value(o) {
        match inline {
            Some(from) => {
                let v = slice_of(&argv[i], from, argv[i].len());
                match set_value(d, o, &v, i, from) {
                    Ok(draft) => Ok(Taken { draft, with_next: false }),
                    Err(f) => Err(f),
                }
            },
            None => {
                if i + 1 < argv.len() {
                    match set_value(d, o, &argv[i + 1], i + 1, 0) {
                        Ok(draft) => Ok(Taken { draft, with_next: true }),
                        Err(f) => Err(f),
                    }
                } else {
                    Err(CliFault::MissingValue { opt: o })
                }
            },
        }
    } else {
        match inline {
            Some(_) => Err(CliFault::UnexpectedValue { opt: o }),
            None => match set_flag(d, o) {
                Ok(draft) => Ok(Taken { draft, with_next: false }),
                Err(f) => Err(f),
            },
        }
    }
}

fn take_long(argv: &Vec<Vec<char>>, i: usize, d: Draft) -> (r: Result<Taken, CliFault>)
    requires
        i < argv.len(),
        is_long(argv[i as int]@),
    ensures
        r == long_word(texts_of(argv@), i as int, d),
{
    let word = &argv[i];
    let eq = find(word, '=');
    let name = match eq {
        Some(e) => slice_of(word, 2, e),
        None => slice_of(word, 2, word.len()),
    };
    match find_long_opt(&name) {
        None => Err(CliFault::Unexpected { at: i }),
        Some(o) => set_option(
            argv,
            i,
            d,
            o,
            match eq {
                Some(e) => Some(e + 1),
                None => None,
            },
        ),
    }
}

fn take_cluster(argv: &Vec<Vec<char>>, i: usize, d: Draft) -> (r: Result<Taken, CliFault>)
    requires
        i < argv.len(),
    ensures
        r == cluster(texts_of(argv@), i as int, 1, d),
{
    let word = &argv[i];
    let ghost line = texts_of(argv@);
    let mut draft = d;
    let mut j: usize = 1;
    while j < word.len()
        invariant
            1 <= j,
            i < argv.len(),
            word == &argv[i as int],
            line == texts_of(argv@),
            cluster(line, i as int, j as int, draft) == cluster(line, i as int, 1, d),
        decreases word.len() - j,
    {
        match find_short_opt(word[j]) {
            None => {
                return Err(CliFault::Unexpected { at: i });
            },
            Some(o) => {
                if wants_value(o) {
                    let inline = if j + 1 >= word.len() {
                        None
                    } else if word[j + 1] == '=' {
                        Some(j + 2)
                    } else {
                        Some(j + 1)
                    };
                    return set_option(argv, i, draft, o, inline);
                } else {
                    match set_flag(draft, o) {
                        Ok(next) => {
                            draft = next;
                        },
                        Err(f) => {
                            return Err(f);
                        },
                    }
                }
            },
        }
        j += 1;
    }
    Ok(Taken { draft, with_next: false })
}

fn take_word(argv: &Vec<Vec<char>>, i: usize, d: Draft) -> (r: Result<Taken, CliFault>)
    requires
        i < argv.len(),
    ensures
        r == word(texts_of(argv@), i as int, d),
{
    let w = &argv[i];
    if w.len() >= 2 && w[0] == '-' && w[1] == '-' {
        take_long(argv, i, d)
    } else if w.len() >= 2 && w[0] == '-' {
        take_cluster(argv, i, d)
    } else {
        match set_address(d, i) {
            Ok(draft) => Ok(Taken { draft, with_next: false }),
            Err(f) => Err(f),
        }
    }
}

/// Reads a command line; its first word is the name of the program.
pub fn read_command_line(argv: &Vec<Vec<char>>) -> (r: Result<Draft, CliFault>)
    ensures
        r == command_line(texts_of(argv@)),
{
    let ghost line = texts_of(argv@);
    let mut d = Draft {
        address_at: None,
        count: None,
        continuous: false,
        output_mode: None,
        exit_on_success: false,
        jitter: false,
        timeout_ms: None,
    };
    let mut plain = false;
    let mut i: usize = 1;
    while i < argv.len()
        invariant
            1 <= i,
            line == texts_of(argv@),
            words(line, i as int, d, plain) == command_line(line),
        decreases argv.len() - i,
    {
        let w = &argv[i];
        if plain {
            match set_address(d, i) {
                Ok(draft) => {
                    d = draft;
                    i += 1;
                },
                Err(f) => {
                    return Err(f);
                },
            }
        } else if w.len() == 2 && w[0] == '-' && w[1] == '-' {
            plain = true;
            i += 1;
        } else {
            match take_word(argv, i, d) {
                Ok(t) => {
                    proof {
                        lemma_next_word_is_there(line, i as int, d);
                    }
                    d = t.draft;
                    if t.with_next {
                        i += 2;
                    } else {
                        i += 1;
                    }
                },
                Err(f) => {
                    return Err(f);
                },
            }
        }
    }
    if d.address_at.is_none() {
        Err(CliFault::MissingAddress)
    } else {
        Ok(d)
    }
}

/// The word `at` of a command line; nothing where there is none.
pub open spec fn word_at(argv: Seq<Seq<char>>, at: int) -> Seq<char> {
    if 0 <= at < argv.len() {
        argv[at]
    } else {
        Seq::empty()
    }
}

/// The value that begins at index `from` of the word `at`.
pub open spec fn value_at(argv: Seq<Seq<char>>, at: int, from: int) -> Seq<char> {
    let w = word_at(argv, at);
    if 0 <= from <= w.len() {
        w.skip(from)
    } else {
        Seq::empty()
    }
}

/// How an option is called in a message.
pub open spec fn label(o: Opt) -> Seq<char> {
    match o {
        Opt::Count => "--count <COUNT>"@,
        Opt::Continuous => "--continuous"@,
        Opt::OutputMode => "--output-mode <OUTPUT_MODE>"@,
        Opt::ExitOnSuccess => "--exit-on-success"@,
        Opt::Jitter => "--jitter"@,
        Opt::TimeoutMs => "--timeout-ms <TIMEOUT_MS>"@,
        Opt::Help => "--help"@,
        Opt::Version => "--version"@,
    }
}

/// Why the value `v` is none that the option `o` takes.
pub open spec fn reason(o: Opt, v: Seq<char>) -> Seq<char> {
    match o {
        Opt::Count => count_fault_text(v),
        Opt::TimeoutMs => timeout_fault_text(v),
        _ => "possible values: normal, json, csv, md, color"@,
    }
}

/// The message of a fault of the command line `argv`.
pub open spec fn fault_text(argv: Seq<Seq<char>>, f: CliFault) -> Seq<char> {
    match f {
        CliFault::MissingAddress =>
            "the following required arguments were not provided:\n  <ADDRESS>"@,
        CliFault::Unexpected { at } => "unexpected argument '"@ + word_at(argv, at as int)
            + "' found"@,
        CliFault::MissingValue { opt } => "a value is required for '"@ + label(opt)
            + "' but none was supplied"@,
        CliFault::UnexpectedValue { opt } => "unexpected value for '"@ + label(opt)
            + "' found; no more were expected"@,
        CliFault::InvalidValue { opt, at, from } => "invalid value '"@ + value_at(
            argv,
            at as int,
            from as int,
        ) + "' for '"@ + label(opt) + "': "@ + reason(opt, value_at(argv, at as int, from as int)),
        CliFault::Repeated { opt } => "the argument '"@ + label(opt)
            + "' cannot be used multiple times"@,
        CliFault::Help => "help was asked for"@,
        CliFault::Version => "the version was asked for"@,
    }
}

/// A command line that gives no arguments: the fault and its message.
#[derive(Clone, Debug)]
pub struct CliError {
    pub fault: CliFault,
    pub message: String,
}

impl CliError {
    /// The message.
    pub fn to_string(&self) -> (r: String)
        ensures
            r@ == self.message@,
    {
        self.message.clone()
    }
}

/// Whether `a` holds what the draft `d` of the command line `argv` says,
/// with the defaults where it says nothing: 4 probes, plain text, a timeout
/// of 2000 ms.
pub open spec fn is_args_of(a: Args, argv: Seq<Seq<char>>, d: Draft) -> bool {
    &&& a.address@ == match d.address_at {
        Some(at) => word_at(argv, at as int),
        None => Seq::empty(),
    }
    &&& a.count == match d.count {
        Some(n) => n,
        None => DEFAULT_COUNT,
    }
    &&& a.continuous == d.continuous
    &&& a.output_mode == match d.output_mode {
        Some(mode) => mode,
        None => OutputMode::Normal,
    }
    &&& a.exit_on_success == d.exit_on_success
    &&& a.jitter == d.jitter
    &&& a.timeout_ms == match d.timeout_ms {
        Some(ms) => ms,
        None => DEFAULT_TIMEOUT_MS,
    }
}

/// The words of a command line as texts.
pub open spec fn line_of(argv: Seq<&str>) -> Seq<Seq<char>> {
    Seq::new(argv.len(), |k: int| argv[k]@)
}

fn option_label(o: Opt) -> (r: &'static str)
    ensures
        r@ == label(o),
{
    match o {
        Opt::Count => "--count <COUNT>",
        Opt::Continuous => "--continuous",
        Opt::OutputMode => "--output-mode <OUTPUT_MODE>",
        Opt::ExitOnSuccess => "--exit-on-success",
        Opt::Jitter => "--jitter",
        Opt::TimeoutMs => "--timeout-ms <TIMEOUT_MS>",
        Opt::Help => "--help",
        Opt::Version => "--version",
    }
}

fn text_at(argv: &Vec<Vec<char>>, at: usize, from: usize) -> (r: String)
    ensures
        r@ == value_at(texts_of(argv@), at as int, from as int),
        from == 0 ==> r@ == word_at(texts_of(argv@), at as int),
{
    if at < argv.len() && from <= argv[at].len() {
        let v = slice_of(&argv[at], from, argv[at].len());
        string_of(&v)
    } else {
        String::new()
    }
}

fn describe(argv: &Vec<Vec<char>>, f: CliFault) -> (m: String)
    ensures
        m@ == fault_text(texts_of(argv@), f),
{
    match f {
        CliFault::MissingAddress => String::from_str(
            "the following required arguments were not provided:\n  <ADDRESS>",
        ),
        CliFault::Unexpected { at } => {
            let mut m = String::from_str("unexpected argument '");
            push_str(&mut m, text_at(argv, at, 0).as_str());
            push_str(&mut m, "' found");
            m
        },
        CliFault::MissingValue { opt } => {
            let mut m = String::from_str("a value is required for '");
            push_str(&mut m, option_label(opt));
            push_str(&mut m, "' but none was supplied");
            m
        },
        CliFault::UnexpectedValue { opt } => {
            let mut m = String::from_str("unexpected value for '");
            push_str(&mut m, option_label(opt));
            push_str(&mut m, "' found; no more were expected");
            m
        },
        CliFault::InvalidValue { opt, at, from } => {
            let value = text_at(argv, at, from);
            let why = match opt {
                Opt::Count => match parse_positive_usize(value.as_str()) {
                    Err(m) => m,
                    Ok(_) => not_a_number(value.as_str()),
                },
                Opt::TimeoutMs => match parse_positive_u64(value.as_str()) {
                    Err(m) => m,
                    Ok(_) => not_a_number(value.as_str()),
                },
                _ => String::from_str("possible values: normal, json, csv, md, color"),
            };
            let mut m = String::from_str("invalid value '");
            push_str(&mut m, value.as_str());
            push_str(&mut m, "' for '");
            push_str(&mut m, option_label(opt));
            push_str(&mut m, "': ");
            push_str(&mut m, why.as_str());
            m
        },
        CliFault::Repeated { opt } => {
            let mut m = String::from_str("the argument '");
            push_str(&mut m, option_label(opt));
            push_str(&mut m, "' cannot be used multiple times");
            m
        },
        CliFault::Help => String::from_str("help was asked for"),
        CliFault::Version => String::from_str("the version was asked for"),
    }
}

impl Args {
    /// Reads the arguments off a command line, whose first word is the name
    /// of the program.
    pub fn try_parse_from(argv: &[&str]) -> (r: Result<Args, CliError>)
        ensures
            match command_line(line_of(argv@)) {
                Ok(d) => r matches Ok(a) && is_args_of(a, line_of(argv@), d),
                Err(f) => r matches Err(e) && e.fault == f && e.message@ == fault_text(
                    line_of(argv@),
                    f,
                ),
            },
    {
        let mut line: Vec<Vec<char>> = Vec::new();
        let mut i: usize = 0;
        while i < argv.len()
            invariant
                i <= argv.len(),
                line@.len() == i,
                forall|k: int| 0 <= k < i ==> line@[k]@ == argv@[k]@,
            decreases argv.len() - i,
        {
            line.push(chars_of(argv[i]));
            i += 1;
        }
        assert(texts_of(line@) =~= line_of(argv@));
        match read_command_line(&line) {
            Err(f) => Err(CliError { fault: f, message: describe(&line, f) }),
            Ok(d) => Ok(
                Args {
                    address: match d.address_at {
                        Some(at) => text_at(&line, at, 0),
                        None => String::new(),
                    },
                    count: match d.count {
                        Some(n) => n,
                        None => DEFAULT_COUNT,
                    },
                    continuous: d.continuous,
                    output_mode: match d.output_mode {
                        Some(mode) => mode,
                        None => OutputMode::Normal,
                    },
                    exit_on_success: d.exit_on_success,
                    jitter: d.jitter,
                    timeout_ms: match d.timeout_ms {
                        Some(ms) => ms,
                        None => DEFAULT_TIMEOUT_MS,
                    },
                },
            ),
        }
    }

    /// Reads the arguments off a command line that holds them.
    pub fn parse_from(argv: &[&str]) -> (a: Args)
        requires
            command_line(line_of(argv@)) is Ok,
        ensures
            is_args_of(a, line_of(argv@), command_line(line_of(argv@))->Ok_0),
    {
        match Self::try_parse_from(argv) {
            Ok(a) => a,
            Err(_) => vstd::pervasive::unreached(),
        }
    }
}

} // verus!
