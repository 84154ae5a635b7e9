//! The command line as the library reads it, held against the same
//! command as clap reads it.

use clap::{Arg, ArgAction, Command};
use tcping::cli::{parse_positive_u64, parse_positive_usize, Args, OutputMode};

fn command() -> Command {
    Command::new("tcping")
        .version("0.1.0")
        .arg(Arg::new("address").required(true))
        .arg(
            Arg::new("count")
                .short('c')
                .long("count")
                .default_value("4")
                .value_parser(parse_positive_usize),
        )
        .arg(Arg::new("continuous").short('t').long("continuous").action(ArgAction::SetTrue))
        .arg(
            Arg::new("output_mode")
                .short('o')
                .long("output-mode")
                .default_value("normal")
                .value_parser(["normal", "json", "csv", "md", "color"]),
        )
        .arg(
            Arg::new("exit_on_success")
                .short('e')
                .long("exit-on-success")
                .action(ArgAction::SetTrue),
        )
        .arg(Arg::new("jitter").short('j').long("jitter").action(ArgAction::SetTrue))
        .arg(
            Arg::new("timeout_ms")
                .long("timeout-ms")
                .default_value("2000")
                .value_parser(parse_positive_u64),
        )
}

type Read = (String, usize, bool, String, bool, bool, u64);

fn by_clap(argv: &[&str]) -> Option<Read> {
    let m = command().try_get_matches_from(argv).ok()?;
    Some((
        m.get_one::<String>("address").unwrap().clone(),
        *m.get_one::<usize>("count").unwrap(),
        m.get_flag("continuous"),
        m.get_one::<String>("output_mode").unwrap().clone(),
        m.get_flag("exit_on_success"),
        m.get_flag("jitter"),
        *m.get_one::<u64>("timeout_ms").unwrap(),
    ))
}

fn by_library(argv: &[&str]) -> Option<Read> {
    let a = Args::try_parse_from(argv).ok()?;
    let mode = match a.output_mode {
        OutputMode::Normal => "normal",
        OutputMode::Json => "json",
        OutputMode::Csv => "csv",
        OutputMode::Md => "md",
        OutputMode::Color => "color",
    };
    Some((
        a.address,
        a.count,
        a.continuous,
        String::from(mode),
        a.exit_on_success,
        a.jitter,
        a.timeout_ms,
    ))
}

#[test]
fn command_lines_are_read_as_clap_reads_them() {
    let lines: Vec<Vec<&str>> = vec![
        vec![],
        vec!["tcping"],
        vec!["tcping", "a:1"],
        vec!["tcping", "a:1", "b:2"],
        vec!["tcping", "a:1", "-c", "5"],
        vec!["tcping", "a:1", "-c5"],
        vec!["tcping", "a:1", "-c=5"],
        vec!["tcping", "a:1", "-c", "0"],
        vec!["tcping", "a:1", "-c", "+5"],
        vec!["tcping", "a:1", "-c", "x"],
        vec!["tcping", "a:1", "-c"],
        vec!["tcping", "a:1", "-c", "-5"],
        vec!["tcping", "a:1", "-c", "1", "-c", "2"],
        vec!["tcping", "a:1", "--count", "5"],
        vec!["tcping", "a:1", "--count=5"],
        vec!["tcping", "a:1", "--count="],
        vec!["tcping", "a:1", "--count", "5", "--count=6"],
        vec!["tcping", "--count", "a:1"],
        vec!["tcping", "a:1", "-t"],
        vec!["tcping", "a:1", "-t", "-t"],
        vec!["tcping", "a:1", "-tt"],
        vec!["tcping", "a:1", "-tej"],
        vec!["tcping", "a:1", "-tejc3"],
        vec!["tcping", "a:1", "-tejc", "3"],
        vec!["tcping", "a:1", "-tc=3e"],
        vec!["tcping", "a:1", "-t=1"],
        vec!["tcping", "a:1", "--continuous"],
        vec!["tcping", "a:1", "--continuous=true"],
        vec!["tcping", "a:1", "--continuous", "--exit-on-success", "--jitter"],
        vec!["tcping", "a:1", "-o", "json"],
        vec!["tcping", "a:1", "-ojson"],
        vec!["tcping", "a:1", "-o=csv"],
        vec!["tcping", "a:1", "-o", "JSON"],
        vec!["tcping", "a:1", "-o", "xml"],
        vec!["tcping", "a:1", "--output-mode", "md"],
        vec!["tcping", "a:1", "--output-mode=color"],
        vec!["tcping", "a:1", "--output-mode=normal", "-o", "md"],
        vec!["tcping", "a:1", "--timeout-ms", "150"],
        vec!["tcping", "a:1", "--timeout-ms=150"],
        vec!["tcping", "a:1", "--timeout-ms", "0"],
        vec!["tcping", "a:1", "--timeout-ms", "18446744073709551615"],
        vec!["tcping", "a:1", "--timeout-ms", "18446744073709551616"],
        vec!["tcping", "a:1", "--timeout-ms"],
        vec!["tcping", "--", "a:1"],
        vec!["tcping", "--", "-t"],
        vec!["tcping", "-t", "--", "-c"],
        vec!["tcping", "--", "a:1", "-t"],
        vec!["tcping", "a:1", "--"],
        vec!["tcping", "--"],
        vec!["tcping", "-"],
        vec!["tcping", "-", "-t"],
        vec!["tcping", ""],
        vec!["tcping", "a:1", ""],
        vec!["tcping", "a:1", "-x"],
        vec!["tcping", "a:1", "-tx"],
        vec!["tcping", "a:1", "--bogus"],
        vec!["tcping", "a:1", "--bogus=1"],
        vec!["tcping", "a:1", "--coun", "5"],
        vec!["tcping", "a:1", "--count5"],
        vec!["tcping", "-e", "a:1", "-j", "-c", "2", "-o", "csv", "--timeout-ms", "9", "-t"],
        vec!["tcping", "a:1", "-h"],
        vec!["tcping", "a:1", "--help"],
        vec!["tcping", "-V"],
        vec!["tcping", "--version"],
        vec!["tcping", "a:1", "-th"],
        vec!["tcping", "a:1", "-c", "5", "-h"],
        vec!["tcping", "a:1", "-c", "-h"],
        vec!["tcping", "a:1", "-o", "-t"],
        vec!["tcping", "a:1", "-c", "--"],
        vec!["tcping", "a:1", "--count", "--jitter"],
        vec!["tcping", "-c", "5", "--", "a:1"],
        vec!["tcping", "a:1", "-j-t"],
        vec!["tcping", "a:1", "-c 5"],
        vec!["tcping", "a:1", "--count= 5"],
    ];
    for argv in lines {
        assert_eq!(by_library(&argv), by_clap(&argv), "{argv:?}");
    }
}

#[test]
fn random_command_lines_are_read_as_clap_reads_them() {
    let pool = [
        "a:1", "b:2", "", "-", "--", "-c", "-c5", "-c=5", "-c0", "-c=", "-t", "-e", "-j", "-o",
        "-ojson", "-o=md", "-oxml", "-te", "-jt", "-tc", "-tc7", "-ec=7", "-x", "-tx", "-h", "-V",
        "--count", "--count=3", "--count=", "--count=0", "--continuous", "--continuous=1",
        "--exit-on-success", "--jitter", "--output-mode", "--output-mode=csv",
        "--output-mode=CSV", "--timeout-ms", "--timeout-ms=1", "--timeout-ms=+1",
        "--timeout-ms=-1", "--help", "--version", "--bogus", "--count5", "5", "+5", "0", "json",
        "color", "normal", "-5", "-c==5", "--count=5=6", "-=", "--=", "---", "-c-", "-o-",
    ];
    let mut state: u64 = 0x9e37_79b9_7f4a_7c15;
    let mut next = move |bound: usize| {
        state ^= state << 13;
        state ^= state >> 7;
        state ^= state << 17;
        (state % bound as u64) as usize
    };
    for _ in 0..30_000 {
        let len = next(7);
        let mut argv = vec!["tcping"];
        for _ in 0..len {
            argv.push(pool[next(pool.len())]);
        }
        assert_eq!(by_library(&argv), by_clap(&argv), "{argv:?}");
    }
}
