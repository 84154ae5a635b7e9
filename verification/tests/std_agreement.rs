//! What the library computes on text and numbers, held against the same
//! computation written with the standard library.

use tcping::cli::{parse_positive_u64, parse_positive_usize};
use tcping::engine::{first_nameserver, ParsedTarget};
use tcping::formatter::{decimal_string, millis_string, percent_string, Csv};
use tcping::stats::Stats;
use tcping::text::{chars_of, string_of, trimmed, trimmed_start};

struct Random(u64);

impl Random {
    fn below(&mut self, bound: usize) -> usize {
        self.0 ^= self.0 << 13;
        self.0 ^= self.0 >> 7;
        self.0 ^= self.0 << 17;
        (self.0 % bound as u64) as usize
    }

    fn text(&mut self, pool: &[char], longest: usize) -> String {
        let len = self.below(longest + 1);
        (0..len).map(|_| pool[self.below(pool.len())]).collect()
    }
}

fn target_by_std(address: &str) -> Option<(String, u16)> {
    let trimmed = address.trim();
    let (host_part, port_part) = if let Some(rest) = trimmed.strip_prefix('[') {
        let closing = rest.find(']')?;
        let host = &rest[..closing];
        let remainder = rest[closing + 1..].strip_prefix(':')?;
        (host, remainder)
    } else {
        trimmed.rsplit_once(':')?
    };
    if host_part.is_empty() {
        return None;
    }
    let port: u16 = port_part.parse().ok()?;
    Some((host_part.to_string(), port))
}

#[test]
fn targets_are_read_as_the_standard_library_reads_them() {
    let pool = [
        'a', 'z', '.', ':', '[', ']', '0', '1', '5', '6', '9', '+', '-', ' ', '\t', '\n', '\r',
        '\u{b}', '\u{c}', '\u{85}', '\u{a0}', '\u{1680}', '\u{2000}', '\u{200a}', '\u{200b}',
        '\u{2028}', '\u{2029}', '\u{202f}', '\u{205f}', '\u{3000}', '\u{feff}', 'é', '٣',
    ];
    let mut random = Random(0x0123_4567_89ab_cdef);
    for _ in 0..40_000 {
        let address = random.text(&pool, 9);
        let ours = ParsedTarget::parse(&address).ok().map(|t| (t.host, t.port));
        assert_eq!(ours, target_by_std(&address), "{address:?}");
    }
    for address in ["h:65535", "h:65536", "h:065535", "h:+65535", "h:00000000000000000080", "[::1]:443x"] {
        let ours = ParsedTarget::parse(address).ok().map(|t| (t.host, t.port));
        assert_eq!(ours, target_by_std(address), "{address:?}");
    }
}

#[test]
fn white_space_is_what_the_standard_library_trims() {
    for code in 0..0x3100u32 {
        if let Some(c) = char::from_u32(code) {
            let s = format!("{c}x{c}");
            let v = chars_of(&s);
            assert_eq!(string_of(&trimmed(&v)), s.trim(), "{code:#x}");
            assert_eq!(string_of(&trimmed_start(&v)), s.trim_start(), "{code:#x}");
        }
    }
    for s in ["", " ", "  a b  ", "\t\n", "a", " \u{3000}a\u{2003} "] {
        assert_eq!(string_of(&trimmed(&chars_of(s))), s.trim());
    }
}

fn nameserver_by_std(contents: &str) -> Option<String> {
    for line in contents.lines() {
        let line = line.trim_start();
        if let Some(rest) = line.strip_prefix("nameserver") {
            return Some(rest.trim().to_string());
        }
    }
    None
}

#[test]
fn name_servers_are_found_as_the_standard_library_finds_them() {
    let words = [
        "nameserver", "nameserver ", " nameserver\t", "name", "server", "search lan", "#", " ",
        "\t", "\n", "\r\n", "\n\n", "192.0.2.1", " 2001:db8::1 ", "\u{a0}", "nameservers",
    ];
    let mut random = Random(0xfeed_beef_0bad_cafe);
    for _ in 0..20_000 {
        let count = random.below(7);
        let contents: String = (0..count).map(|_| words[random.below(words.len())]).collect();
        assert_eq!(first_nameserver(&contents), nameserver_by_std(&contents), "{contents:?}");
    }
}

#[test]
fn numbers_are_read_as_the_standard_library_reads_them() {
    let pool = ['0', '1', '2', '9', '+', '-', ' ', '_', 'a', '٣'];
    let mut random = Random(0x1357_9bdf_0246_8ace);
    for _ in 0..40_000 {
        let s = random.text(&pool, 22);
        assert_eq!(
            parse_positive_u64(&s).ok(),
            s.parse::<u64>().ok().filter(|n| *n > 0),
            "{s:?}"
        );
        assert_eq!(
            parse_positive_usize(&s).ok(),
            s.parse::<usize>().ok().filter(|n| *n > 0),
            "{s:?}"
        );
    }
}

#[test]
fn numbers_are_written_as_the_standard_library_writes_them() {
    let mut random = Random(0x0f0f_f0f0_1234_4321);
    for n in [0, 1, 9, 10, 99, 100, 1_000_000, u64::MAX] {
        assert_eq!(decimal_string(n), n.to_string());
    }
    for _ in 0..20_000 {
        let n = (random.below(usize::MAX) as u64) >> random.below(64);
        assert_eq!(decimal_string(n), n.to_string());
    }
}

#[test]
fn durations_are_written_as_four_decimals_of_a_millisecond() {
    let mut random = Random(0x2468_ace0_1357_9bdf);
    for _ in 0..40_000 {
        // up to 1000 s, where the milliseconds are exact enough as a float
        let ns = (random.below(1_000_000_000_000) as u64) >> random.below(40);
        if ns % 100 == 50 {
            continue;
        }
        let by_float = format!("{:.4}", ns as f64 / 1_000_000.0);
        assert_eq!(millis_string(ns), by_float, "{ns}");
        assert_eq!(Csv::fmt_opt_ms(Some(ns)), by_float, "{ns}");
    }
}

#[test]
fn packet_loss_is_the_share_of_failures_in_percent() {
    for total in 1..200usize {
        for failed in 0..=total {
            let mut stats = Stats::new(String::from("a:1"), 0);
            for i in 0..total {
                stats.feed(i >= failed, 1, false);
            }
            let s = stats.summary();
            let ok = total - failed;
            let by_float = 100.0 * (1.0 - ok as f64 / total as f64);
            let exact_tie = (failed * 20_000) % (2 * total) == total;
            if !exact_tie {
                assert_eq!(percent_string(s.packet_loss_bp), format!("{by_float:.2}"), "{failed}/{total}");
            }
            assert!((f64::from(s.packet_loss_bp) / 100.0 - by_float).abs() <= 0.005 + 1e-9);
        }
    }
}
