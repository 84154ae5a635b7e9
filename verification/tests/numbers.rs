use tcping::cli::{parse_positive_u64, parse_positive_usize};

#[test]
fn positive_numbers_are_read() {
    assert_eq!(parse_positive_usize("1"), Ok(1));
    assert_eq!(parse_positive_usize("+42"), Ok(42));
    assert_eq!(parse_positive_usize("007"), Ok(7));
    assert_eq!(parse_positive_u64("2000"), Ok(2000));
    assert_eq!(parse_positive_u64("18446744073709551615"), Ok(u64::MAX));
    assert_eq!(parse_positive_usize(&usize::MAX.to_string()), Ok(usize::MAX));
}

#[test]
fn zero_is_refused_by_name() {
    assert_eq!(parse_positive_usize("0"), Err(String::from("count must be >= 1")));
    assert_eq!(parse_positive_usize("+000"), Err(String::from("count must be >= 1")));
    assert_eq!(parse_positive_u64("0"), Err(String::from("timeout must be >= 1")));
}

#[test]
fn what_is_no_number_is_named_in_the_message() {
    for bad in ["", "+", "-", "-1", "++1", "1 ", " 1", "1_000", "0x10", "1.5", "one", "١٢"] {
        let message = format!("'{bad}' is not a valid number");
        assert_eq!(parse_positive_usize(bad), Err(message.clone()));
        assert_eq!(parse_positive_u64(bad), Err(message));
    }
    assert_eq!(
        parse_positive_u64("18446744073709551616"),
        Err(String::from("'18446744073709551616' is not a valid number"))
    );
    assert_eq!(
        parse_positive_u64("99999999999999999999999999"),
        Err(String::from("'99999999999999999999999999' is not a valid number"))
    );
}

#[test]
fn reading_agrees_with_the_standard_library() {
    let samples = [
        "", "+", "-", "0", "+0", "-0", "00", "1", "+1", "-1", "++1", "+-1", "12a", "a12", " 12",
        "12 ", "18446744073709551615", "18446744073709551616", "+18446744073709551615",
        "000000000000000000000000000000012", "4294967295", "4294967296", "1e3", "٣",
    ];
    for s in samples {
        let std_u64 = s.parse::<u64>().ok().filter(|n| *n > 0);
        assert_eq!(parse_positive_u64(s).ok(), std_u64, "{s:?}");
        let std_usize = s.parse::<usize>().ok().filter(|n| *n > 0);
        assert_eq!(parse_positive_usize(s).ok(), std_usize, "{s:?}");
    }
}
