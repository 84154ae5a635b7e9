use tcping::cli::{Args, CliFault};
use tcping::error::TcpingError;

#[test]
fn each_error_shows_its_cause() {
    assert_eq!(
        TcpingError::Io(String::from("connection reset")).to_string(),
        "I/O error: connection reset"
    );
    assert_eq!(
        TcpingError::Join(String::from("task panicked")).to_string(),
        "Tokio join error: task panicked"
    );
    assert_eq!(
        TcpingError::Other(String::from("target host is empty")).to_string(),
        "target host is empty"
    );
}

#[test]
fn asking_for_help_is_no_failure() {
    assert_eq!(CliFault::Help.exit_status(), 0);
    assert_eq!(CliFault::Version.exit_status(), 0);
    assert_eq!(CliFault::MissingAddress.exit_status(), 2);
    let err = Args::try_parse_from(&["tcping", "a:1", "-c", "0"]).unwrap_err();
    assert_eq!(err.fault.exit_status(), 2);
    assert_eq!(Args::try_parse_from(&["tcping", "-h"]).unwrap_err().to_string(), "help was asked for");
    assert_eq!(
        Args::try_parse_from(&["tcping", "-V"]).unwrap_err().to_string(),
        "the version was asked for"
    );
    assert_eq!(
        Args::try_parse_from(&["tcping", "a:1", "--jitter=1"]).unwrap_err().to_string(),
        "unexpected value for '--jitter' found; no more were expected"
    );
}
