use boomnet::io::{Error, ErrorKind};
use boomnet::service::endpoint::{auto_disconnect_text, DisconnectReason};
use boomnet::service::time::Duration;
use boomnet::stream::ConnectionInfo;

#[test]
fn spans_are_measured_in_nanoseconds() {
    assert_eq!(Duration::new(1, 5).as_nanos(), 1_000_000_005);
    assert_eq!(Duration::new(1, 2_000_000_005).as_nanos(), 3_000_000_005);
    assert_eq!(Duration::from_secs(3).as_nanos(), 3_000_000_000);
    assert_eq!(Duration::from_nanos(42).as_nanos(), 42);
    assert_eq!(Duration::new(u64::MAX, 999_999_999).as_nanos(), 18_446_744_073_709_551_615_999_999_999);
}

#[test]
fn spans_split_into_seconds_and_nanoseconds() {
    let span = Duration::from_nanos(7_000_000_009);
    assert_eq!(span.as_secs(), 7);
    assert_eq!(span.subsec_nanos(), 9);
    assert_eq!(Duration::new(u64::MAX, 999_999_999).as_secs(), u64::MAX);
}

#[test]
fn spans_keep_their_low_64_bits() {
    assert_eq!(Duration::from_nanos(u64::MAX).as_nanos_64(), u64::MAX);
    assert_eq!(Duration::new(18_446_744_073, 709_551_616).as_nanos_64(), 0);
    assert_eq!(Duration::new(18_446_744_073, 709_551_623).as_nanos_64(), 7);
}

#[test]
fn spans_read_like_those_of_the_standard_library() {
    assert_eq!(Duration::new(1, 500_000_000).to_text(), "1.5s");
    assert_eq!(Duration::from_nanos(20).to_text(), "20ns");
    assert_eq!(Duration::from_nanos(1_500).to_text(), "1.5µs");
    assert_eq!(Duration::from_nanos(0).to_text(), "0ns");
    assert_eq!(Duration::from_secs(3_600).to_text(), "3600s");
}

#[test]
fn reasons_have_a_text() {
    let aged = DisconnectReason::auto_disconnect(Duration::new(1, 500_000_000));
    assert_eq!(aged.to_string(), "auto-disconnect after 1.5s");
    assert_eq!(auto_disconnect_text("7ms"), "auto-disconnect after 7ms");
    let failed = DisconnectReason::other(Error::new(ErrorKind::UnexpectedEof, "peer went away"));
    assert_eq!(failed.to_string(), "peer went away");
}

#[test]
fn failures_keep_kind_and_text() {
    let error = Error::new(ErrorKind::TimedOut, "too late");
    assert_eq!(error.kind(), ErrorKind::TimedOut);
    assert_eq!(error.message, "too late");
    assert_eq!(error.os_code, None);
    assert_eq!(Error::other("odd").kind(), ErrorKind::Other);
}

#[test]
fn connection_info_keeps_host_and_port() {
    let info = ConnectionInfo::new("example.com", 443);
    let copy = info.clone();
    assert_eq!((info.host(), info.port()), ("example.com", 443));
    assert_eq!((copy.host(), copy.port()), ("example.com", 443));
}
