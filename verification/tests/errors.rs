//! Tests of the error taxonomy and the adapters that classify standard
//! library failures.
use rustracing_jaeger::error::from_io_error;
use rustracing_jaeger::error::from_parse_int_error;
use rustracing_jaeger::error::from_utf8_error;
use rustracing_jaeger::Error;
use rustracing_jaeger::ErrorKind;

#[test]
fn io_errors_are_classified_as_other() {
    let cause = std::io::Error::new(std::io::ErrorKind::ConnectionRefused, "down");
    assert_eq!(from_io_error(cause).kind(), ErrorKind::Other);
}

#[test]
fn parse_and_utf8_errors_are_classified_as_invalid_input() {
    let parse_err = "not-a-number".parse::<u64>().unwrap_err();
    assert_eq!(from_parse_int_error(parse_err).kind(), ErrorKind::InvalidInput);

    let utf8_err = std::str::from_utf8(&[0xff]).unwrap_err();
    assert_eq!(from_utf8_error(utf8_err).kind(), ErrorKind::InvalidInput);
}

#[test]
fn error_constructors_expose_their_kind() {
    assert_eq!(Error::invalid_input().kind(), ErrorKind::InvalidInput);
    assert_eq!(Error::other().kind(), ErrorKind::Other);
    assert_ne!(ErrorKind::InvalidInput, ErrorKind::Other);
}
