use bolt_load::adapter::{AdapterError, IoErrorKind, RetryableError, UnretryableError};
use bolt_load::http::{
    asked, filename_of, probed, range_header, total_of_content_range, ReqwestError, ResponseHead,
    PROBE_RANGE,
};

const SIZE: u64 = 1024 * 1024;

fn head() -> ResponseHead {
    ResponseHead {
        is_success: true,
        content_range: None,
        body_length: None,
        content_length: None,
        content_disposition: None,
    }
}

/// How a server answers that sends the whole file.
fn no_range() -> ResponseHead {
    ResponseHead {
        body_length: Some(SIZE),
        content_length: Some(b"1048576".to_vec()),
        content_disposition: Some(b"attachment; filename=\"test.txt\"".to_vec()),
        ..head()
    }
}

/// How a server answers that sends the first byte alone.
fn range() -> ResponseHead {
    ResponseHead {
        content_range: Some(b"bytes 0-0/1048576".to_vec()),
        body_length: Some(1),
        content_length: Some(b"1".to_vec()),
        ..head()
    }
}

fn name_of(response: &ResponseHead) -> Option<String> {
    response.suggest_filename().map(|name| String::from_utf8(name).unwrap())
}

#[test]
fn test_get_content_size() {
    let content_size: u64 = 1024 * 1024;
    assert_eq!(no_range().get_content_size(), Some(content_size));
    assert_eq!(asked(&no_range(), None).meta.content_size, content_size);
    assert_eq!(range().get_content_size(), Some(content_size));
    assert_eq!(probed(&range(), None).unwrap().meta.content_size, content_size);
}

#[test]
fn test_suggest_filename() {
    assert_eq!(name_of(&no_range()), Some("test.txt".to_owned()));
    let context = asked(&no_range(), name_of(&no_range()));
    assert_eq!(context.meta.filename, Some("test.txt".to_owned()));
}

#[test]
fn reqwest_test_is_range_stream_available() {
    let there = probed(&range(), None).unwrap();
    assert!(there.is_range_stream_available, "range stream should be available");

    let context = match probed(&no_range(), None) {
        Some(context) => context,
        None => asked(&no_range(), None),
    };
    assert!(!context.is_range_stream_available, "range stream should not be available");
}

#[test]
fn a_failed_probe_says_nothing() {
    assert!(probed(&ResponseHead { is_success: false, ..range() }, None).is_none());
}

#[test]
fn ranges_are_asked_for_by_their_last_byte() {
    assert_eq!(range_header(0, 100), "bytes=0-99");
    assert_eq!(range_header(1000, 1001), "bytes=1000-1000");
    assert_eq!(PROBE_RANGE, "bytes=0-0");
}

#[test]
fn the_total_is_what_follows_the_slash() {
    assert_eq!(total_of_content_range(&b"bytes 0-99/1048576".to_vec()), Some(1048576));
    assert_eq!(total_of_content_range(&b"bytes 0-99/*".to_vec()), None);
    assert_eq!(total_of_content_range(&b"bytes 0-99".to_vec()), None);
    assert_eq!(total_of_content_range(&b"bytes 0-99/18446744073709551616".to_vec()), None);
}

#[test]
fn names_are_read_with_and_without_quotes() {
    assert_eq!(filename_of(&b"attachment; filename=\"a b.txt\"".to_vec()), Some(b"a b.txt".to_vec()));
    assert_eq!(filename_of(&b"attachment; filename=a.txt".to_vec()), Some(b"a.txt".to_vec()));
    assert_eq!(filename_of(&b"attachment".to_vec()), None);
}

fn error(status: Option<u16>) -> ReqwestError {
    ReqwestError {
        status,
        reason: Some(String::from("reason")),
        is_builder: false,
        is_body: false,
        message: String::from("message"),
    }
}

fn given_up(status: u16) -> UnretryableError {
    match error(Some(status)).into_adapter_error() {
        AdapterError::Unretryable { source } => source,
        other => panic!("unexpected {:?}", other),
    }
}

fn io_kind(status: u16) -> IoErrorKind {
    match given_up(status) {
        UnretryableError::Io { source } => source.kind,
        other => panic!("unexpected {:?}", other),
    }
}

#[test]
fn statuses_become_errors() {
    assert_eq!(io_kind(401), IoErrorKind::PermissionDenied);
    assert_eq!(io_kind(403), IoErrorKind::PermissionDenied);
    assert_eq!(io_kind(404), IoErrorKind::NotFound);
    for status in [429u16, 503] {
        match given_up(status) {
            UnretryableError::ServiceUnavailable { status: code, description } => {
                assert_eq!(code, status.to_string());
                assert_eq!(description, "reason");
            }
            other => panic!("unexpected {:?}", other),
        }
    }
    assert!(error(Some(400)).into_adapter_error().is_retryable());
    assert!(error(Some(500)).into_adapter_error().is_retryable());
}

#[test]
fn a_lost_connection_may_be_retried() {
    assert!(error(None).into_adapter_error().is_retryable());
    match error(None).into_adapter_error() {
        AdapterError::Retryable { source: RetryableError::Io { source } } => {
            assert_eq!(source.kind, IoErrorKind::Other);
            assert_eq!(source.message, "message");
        }
        other => panic!("unexpected {:?}", other),
    }
}

#[test]
fn a_request_that_cannot_be_built_is_given_up() {
    let broken = ReqwestError { is_builder: true, ..error(None) };
    assert!(!broken.into_adapter_error().is_retryable());
}
