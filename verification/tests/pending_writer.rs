use bolt_load::adapter::{IoError, IoErrorKind};
use bolt_load::pending_writer::{check_completions, PendingWriter, WriteCompletion, WriteStatus};
use bolt_load::writer_error::{Chunk, CommandError, FileWriterError};
use bytes::Bytes;
use std::ops::Range;

fn done(range: Range<u64>) -> Vec<WriteCompletion> {
    vec![WriteCompletion { range, result: Ok(()) }]
}

fn failed(range: Range<u64>) -> Vec<WriteCompletion> {
    let chunk = Chunk { range: range.clone(), data: Bytes::from_static(b"will_fail_") };
    vec![WriteCompletion {
        range,
        result: Err(FileWriterError::WriteRange {
            source: CommandError::Io {
                source: IoError {
                    kind: IoErrorKind::Other,
                    message: String::from("injected failure"),
                },
            },
            chunk: Some(chunk),
            path: String::new(),
        }),
    }]
}

fn write(pending: &mut PendingWriter, range: Range<u64>, data: &'static [u8]) -> WriteStatus {
    pending.write_range(range, Bytes::from_static(data)).unwrap().status
}

#[test]
fn basic_write_tick_completion() {
    let mut pending = PendingWriter::new(2);
    let accepted = pending.write_range(0..4, Bytes::from_static(b"test")).unwrap();
    assert_eq!(accepted.status, WriteStatus::Dispatched);
    let dispatched = accepted.dispatch.unwrap();
    assert_eq!(dispatched.range, 0..4);
    assert_eq!(&dispatched.bytes[..], b"test");

    assert!(pending.try_tick(&done(0..4)).is_none());
    assert!(pending.is_idle());
}

#[test]
fn pending_buffer_flushes_after_capacity_opens() {
    let mut pending = PendingWriter::new(1);
    assert_eq!(write(&mut pending, 0..1, b"a"), WriteStatus::Dispatched);
    assert_eq!(write(&mut pending, 1..2, b"b"), WriteStatus::Pending);
    assert!(pending.is_full());
    assert!(pending.has_pending_write());

    let second = pending.try_tick(&done(0..1)).unwrap();
    assert_eq!(second.range, 1..2);
    assert_eq!(&second.bytes[..], b"b");
    assert!(!pending.has_pending_write());
    assert!(pending.is_full());

    assert!(pending.try_tick(&done(1..2)).is_none());
    assert!(pending.is_idle());
}

#[test]
fn full_writer_rejects_third_write() {
    let mut pending = PendingWriter::new(1);
    assert_eq!(write(&mut pending, 0..1, b"a"), WriteStatus::Dispatched);
    assert_eq!(write(&mut pending, 1..2, b"b"), WriteStatus::Pending);

    let err = pending.write_range(2..3, Bytes::from_static(b"c")).unwrap_err();
    assert_eq!(err.0.range, 2..3);
    assert_eq!(&err.0.bytes[..], b"c");

    assert!(pending.try_tick(&done(0..1)).is_some());
    assert!(pending.try_tick(&done(1..2)).is_none());
    assert!(pending.is_idle());
}

#[test]
fn zero_capacity_is_clamped_to_one() {
    let mut pending = PendingWriter::new(0);
    assert!(!pending.is_full());
    assert_eq!(write(&mut pending, 0..1, b"a"), WriteStatus::Dispatched);
    assert_eq!(pending.in_flight_count(), 1);
    assert!(pending.is_full());
    assert_eq!(write(&mut pending, 1..2, b"b"), WriteStatus::Pending);

    assert!(pending.try_tick(&done(0..1)).is_some());
    assert!(pending.try_tick(&done(1..2)).is_none());
    assert!(pending.is_idle());
}

#[test]
fn spawn_error_decrements_in_flight_and_reports_completion() {
    let mut pending = PendingWriter::new(1);
    assert_eq!(write(&mut pending, 0..4, b"boom"), WriteStatus::Dispatched);
    assert_eq!(pending.in_flight_count(), 1);

    assert!(pending.try_tick(&failed(0..4)).is_none());
    assert_eq!(pending.in_flight_count(), 0);
    assert!(pending.is_idle());
}

#[test]
fn write_error_prevents_pending_dispatch() {
    let mut pending = PendingWriter::new(1);
    assert_eq!(write(&mut pending, 0..10, b"will_fail_"), WriteStatus::Dispatched);
    assert_eq!(write(&mut pending, 10..20, b"should_not"), WriteStatus::Pending);

    let completions = failed(0..10);
    assert_eq!(completions.len(), 1);
    assert!(completions[0].result.is_err());
    assert!(pending.try_tick(&completions).is_none());
    assert!(pending.has_pending_write());
    assert_eq!(pending.in_flight_count(), 0);
    assert!(!pending.can_write());
}

#[test]
fn slow_writer_backpressure_no_overflow() {
    let mut pending = PendingWriter::new(2);
    write(&mut pending, 0..1, b"a");
    write(&mut pending, 1..2, b"b");
    assert!(pending.is_full());
    assert!(pending.can_write());

    write(&mut pending, 2..3, b"c");
    assert!(!pending.can_write());

    let err = pending.write_range(3..4, Bytes::from_static(b"d")).unwrap_err();
    assert_eq!(err.0.range, 3..4);

    let third = pending.try_tick(&done(0..1)).unwrap();
    assert_eq!(third.range, 2..3);
    let mut rest = done(1..2);
    rest.extend(done(2..3));
    assert!(pending.try_tick(&rest).is_none());
    assert!(pending.is_idle());
}

#[test]
fn completions_are_summed_or_refused() {
    let mut both = done(0..10);
    both.extend(done(10..25));
    assert_eq!(check_completions(&both), Ok(25));
    both.extend(failed(25..30));
    let message = check_completions(&both).unwrap_err();
    assert!(message.contains("failed to write range"));
    assert!(message.contains("25..30"));
}
