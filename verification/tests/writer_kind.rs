use bolt_load::adapter::{IoError, IoErrorKind};
use bolt_load::metrics::FileWriterMetrics;
use bolt_load::writer_error::{
    Chunk, CommandError, CommandReply, FileWriterBuilderError, FileWriterError,
};
use bolt_load::writer_kind::{
    deterministic_jitter, Command, CompioWriter, CompioWriterBuilder, FileRangeWriterKind,
    FileWriterCapability, NullWriterBuilder, PoolWriterBuilder, SlowDiskConfig, SlowWriterBuilder,
    WriterBackends,
};
use bytes::Bytes;
use std::path::PathBuf;
use std::time::Duration;
use tempfile::NamedTempFile;

const COMPIO: WriterBackends = WriterBackends { compio: true, mmap: true };
const MMAP: WriterBackends = WriterBackends { compio: false, mmap: true };
const PLAIN: WriterBackends = WriterBackends { compio: false, mmap: false };

#[test]
fn file_writer_test_file_range_writer_kind_suggest_kind_small_file() {
    // With compio, always use Compio
    assert_eq!(FileRangeWriterKind::suggest_kind(1024), FileRangeWriterKind::Compio);
    assert_eq!(
        FileRangeWriterKind::suggest_kind(1024 * 1024 * 1024),
        FileRangeWriterKind::Compio
    ); // 1GB
    assert_eq!(COMPIO.suggest_kind(1024), FileRangeWriterKind::Compio);

    // Small files should use Mmap
    assert_eq!(MMAP.suggest_kind(1024), FileRangeWriterKind::Mmap);
    assert_eq!(MMAP.suggest_kind(1024 * 1024 * 1024), FileRangeWriterKind::Mmap); // 1GB
}

#[test]
fn file_writer_test_file_range_writer_kind_suggest_kind_large_file() {
    // With compio, always use Compio
    assert_eq!(
        FileRangeWriterKind::suggest_kind(isize::MAX as u64 + 1),
        FileRangeWriterKind::Compio
    );

    // Files larger than isize::MAX should use Pool
    assert_eq!(MMAP.suggest_kind(isize::MAX as u64 + 1), FileRangeWriterKind::Pool);
}

#[test]
fn file_writer_test_file_range_writer_kind_suggest_kind_boundary() {
    // With compio, always use Compio
    assert_eq!(
        FileRangeWriterKind::suggest_kind(isize::MAX as u64),
        FileRangeWriterKind::Compio
    );

    // Boundary test: exactly equal to isize::MAX should use Mmap
    assert_eq!(MMAP.suggest_kind(isize::MAX as u64), FileRangeWriterKind::Mmap);
}

#[test]
fn without_any_backend_the_pool_writes() {
    assert_eq!(PLAIN.suggest_kind(1024), FileRangeWriterKind::Pool);
}

#[test]
fn file_writer_test_chunk_clone() {
    let chunk = Chunk {
        range: 0..100,
        data: Bytes::from_static(b"test data"),
    };
    let cloned = chunk.clone();
    assert_eq!(cloned.range, chunk.range);
    assert_eq!(cloned.data, chunk.data);
}

#[test]
fn file_writer_test_chunk_debug() {
    let chunk = Chunk {
        range: 0..100,
        data: Bytes::from_static(b"test"),
    };
    let debug_str = format!("{:?}", chunk);
    assert!(debug_str.contains("Chunk"));
    assert!(debug_str.contains("range"));
    assert!(debug_str.contains("data"));
}

#[test]
fn test_file_writer_kind_equality() {
    assert_eq!(FileRangeWriterKind::Mmap, FileRangeWriterKind::Mmap);
    assert_eq!(FileRangeWriterKind::Pool, FileRangeWriterKind::Pool);
    assert_ne!(FileRangeWriterKind::Mmap, FileRangeWriterKind::Pool);
}

#[test]
fn test_file_writer_kind_copy() {
    let kind = FileRangeWriterKind::Mmap;
    let copied = kind;
    assert_eq!(kind, copied);
}

#[test]
fn test_file_writer_kind_debug() {
    let kind = FileRangeWriterKind::Mmap;
    let debug_str = format!("{:?}", kind);
    assert!(debug_str.contains("Mmap"));
}

#[test]
fn test_file_writer_error_display() {
    // Test WriteRange error display
    let chunk = Chunk {
        range: 0..10,
        data: Bytes::from_static(b"test"),
    };
    let write_err = FileWriterError::WriteRange {
        source: CommandError::Send,
        chunk: Some(chunk),
        path: String::from("/test/path"),
    };
    let write_display = write_err.message();
    assert!(write_display.contains("failed to write range"));
    assert!(write_display.contains("/test/path"));

    // Test Finalize error display
    let finalize_err = FileWriterError::Finalize {
        source: CommandError::Recv,
        path: String::from("/test/finalize"),
    };
    let finalize_display = finalize_err.message();
    assert!(finalize_display.contains("finalize"));
    assert!(finalize_display.contains("/test/finalize"));

    // Test OpenOrCreateFile error display
    let open_err = FileWriterError::OpenOrCreateFile {
        source: CommandError::Io {
            source: IoError {
                kind: IoErrorKind::Other,
                message: String::from("test io error"),
            },
        },
        path: String::from("/test/open"),
    };
    let open_display = open_err.message();
    assert!(open_display.contains("failed to open or create file"));
}

#[test]
fn a_path_in_a_message_is_quoted() {
    let error = FileWriterError::Finalize {
        source: CommandError::Recv,
        path: String::from("a\"b"),
    };
    assert!(error.message().contains("\"a\\\"b\""));
}

#[test]
fn test_compio_writer_builder_new() {
    let builder = CompioWriterBuilder::new();
    assert!(builder.path.is_none());
}

#[test]
fn test_compio_writer_builder_path() {
    let path = PathBuf::from("/tmp/test.bin").display().to_string();
    let builder = CompioWriterBuilder::new().path(path.clone());
    assert_eq!(builder.path, Some(path));
}

#[test]
fn test_compio_writer_builder_chain() {
    let path1 = PathBuf::from("/tmp/first.bin").display().to_string();
    let path2 = PathBuf::from("/tmp/second.bin").display().to_string();
    let builder = CompioWriterBuilder::new().path(path1).path(path2.clone());
    assert_eq!(builder.path, Some(path2));
}

#[test]
fn test_compio_writer_builder_default_state() {
    let builder = CompioWriterBuilder::new();
    assert!(builder.path.is_none());
}

#[test]
fn test_compio_writer_builder_build_without_path() {
    let builder = CompioWriterBuilder::new();
    let result = builder.build();
    assert!(result.is_err());
    let err = result.unwrap_err();
    assert!(matches!(err, FileWriterBuilderError::Validation { .. }));
    assert!(err.message().contains("path is not set"));
}

#[test]
fn a_compio_writer_is_built_on_its_path() {
    let built = CompioWriterBuilder::new()
        .path(String::from("/tmp/built.bin"))
        .metrics(FileWriterMetrics::new())
        .build()
        .unwrap();
    assert_eq!(built.path, "/tmp/built.bin");
}

#[test]
fn test_compio_writer_debug() {
    let writer = CompioWriter {
        path: String::from("/tmp/debug_test.bin"),
        metrics: FileWriterMetrics::new(),
    };
    let debug_str = format!("{:?}", writer);
    assert!(debug_str.contains("CompioWriter"));
    assert!(debug_str.contains("path"));
    assert!(debug_str.contains("debug_test.bin"));
}

#[test]
fn test_file_writer_capability_default_implementation() {
    // FileWriterCapability::is_supported should return true by default
    assert!(CompioWriterBuilder::is_supported(0));
    assert!(CompioWriterBuilder::is_supported(1024));
    assert!(CompioWriterBuilder::is_supported(u64::MAX));
}

#[test]
fn test_chunk_creation() {
    let chunk = Chunk {
        range: 100..200,
        data: Bytes::from_static(b"test chunk data"),
    };
    assert_eq!(chunk.range.start, 100);
    assert_eq!(chunk.range.end, 200);
    assert_eq!(&chunk.data[..], b"test chunk data");
}

#[test]
fn compio_test_chunk_clone() {
    let chunk = Chunk {
        range: 0..100,
        data: Bytes::from_static(b"test data"),
    };
    let cloned = chunk.clone();
    assert_eq!(cloned.range, chunk.range);
    assert_eq!(cloned.data, chunk.data);
}

#[test]
fn compio_test_chunk_debug() {
    let chunk = Chunk {
        range: 50..150,
        data: Bytes::from_static(b"debug test"),
    };
    let debug_str = format!("{:?}", chunk);
    assert!(debug_str.contains("Chunk"));
    assert!(debug_str.contains("range"));
    assert!(debug_str.contains("data"));
}

#[test]
fn test_command_enum_variants() {
    // Test that Command enum can be constructed with Write variant
    let chunk = Chunk {
        range: 0..10,
        data: Bytes::from_static(b"test"),
    };
    let (tx, _rx) = oneshot::channel::<Result<(), IoError>>();
    let cmd = Command::Write(chunk, tx);
    assert!(!cmd.is_last());

    // Test Finalize variant
    let (tx2, _rx2) = oneshot::channel::<Result<(), IoError>>();
    let cmd2 = Command::Finalize(tx2);
    assert!(cmd2.is_last());
}

#[test]
fn test_null_writer_builder_new() {
    let builder = NullWriterBuilder::new();
    assert!(builder.parallel.is_none());
}

#[test]
fn test_null_writer_builder_parallel() {
    let builder = NullWriterBuilder::new().parallel(4);
    assert_eq!(builder.parallel, Some(4));
}

#[test]
fn test_null_writer_capability() {
    assert!(NullWriterBuilder::is_supported(0));
    assert!(NullWriterBuilder::is_supported(u64::MAX));
}

#[test]
fn test_null_writer_debug() {
    let writer = NullWriterBuilder::new().build();
    let debug_str = format!("{:?}", writer);
    assert!(debug_str.contains("NullWriter"));
}

#[test]
fn test_pool_writer_builder_new() {
    let builder = PoolWriterBuilder::<NamedTempFile>::new();
    assert!(builder.file.is_none());
    assert!(builder.parallel.is_none());
}

#[test]
fn test_pool_writer_capability_is_supported() {
    // PoolWriter should support any size of file
    assert!(PoolWriterBuilder::<NamedTempFile>::is_supported(1024));
    assert!(PoolWriterBuilder::<NamedTempFile>::is_supported(isize::MAX as u64));
    assert!(PoolWriterBuilder::<NamedTempFile>::is_supported(isize::MAX as u64 + 1));
    assert!(PoolWriterBuilder::<NamedTempFile>::is_supported(u64::MAX));
}

#[test]
fn test_pool_writer_builder_without_file() {
    let builder = PoolWriterBuilder::<NamedTempFile>::new();
    let result = builder.build(4);
    match result {
        Err(err) => assert!(matches!(err, FileWriterBuilderError::Validation { .. })),
        Ok(_) => panic!("Expected error, got Ok"),
    }
}

#[test]
fn test_pool_writer_builder_with_file() {
    let temp_file = NamedTempFile::new().unwrap();

    let file = temp_file.reopen().unwrap();

    let builder = PoolWriterBuilder::new().file(file);
    assert!(builder.file.is_some());
}

#[test]
fn test_pool_writer_builder_with_parallel() {
    let builder = PoolWriterBuilder::<NamedTempFile>::new().parallel(4);
    assert_eq!(builder.parallel, Some(4));
}

#[test]
fn test_pool_writer_default_parallelism() {
    // Without setting parallel, what the machine offers is used
    assert_eq!(PoolWriterBuilder::new().file(1u8).build(6).unwrap().parallel, 6);
}

#[test]
fn test_pool_writer_single_thread() {
    let writer = PoolWriterBuilder::new().file(7u8).parallel(1).build(6).unwrap();
    assert_eq!(writer.parallel, 1);
    assert_eq!(writer.file, 7);
}

#[test]
fn a_slow_writer_needs_its_file() {
    let error = SlowWriterBuilder::<u8>::new().build().unwrap_err();
    assert!(matches!(error, FileWriterBuilderError::Validation { .. }));
    let config = SlowDiskConfig {
        latency: Duration::from_millis(5),
        max_jitter: Duration::from_millis(1),
    };
    let writer = SlowWriterBuilder::new()
        .file(3u8)
        .path(String::from("/tmp/slow.bin"))
        .config(config)
        .build()
        .unwrap();
    assert_eq!(writer.file, 3);
    assert_eq!(writer.path, "/tmp/slow.bin");
    assert_eq!(writer.cfg, config);
    assert_eq!(SlowWriterBuilder::new().file(3u8).build().unwrap().path, "<unknown>");
}

#[test]
fn only_the_null_and_compio_writers_open_no_file_first() {
    assert!(FileRangeWriterKind::Pool.needs_file());
    assert!(FileRangeWriterKind::Slow(SlowDiskConfig::default()).needs_file());
    assert!(!FileRangeWriterKind::Null.needs_file());
    assert!(!FileRangeWriterKind::Compio.needs_file());
}

#[test]
fn a_reply_becomes_a_result() {
    let chunk = Chunk { range: 0..4, data: Bytes::from_static(b"data") };
    assert!(CommandReply::Answered(Ok(())).write_result(chunk.clone(), String::from("p")).is_ok());
    match CommandReply::NotSent.write_result(chunk, String::from("p")) {
        Err(FileWriterError::WriteRange { source: CommandError::Send, chunk: Some(kept), path }) => {
            assert_eq!(kept.range, 0..4);
            assert_eq!(&kept.data[..], b"data");
            assert_eq!(path, "p");
        }
        other => panic!("unexpected {:?}", other),
    }
    assert!(matches!(
        CommandReply::NotAnswered.finalize_result(String::from("q")),
        Err(FileWriterError::Finalize { source: CommandError::Recv, .. })
    ));
    let failed = IoError { kind: IoErrorKind::PermissionDenied, message: String::from("no") };
    assert!(matches!(
        CommandReply::Answered(Err(failed)).open_result(String::from("r")),
        Err(FileWriterError::OpenOrCreateFile {
            source: CommandError::Io {
                source: IoError { kind: IoErrorKind::PermissionDenied, .. },
            },
            ..
        })
    ));
}

#[test]
fn jitter_stays_below_its_bound() {
    let max = Duration::from_millis(10);
    for seed in 0..50u64 {
        assert!(deterministic_jitter(max, seed) <= max);
        assert_eq!(deterministic_jitter(max, seed), deterministic_jitter(max, seed));
    }
    assert_eq!(deterministic_jitter(Duration::from_secs(0), 5), Duration::from_secs(0));
    assert_ne!(deterministic_jitter(max, 1), deterministic_jitter(max, 2));
}
