//! The kinds of file writers, and what each is made from.
use crate::budget::truncated;
use crate::metrics::FileWriterMetrics;
use crate::writer_error::{Chunk, FileWriterBuilderError};
use crate::{budget, clock};
use std::time::Duration;
use vstd::prelude::*;
use vstd::string::*;

verus! {

/// How slow a slow disk is.
#[derive(Clone, Copy, Debug, PartialEq, Eq)]
pub struct SlowDiskConfig {
    /// Base latency injected before every write (and before finalize).
    pub latency: Duration,
    /// Optional per-write extra latency, derived from the start of the range, so that
    /// it is the same each time.
    pub max_jitter: Duration,
}

impl Default for SlowDiskConfig {
    fn default() -> (config: Self)
        ensures
            clock::nanos(config.latency) == 10 * 1_000_000,
            clock::nanos(config.max_jitter) == 0,
    {
        SlowDiskConfig {
            latency: Duration::from_millis(10),
            max_jitter: Duration::from_millis(0),
        }
    }
}

/// The jitter of a seed in nanoseconds: a scrambled number below the maximum.
pub open spec fn jitter(max: nat, seed: u64) -> int {
    let bound = budget::low_bits(max as int);
    let scrambled = budget::low_bits(budget::low_bits(seed * 6364136223846793005) + 1);
    if max == 0 {
        0
    } else if bound == 0 {
        scrambled % 1
    } else {
        scrambled % bound
    }
}

/// Jitter without chance: the same seed always gives the same jitter.
pub fn deterministic_jitter(max: Duration, seed: u64) -> (delay: Duration)
    ensures
        clock::nanos(delay) == jitter(clock::nanos(max), seed),
{
    if max.as_nanos() == 0 {
        return Duration::from_nanos(0);
    }
    let x: u64 = seed.wrapping_mul(6364136223846793005).wrapping_add(1);
    let bound: u64 = truncated(max.as_nanos());
    let nanos: u64 = if bound >= 1 {
        x % bound
    } else {
        x % 1
    };
    Duration::from_nanos(nanos)
}

/// Law: the jitter is below the maximum, where there is one of less than 2^64
/// nanoseconds.
pub proof fn jitter_stays_below(max: nat, seed: u64)
    requires
        0 < max <= u64::MAX,
    ensures
        0 <= jitter(max, seed) < max,
{
}

/// The kinds of file writers.
#[derive(Clone, Copy, Debug, PartialEq, Eq)]
pub enum FileRangeWriterKind {
    /// Writes into memory that is mapped to the file.
    Mmap,
    /// Writes with a pool of threads.
    Pool,
    /// Null writer for benchmarking - discards all data.
    Null,
    /// Writes with a completion-based runtime.
    Compio,
    /// Writes as a slow disk does.
    Slow(SlowDiskConfig),
}

/// The writers that are there to choose from, besides the pool.
#[derive(Clone, Copy, Debug, PartialEq, Eq, Structural)]
pub struct WriterBackends {
    /// The completion-based runtime.
    pub compio: bool,
    /// Mapped memory.
    pub mmap: bool,
}

impl WriterBackends {
    /// The kind for a file of the given size: the completion-based runtime where there
    /// is one, or else mapped memory for what fits into the address space.
    pub open spec fn suggested(&self, file_size: u64) -> FileRangeWriterKind {
        if self.compio {
            FileRangeWriterKind::Compio
        } else if self.mmap && file_size <= isize::MAX {
            FileRangeWriterKind::Mmap
        } else {
            FileRangeWriterKind::Pool
        }
    }

    /// The kind for a file of the given size.
    pub fn suggest_kind(&self, file_size: u64) -> (kind: FileRangeWriterKind)
        ensures
            kind == self.suggested(file_size),
    {
        if self.compio {
            FileRangeWriterKind::Compio
        } else if self.mmap && file_size <= isize::MAX as u64 {
            FileRangeWriterKind::Mmap
        } else {
            FileRangeWriterKind::Pool
        }
    }
}

impl FileRangeWriterKind {
    /// The kind for a file of the given size, with the completion-based runtime at
    /// hand.
    pub fn suggest_kind(file_size: u64) -> (kind: Self)
        ensures
            kind == FileRangeWriterKind::Compio,
    {
        WriterBackends { compio: true, mmap: false }.suggest_kind(file_size)
    }

    /// Whether the file is to be opened and given its size before the writer is made.
    pub fn needs_file(&self) -> (needed: bool)
        ensures
            needed == (self is Mmap || self is Pool || self is Slow),
    {
        match self {
            FileRangeWriterKind::Mmap => true,
            FileRangeWriterKind::Pool => true,
            FileRangeWriterKind::Slow(_) => true,
            FileRangeWriterKind::Null => false,
            FileRangeWriterKind::Compio => false,
        }
    }
}

/// A writer that may not be able to write files of every size.
pub trait FileWriterCapability {
    /// Whether files of the given size can be written: unless said otherwise, all.
    fn is_supported(_file_size: u64) -> (supported: bool)
        default_ensures
            supported,
    {
        true
    }
}

/// What a writer's workers are told to do, and whom to answer.
#[derive(Debug)]
pub enum Command<T> {
    /// Write a chunk.
    Write(Chunk, T),
    /// Bring the data to disk, and stop.
    Finalize(T),
}

impl<T> Command<T> {
    /// Whether a worker stops after the command.
    pub fn is_last(&self) -> (last: bool)
        ensures
            last == (self is Finalize),
    {
        matches!(self, Command::Finalize(_))
    }
}

fn unset(message: &str) -> (error: FileWriterBuilderError)
    ensures
        error is Validation,
        error->message@ == message@,
{
    FileWriterBuilderError::Validation { message: message.to_string() }
}

/// A writer on the completion-based runtime.
#[derive(Debug)]
pub struct CompioWriter {
    /// The file.
    pub path: String,
    /// What is measured.
    pub metrics: FileWriterMetrics,
}

/// What a writer on the completion-based runtime is made from.
#[derive(Debug)]
pub struct CompioWriterBuilder {
    /// The file.
    pub path: Option<String>,
    /// What is measured.
    pub metrics: Option<FileWriterMetrics>,
}

impl FileWriterCapability for CompioWriterBuilder {

}

impl CompioWriterBuilder {
    /// Nothing is set.
    pub fn new() -> (builder: Self)
        ensures
            builder.path is None,
            builder.metrics is None,
    {
        CompioWriterBuilder { path: None, metrics: None }
    }

    /// Set the file.
    pub fn path(self, path: String) -> (builder: Self)
        ensures
            builder == (CompioWriterBuilder { path: Some(path), ..self }),
    {
        CompioWriterBuilder { path: Some(path), ..self }
    }

    /// Set where to measure.
    pub fn metrics(self, metrics: FileWriterMetrics) -> (builder: Self)
        ensures
            builder == (CompioWriterBuilder { metrics: Some(metrics), ..self }),
    {
        CompioWriterBuilder { metrics: Some(metrics), ..self }
    }

    /// The writer, where the file is set.
    pub fn build(self) -> (result: Result<CompioWriter, FileWriterBuilderError>)
        ensures
            match self.path {
                Some(path) => {
                    &&& result is Ok
                    &&& result->Ok_0.path == path
                    &&& match self.metrics {
                        Some(metrics) => result->Ok_0.metrics == metrics,
                        None => result->Ok_0.metrics.is_initial(),
                    }
                },
                None => {
                    &&& result is Err
                    &&& result->Err_0 is Validation
                    &&& result->Err_0->message@ == "path is not set"@
                },
            },
    {
        match self.path {
            Some(path) => {
                let metrics = match self.metrics {
                    Some(metrics) => metrics,
                    None => FileWriterMetrics::new(),
                };
                Ok(CompioWriter { path, metrics })
            },
            None => Err(unset("path is not set")),
        }
    }
}

/// A writer that discards all data.
#[derive(Debug)]
pub struct NullWriter {
    /// Number of parallel worker threads.
    pub parallel: usize,
}

/// The path in the messages of a writer without a file.
pub const NULL_PATH: &'static str = "<null>";

/// What a writer that discards all data is made from.
#[derive(Debug)]
pub struct NullWriterBuilder {
    /// Number of parallel worker threads.
    pub parallel: Option<usize>,
}

impl FileWriterCapability for NullWriterBuilder {

}

impl NullWriterBuilder {
    /// Nothing is set.
    pub fn new() -> (builder: Self)
        ensures
            builder.parallel is None,
    {
        NullWriterBuilder { parallel: None }
    }

    /// Set the number of threads.
    pub fn parallel(self, parallel: usize) -> (builder: Self)
        ensures
            builder.parallel == Some(parallel),
    {
        NullWriterBuilder { parallel: Some(parallel) }
    }

    /// The writer, with one thread unless set otherwise.
    pub fn build(self) -> (writer: NullWriter)
        ensures
            writer.parallel == match self.parallel {
                Some(parallel) => parallel,
                None => 1,
            },
    {
        NullWriter {
            parallel: match self.parallel {
                Some(parallel) => parallel,
                None => 1,
            },
        }
    }
}

/// A writer with a pool of threads on a file `F`.
#[derive(Debug)]
pub struct PoolWriter<F> {
    /// The file.
    pub file: F,
    /// Number of parallel worker threads.
    pub parallel: usize,
}

/// What a writer with a pool of threads is made from.
#[derive(Debug)]
pub struct PoolWriterBuilder<F> {
    /// The file.
    pub file: Option<F>,
    /// Number of parallel worker threads.
    pub parallel: Option<usize>,
}

impl<F> FileWriterCapability for PoolWriterBuilder<F> {

}

impl<F> PoolWriterBuilder<F> {
    /// Nothing is set.
    pub fn new() -> (builder: Self)
        ensures
            builder.file is None,
            builder.parallel is None,
    {
        PoolWriterBuilder { file: None, parallel: None }
    }

    /// Set the file.
    pub fn file(self, file: F) -> (builder: Self)
        ensures
            builder == (PoolWriterBuilder { file: Some(file), ..self }),
    {
        PoolWriterBuilder { file: Some(file), ..self }
    }

    /// Set the number of threads.
    pub fn parallel(self, parallel: usize) -> (builder: Self)
        ensures
            builder == (PoolWriterBuilder { parallel: Some(parallel), ..self }),
    {
        PoolWriterBuilder { parallel: Some(parallel), ..self }
    }

    /// The writer, where the file is set; with as many threads as are `available`
    /// unless set otherwise.
    pub fn build(self, available: usize) -> (result: Result<PoolWriter<F>, FileWriterBuilderError>)
        ensures
            match self.file {
                Some(file) => {
                    &&& result is Ok
                    &&& result->Ok_0.file == file
                    &&& result->Ok_0.parallel == match self.parallel {
                        Some(parallel) => parallel,
                        None => available,
                    }
                },
                None => {
                    &&& result is Err
                    &&& result->Err_0 is Validation
                    &&& result->Err_0->message@ == "file is not set"@
                },
            },
    {
        match self.file {
            Some(file) => {
                let parallel = match self.parallel {
                    Some(parallel) => parallel,
                    None => available,
                };
                Ok(PoolWriter { file, parallel })
            },
            None => Err(unset("file is not set")),
        }
    }
}

/// A writer as slow as a slow disk, on a file `F`.
#[derive(Debug)]
pub struct SlowWriter<F> {
    /// The path in messages.
    pub path: String,
    /// The file.
    pub file: F,
    /// How slow.
    pub cfg: SlowDiskConfig,
}

/// What a slow writer is made from.
#[derive(Debug)]
pub struct SlowWriterBuilder<F> {
    /// The file.
    pub file: Option<F>,
    /// The path in messages.
    pub path: Option<String>,
    /// How slow.
    pub cfg: SlowDiskConfig,
}

impl<F> SlowWriterBuilder<F> {
    /// Nothing is set but the default slowness.
    pub fn new() -> (builder: Self)
        ensures
            builder.file is None,
            builder.path is None,
            clock::nanos(builder.cfg.latency) == 10 * 1_000_000,
            clock::nanos(builder.cfg.max_jitter) == 0,
    {
        SlowWriterBuilder { file: None, path: None, cfg: SlowDiskConfig::default() }
    }

    /// Set the file.
    pub fn file(self, file: F) -> (builder: Self)
        ensures
            builder == (SlowWriterBuilder { file: Some(file), ..self }),
    {
        SlowWriterBuilder { file: Some(file), ..self }
    }

    /// Set the path in messages.
    pub fn path(self, path: String) -> (builder: Self)
        ensures
            builder == (SlowWriterBuilder { path: Some(path), ..self }),
    {
        SlowWriterBuilder { path: Some(path), ..self }
    }

    /// Set how slow.
    pub fn config(self, cfg: SlowDiskConfig) -> (builder: Self)
        ensures
            builder == (SlowWriterBuilder { cfg, ..self }),
    {
        SlowWriterBuilder { cfg, ..self }
    }

    /// The writer, where the file is set.
    pub fn build(self) -> (result: Result<SlowWriter<F>, FileWriterBuilderError>)
        ensures
            match self.file {
                Some(file) => {
                    &&& result is Ok
                    &&& result->Ok_0.file == file
                    &&& result->Ok_0.cfg == self.cfg
                    &&& result->Ok_0.path@ == match self.path {
                        Some(path) => path@,
                        None => "<unknown>"@,
                    }
                },
                None => {
                    &&& result is Err
                    &&& result->Err_0 is Validation
                    &&& result->Err_0->message@ == "file must be set"@
                },
            },
    {
        match self.file {
            Some(file) => {
                let path = match self.path {
                    Some(path) => path,
                    None => "<unknown>".to_string(),
                };
                Ok(SlowWriter { path, file, cfg: self.cfg })
            },
            None => Err(unset("file must be set")),
        }
    }
}

/// Law: which writer is suggested: the completion-based one where there is one, mapped
/// memory only where there is none and the file fits into the address space, and the pool
/// otherwise.
pub proof fn the_best_writer_is_suggested(backends: WriterBackends, file_size: u64)
    ensures
        backends.suggested(file_size) is Compio <==> backends.compio,
        backends.suggested(file_size) is Mmap <==> !backends.compio && backends.mmap && file_size
            <= isize::MAX,
        backends.suggested(file_size) is Pool <==> !backends.compio && !(backends.mmap && file_size
            <= isize::MAX),
{
}

/// Law: the jitter is the seed scrambled, and divided by the maximum what is left; without
/// a maximum there is none.
pub proof fn jitter_comes_from_the_seed(max: nat, seed: u64)
    requires
        max <= u64::MAX,
    ensures
        max == 0 ==> jitter(max, seed) == 0,
        max > 0 ==> jitter(max, seed) == (seed * 6364136223846793005 + 1) % 0x1_0000_0000_0000_0000
            % (max as int),
{
    let product = seed * 6364136223846793005;
    assert(((product % 0x1_0000_0000_0000_0000) + 1) % 0x1_0000_0000_0000_0000 == (product + 1)
        % 0x1_0000_0000_0000_0000);
}

} // verus!
