//! An adapter with content of its own, for trying tasks out.
use crate::adapter::{AdapterError, BoltLoadAdapterMeta, UnretryableError};
use crate::buffer;
use crate::buffer::{from_vec, slice_part};
use bytes::Bytes;
use vstd::prelude::*;
use vstd::string::*;

verus! {

/// How many bytes a stream yields at a time where nothing else is set.
pub const DEFAULT_CHUNK_SIZE: usize = 8192;

/// The size of large content: 100 MB.
pub const LARGE_CONTENT_SIZE: usize = 100 * 1024 * 1024;

/// The powers of 256.
pub open spec fn place(position: int) -> int
    decreases position,
{
    if position <= 0 {
        1
    } else {
        256 * place(position - 1)
    }
}

/// The byte of the content at an offset: the content counts in numbers of eight bytes,
/// the lowest byte first.
pub open spec fn content_byte(offset: int) -> u8 {
    (offset / 8 / place(offset % 8) % 256) as u8
}

/// The content of a size.
pub open spec fn deterministic_content(size: nat) -> Seq<u8> {
    Seq::new(size, |i: int| content_byte(i))
}

/// The digest of bytes as hexadecimal text.
pub uninterp spec fn blake3_hex(content: Seq<u8>) -> Seq<char>;

/// Calculate blake3 hash of the content. Calls `blake3::hash`, and `to_hex` on the
/// digest: 64 hexadecimal digits that depend on the content alone.
#[verifier::external_body]
pub fn calculate_blake3(content: &[u8]) -> (digest: String)
    ensures
        digest@ == blake3_hex(content@),
        digest@.len() == 64,
{
    blake3::hash(content).to_hex().to_string()
}

/// Creates a deterministic test content with specified size for hash verification.
pub fn create_deterministic_content(size: usize) -> (content: Vec<u8>)
    ensures
        content@ == deterministic_content(size as nat),
{
    let mut content: Vec<u8> = Vec::new();
    let mut counter: u64 = 0;
    let mut rest: u64 = 0;
    let mut position: usize = 0;
    let mut i: usize = 0;
    while i < size
        invariant
            i <= size,
            position < 8,
            i == 8 * counter + position,
            rest == counter as int / place(position as int),
            content@ == deterministic_content(i as nat),
        decreases size - i,
    {
        assert(i as int / 8 == counter && i as int % 8 == position);
        content.push((rest % 256) as u8);
        assert(content@ =~= deterministic_content((i + 1) as nat));
        i = i + 1;
        if position == 7 {
            position = 0;
            counter = counter + 1;
            rest = counter;
        } else {
            proof {
                place_divides(counter as int, position as int);
            }
            position = position + 1;
            rest = rest / 256;
        }
    }
    content
}

/// A number divided by the next place is the quotient divided by 256.
proof fn place_divides(n: int, position: int)
    requires
        0 <= n,
        0 <= position,
    ensures
        n / place(position + 1) == n / place(position) / 256,
        place(position) > 0,
    decreases position,
{
    place_positive(position);
    let p = place(position);
    assert(n / (p * 256) == n / p / 256) by {
        vstd::arithmetic::div_mod::lemma_div_denominator(n, p, 256);
    }
    assert(p * 256 == 256 * p) by (nonlinear_arith);
}

/// A place is positive.
proof fn place_positive(position: int)
    ensures
        place(position) > 0,
    decreases position,
{
    if position > 0 {
        place_positive(position - 1);
    }
}

/// How fast streams may be, and how many bytes may come at once.
#[derive(Clone, Copy, Debug, PartialEq, Eq, Structural)]
pub struct SpeedLimit {
    /// Bytes per second.
    pub per_second: u32,
    /// Bytes at once.
    pub burst: u32,
}

/// The content size is not set.
#[derive(Clone, Copy, Debug, PartialEq, Eq, Structural)]
pub struct SimpleTestAdapterBuildError;

impl SimpleTestAdapterBuildError {
    /// The message of the error.
    pub fn message(&self) -> (text: &'static str)
        ensures
            text@ == "content size is not set"@,
    {
        "content size is not set"
    }
}

/// What the adapter is made from.
#[derive(Debug)]
pub struct SimpleTestAdapterBuilder {
    /// The size of the content.
    pub content_size: Option<usize>,
    /// Whether parts of the content can be fetched.
    pub support_range: Option<bool>,
    /// Whether everything fails.
    pub should_fail: Option<bool>,
    /// How many bytes a stream yields at a time.
    pub chunk_size: Option<usize>,
    /// The name of the content.
    pub filename: Option<String>,
    /// How fast all streams together may be.
    pub max_speed: Option<u64>,
    /// How fast each stream may be.
    pub max_per_stream_speed: Option<u64>,
}

impl SimpleTestAdapterBuilder {
    /// Nothing is set but a name.
    pub fn new() -> (builder: Self)
        ensures
            builder.content_size is None,
            builder.support_range is None,
            builder.should_fail is None,
            builder.chunk_size is None,
            builder.filename is Some,
            (builder.filename->0)@ == "test_file.bin"@,
            builder.max_speed is None,
            builder.max_per_stream_speed is None,
    {
        SimpleTestAdapterBuilder {
            content_size: None,
            support_range: None,
            should_fail: None,
            chunk_size: None,
            filename: Some("test_file.bin".to_string()),
            max_speed: None,
            max_per_stream_speed: None,
        }
    }

    /// Large content.
    pub fn large() -> (builder: Self)
        ensures
            builder.content_size == Some(LARGE_CONTENT_SIZE),
            builder.support_range is None,
            builder.should_fail is None,
            builder.chunk_size is None,
            builder.filename is Some,
            (builder.filename->0)@ == "test_file.bin"@,
            builder.max_speed is None,
            builder.max_per_stream_speed is None,
    {
        SimpleTestAdapterBuilder { content_size: Some(LARGE_CONTENT_SIZE), ..Self::new() }
    }

    /// Large content of which parts can be fetched.
    pub fn large_with_range_support() -> (builder: Self)
        ensures
            builder.content_size == Some(LARGE_CONTENT_SIZE),
            builder.support_range == Some(true),
            builder.should_fail is None,
            builder.chunk_size is None,
            builder.filename is Some,
            (builder.filename->0)@ == "test_file.bin"@,
            builder.max_speed is None,
            builder.max_per_stream_speed is None,
    {
        SimpleTestAdapterBuilder { support_range: Some(true), ..Self::large() }
    }

    /// Set the size of the content.
    pub fn content_size(self, content_size: usize) -> (builder: Self)
        ensures
            builder == (SimpleTestAdapterBuilder { content_size: Some(content_size), ..self }),
    {
        SimpleTestAdapterBuilder { content_size: Some(content_size), ..self }
    }

    /// Set whether parts of the content can be fetched.
    pub fn support_range(self, support_range: bool) -> (builder: Self)
        ensures
            builder == (SimpleTestAdapterBuilder { support_range: Some(support_range), ..self }),
    {
        SimpleTestAdapterBuilder { support_range: Some(support_range), ..self }
    }

    /// Set whether everything fails.
    pub fn should_fail(self, should_fail: bool) -> (builder: Self)
        ensures
            builder == (SimpleTestAdapterBuilder { should_fail: Some(should_fail), ..self }),
    {
        SimpleTestAdapterBuilder { should_fail: Some(should_fail), ..self }
    }

    /// Set how many bytes a stream yields at a time.
    pub fn chunk_size(self, chunk_size: usize) -> (builder: Self)
        ensures
            builder == (SimpleTestAdapterBuilder { chunk_size: Some(chunk_size), ..self }),
    {
        SimpleTestAdapterBuilder { chunk_size: Some(chunk_size), ..self }
    }

    /// Set the name of the content.
    pub fn filename(self, filename: String) -> (builder: Self)
        ensures
            builder == (SimpleTestAdapterBuilder { filename: Some(filename), ..self }),
    {
        SimpleTestAdapterBuilder { filename: Some(filename), ..self }
    }

    /// The content has no name.
    pub fn without_filename(self) -> (builder: Self)
        ensures
            builder == (SimpleTestAdapterBuilder { filename: None, ..self }),
    {
        SimpleTestAdapterBuilder { filename: None, ..self }
    }

    /// Set how fast all streams together may be.
    pub fn max_speed(self, max_speed: u64) -> (builder: Self)
        ensures
            builder == (SimpleTestAdapterBuilder { max_speed: Some(max_speed), ..self }),
    {
        SimpleTestAdapterBuilder { max_speed: Some(max_speed), ..self }
    }

    /// Set how fast each stream may be.
    pub fn max_per_stream_speed(self, max_per_stream_speed: u64) -> (builder: Self)
        ensures
            builder == (SimpleTestAdapterBuilder {
                max_per_stream_speed: Some(max_per_stream_speed),
                ..self
            }),
    {
        SimpleTestAdapterBuilder { max_per_stream_speed: Some(max_per_stream_speed), ..self }
    }

    /// The chunk size that is set, or the default.
    pub open spec fn chosen_chunk_size(&self) -> usize {
        match self.chunk_size {
            Some(size) => size,
            None => DEFAULT_CHUNK_SIZE,
        }
    }

    /// A limit of all streams together is a positive number of 32 bits, and then so
    /// is the chunk size.
    pub open spec fn limit_fits(&self) -> bool {
        self.content_size is Some && self.max_speed is Some ==> 0 < self.max_speed->0 <= u32::MAX
            && 0 < self.chosen_chunk_size() <= u32::MAX
    }

    /// The adapter, where the content size is set.
    pub fn build(self) -> (result: Result<SimpleTestAdapter, SimpleTestAdapterBuildError>)
        requires
            self.limit_fits(),
        ensures
            match self.content_size {
                None => result is Err,
                Some(size) => result is Ok && self.built(size, result->Ok_0),
            },
    {
        let content_size = match self.content_size {
            Some(content_size) => content_size,
            None => {
                return Err(SimpleTestAdapterBuildError);
            },
        };
        let content = create_deterministic_content(content_size);
        let expected_hash = calculate_blake3(content.as_slice());
        let chunk_size = match self.chunk_size {
            Some(chunk_size) => chunk_size,
            None => DEFAULT_CHUNK_SIZE,
        };
        let rate_limit = match self.max_speed {
            Some(speed) => Some(SpeedLimit { per_second: speed as u32, burst: chunk_size as u32 }),
            None => None,
        };
        Ok(
            SimpleTestAdapter {
                content: from_vec(content),
                expected_hash,
                support_range: match self.support_range {
                    Some(support) => support,
                    None => false,
                },
                should_fail: match self.should_fail {
                    Some(fail) => fail,
                    None => false,
                },
                chunk_size,
                call_count: 0,
                filename: self.filename,
                rate_limit,
                max_per_stream_speed: self.max_per_stream_speed,
            },
        )
    }

    /// The adapter as it was put together.
    pub open spec fn built(&self, size: usize, adapter: SimpleTestAdapter) -> bool {
        &&& buffer::contents(adapter.content) == deterministic_content(size as nat)
        &&& adapter.expected_hash@ == blake3_hex(deterministic_content(size as nat))
        &&& adapter.support_range == (self.support_range == Some(true))
        &&& adapter.should_fail == (self.should_fail == Some(true))
        &&& adapter.chunk_size == self.chosen_chunk_size()
        &&& adapter.call_count == 0
        &&& adapter.filename == self.filename
        &&& adapter.rate_limit == match self.max_speed {
            Some(speed) => Some(
                SpeedLimit {
                    per_second: speed as u32,
                    burst: self.chosen_chunk_size() as u32,
                },
            ),
            None => None,
        }
        &&& adapter.max_per_stream_speed == self.max_per_stream_speed
    }
}

/// An adapter with content of its own.
#[derive(Debug)]
pub struct SimpleTestAdapter {
    /// The content.
    pub content: Bytes,
    /// The digest of the content.
    pub expected_hash: String,
    /// Whether parts of the content can be fetched.
    pub support_range: bool,
    /// Whether everything fails.
    pub should_fail: bool,
    /// How many bytes a stream yields at a time.
    pub chunk_size: usize,
    /// How often the adapter was asked for something.
    pub call_count: usize,
    /// The name of the content.
    pub filename: Option<String>,
    /// How fast all streams together may be.
    pub rate_limit: Option<SpeedLimit>,
    /// How fast each stream may be, in bytes per second.
    pub max_per_stream_speed: Option<u64>,
}

/// Bytes cut into pieces of a size; the last may be shorter.
pub open spec fn pieces(bytes: Seq<u8>, size: int) -> Seq<Seq<u8>>
    decreases bytes.len(),
{
    if bytes.len() == 0 || size <= 0 {
        Seq::empty()
    } else if bytes.len() <= size {
        seq![bytes]
    } else {
        seq![bytes.take(size)] + pieces(bytes.skip(size), size)
    }
}

/// What the buffers of a stream hold.
pub open spec fn yields(stream: Seq<Bytes>) -> Seq<Seq<u8>> {
    stream.map_values(|item: Bytes| buffer::contents(item))
}

/// The error with the given message.
pub open spec fn internal_error(error: UnretryableError, message: Seq<char>) -> bool {
    error is Internal && error.text() == "internal error: "@ + message
}

fn simulated(message: &str) -> (error: UnretryableError)
    ensures
        internal_error(error, message@),
{
    UnretryableError::Internal { message: message.to_string() }
}

impl SimpleTestAdapter {
    /// Create a new test adapter with deterministic content.
    pub fn new(size: usize) -> (adapter: Self)
        ensures
            buffer::contents(adapter.content) == deterministic_content(size as nat),
            adapter.expected_hash@ == blake3_hex(deterministic_content(size as nat)),
            !adapter.support_range,
            !adapter.should_fail,
            adapter.chunk_size == DEFAULT_CHUNK_SIZE,
            adapter.call_count == 0,
            adapter.filename is Some,
            (adapter.filename->0)@ == "test_file.bin"@,
            adapter.rate_limit is None,
            adapter.max_per_stream_speed is None,
    {
        let content = create_deterministic_content(size);
        let expected_hash = calculate_blake3(content.as_slice());
        SimpleTestAdapter {
            content: from_vec(content),
            expected_hash,
            support_range: false,
            should_fail: false,
            chunk_size: DEFAULT_CHUNK_SIZE,
            call_count: 0,
            filename: Some("test_file.bin".to_string()),
            rate_limit: None,
            max_per_stream_speed: None,
        }
    }

    /// Create large test content (100MB).
    pub fn new_large() -> (adapter: Self)
        ensures
            buffer::contents(adapter.content) == deterministic_content(LARGE_CONTENT_SIZE as nat),
            adapter.expected_hash@ == blake3_hex(deterministic_content(LARGE_CONTENT_SIZE as nat)),
            !adapter.support_range,
            !adapter.should_fail,
            adapter.chunk_size == DEFAULT_CHUNK_SIZE,
            adapter.call_count == 0,
            adapter.filename is Some,
            (adapter.filename->0)@ == "test_file.bin"@,
            adapter.rate_limit is None,
            adapter.max_per_stream_speed is None,
    {
        Self::new(LARGE_CONTENT_SIZE)
    }

    /// Clone and reset call count - useful for creating multiple adapters with same
    /// content.
    pub fn clone_reset_count(&self) -> (adapter: Self)
        ensures
            buffer::contents(adapter.content) == buffer::contents(self.content),
            adapter == (SimpleTestAdapter { content: adapter.content, call_count: 0, ..*self }),
    {
        SimpleTestAdapter {
            content: self.content.clone(),
            expected_hash: self.expected_hash.clone(),
            support_range: self.support_range,
            should_fail: self.should_fail,
            chunk_size: self.chunk_size,
            call_count: 0,
            filename: match &self.filename {
                Some(name) => Some(name.clone()),
                None => None,
            },
            rate_limit: self.rate_limit,
            max_per_stream_speed: self.max_per_stream_speed,
        }
    }

    /// Configure range support.
    pub fn with_range_support(self, support: bool) -> (adapter: Self)
        ensures
            adapter == (SimpleTestAdapter { support_range: support, ..self }),
    {
        SimpleTestAdapter { support_range: support, ..self }
    }

    /// Configure failure simulation.
    pub fn with_failure(self, should_fail: bool) -> (adapter: Self)
        ensures
            adapter == (SimpleTestAdapter { should_fail, ..self }),
    {
        SimpleTestAdapter { should_fail, ..self }
    }

    /// Configure filename.
    pub fn with_filename(self, filename: String) -> (adapter: Self)
        ensures
            adapter == (SimpleTestAdapter { filename: Some(filename), ..self }),
    {
        SimpleTestAdapter { filename: Some(filename), ..self }
    }

    /// Configure chunk size.
    pub fn with_chunk_size(self, chunk_size: usize) -> (adapter: Self)
        ensures
            adapter == (SimpleTestAdapter { chunk_size, ..self }),
    {
        SimpleTestAdapter { chunk_size, ..self }
    }

    /// Get expected hash for verification.
    pub fn expected_hash(&self) -> (digest: &str)
        ensures
            digest@ == self.expected_hash@,
    {
        self.expected_hash.as_str()
    }

    /// Get call count.
    pub fn call_count(&self) -> (count: usize)
        ensures
            count == self.call_count,
    {
        self.call_count
    }

    /// Get content reference.
    pub fn content(&self) -> (content: &Bytes)
        ensures
            *content == self.content,
    {
        &self.content
    }

    /// The adapter was asked once more, and is otherwise the same.
    pub open spec fn asked_again(&self, before: &SimpleTestAdapter) -> bool {
        &&& *self == (SimpleTestAdapter { call_count: self.call_count, ..*before })
        &&& self.call_count == if before.call_count < usize::MAX {
            before.call_count + 1
        } else {
            0
        }
    }

    /// Whether parts of the content can be fetched.
    pub fn is_range_stream_available(&mut self) -> (available: bool)
        ensures
            final(self).asked_again(old(self)),
            available == old(self).support_range,
    {
        self.call_count = self.call_count.wrapping_add(1);
        self.support_range
    }

    /// What the content is.
    pub fn retrieve_meta(&mut self) -> (result: Result<BoltLoadAdapterMeta, UnretryableError>)
        ensures
            final(self).asked_again(old(self)),
            match result {
                Ok(meta) => !old(self).should_fail && meta == (BoltLoadAdapterMeta {
                    content_size: buffer::contents(old(self).content).len() as u64,
                    filename: old(self).filename,
                }),
                Err(error) => old(self).should_fail && internal_error(
                    error,
                    "Simulated meta retrieval failure"@,
                ),
            },
    {
        self.call_count = self.call_count.wrapping_add(1);
        if self.should_fail {
            return Err(simulated("Simulated meta retrieval failure"));
        }
        Ok(
            BoltLoadAdapterMeta {
                content_size: self.content.len() as u64,
                filename: match &self.filename {
                    Some(name) => Some(name.clone()),
                    None => None,
                },
            },
        )
    }

    /// The whole content as a stream of pieces.
    pub fn full_stream(&mut self) -> (result: Result<Vec<Bytes>, AdapterError>)
        requires
            old(self).should_fail || 0 < old(self).chunk_size <= u32::MAX,
        ensures
            final(self).asked_again(old(self)),
            match result {
                Ok(stream) => !old(self).should_fail && yields(stream@) == pieces(
                    buffer::contents(old(self).content),
                    old(self).chunk_size as int,
                ),
                Err(error) => old(self).should_fail && error is Unretryable && internal_error(
                    error->Unretryable_source,
                    "Simulated stream failure"@,
                ),
            },
    {
        self.call_count = self.call_count.wrapping_add(1);
        if self.should_fail {
            return Err(AdapterError::Unretryable { source: simulated("Simulated stream failure") });
        }
        Ok(cut(&self.content, self.chunk_size))
    }

    /// The part of the content that a range asks for.
    pub open spec fn part(&self, start: u64, end: u64) -> Seq<u8> {
        let content = buffer::contents(self.content);
        content.subrange(
            start as int,
            if end < content.len() {
                end as int
            } else {
                content.len() as int
            },
        )
    }

    /// A part of the content as a stream of pieces. What lies behind the end of the
    /// content is left out.
    pub fn range_stream(&mut self, start: u64, end: u64) -> (result: Result<
        Vec<Bytes>,
        AdapterError,
    >)
        requires
            !old(self).should_fail && old(self).support_range ==> {
                &&& 0 < old(self).chunk_size <= u32::MAX
                &&& start <= end
                &&& start <= buffer::contents(old(self).content).len()
            },
        ensures
            final(self).asked_again(old(self)),
            match result {
                Ok(stream) => !old(self).should_fail && old(self).support_range && yields(stream@)
                    == pieces(old(self).part(start, end), old(self).chunk_size as int),
                Err(error) => {
                    &&& old(self).should_fail || !old(self).support_range
                    &&& error is Unretryable
                    &&& internal_error(
                        error->Unretryable_source,
                        if old(self).should_fail {
                            "Simulated range stream failure"@
                        } else {
                            "Range requests not supported"@
                        },
                    )
                },
            },
    {
        self.call_count = self.call_count.wrapping_add(1);
        if self.should_fail {
            return Err(
                AdapterError::Unretryable { source: simulated("Simulated range stream failure") },
            );
        }
        if !self.support_range {
            return Err(
                AdapterError::Unretryable { source: simulated("Range requests not supported") },
            );
        }
        let len: usize = self.content.len();
        let end: usize = if end < len as u64 {
            end as usize
        } else {
            len
        };
        let content = slice_part(&self.content, start as usize..end);
        Ok(cut(&content, self.chunk_size))
    }

    /// The limit of a single stream, if there is one.
    pub fn stream_limit(&self) -> (limit: Option<SpeedLimit>)
        requires
            self.max_per_stream_speed matches Some(speed) ==> 0 < speed <= u32::MAX && 0
                < self.chunk_size <= u32::MAX,
        ensures
            limit == match self.max_per_stream_speed {
                Some(speed) => Some(
                    SpeedLimit { per_second: speed as u32, burst: self.chunk_size as u32 },
                ),
                None => None,
            },
    {
        match self.max_per_stream_speed {
            Some(speed) => Some(
                SpeedLimit { per_second: speed as u32, burst: self.chunk_size as u32 },
            ),
            None => None,
        }
    }
}

/// Cuts bytes into pieces of a size.
fn cut(content: &Bytes, size: usize) -> (stream: Vec<Bytes>)
    requires
        size > 0,
    ensures
        yields(stream@) == pieces(buffer::contents(*content), size as int),
{
    let mut stream: Vec<Bytes> = Vec::new();
    let ghost whole = buffer::contents(*content);
    let total: usize = content.len();
    let mut at: usize = 0;
    assert(whole.skip(0) =~= whole);
    assert(yields(stream@) + pieces(whole, size as int) =~= pieces(whole, size as int));
    while at < total
        invariant
            total == whole.len(),
            whole == buffer::contents(*content),
            at <= total,
            size > 0,
            yields(stream@) + pieces(whole.skip(at as int), size as int) == pieces(
                whole,
                size as int,
            ),
        decreases total - at,
    {
        let end: usize = if total - at <= size {
            total
        } else {
            at + size
        };
        let ghost rest = whole.skip(at as int);
        let ghost before = yields(stream@);
        let piece = slice_part(content, at..end);
        let ghost bytes = buffer::contents(piece);
        stream.push(piece);
        proof {
            assert(yields(stream@) =~= before.push(bytes));
            if total - at <= size {
                assert(bytes =~= rest);
                assert(whole.skip(end as int).len() == 0);
                assert(pieces(rest, size as int) == seq![rest]);
            } else {
                assert(bytes =~= rest.take(size as int));
                assert(whole.skip(end as int) =~= rest.skip(size as int));
            }
            assert(before.push(bytes) + pieces(whole.skip(end as int), size as int) =~= before
                + pieces(rest, size as int));
        }
        at = end;
    }
    assert(whole.skip(at as int).len() == 0);
    assert(yields(stream@) + pieces(whole.skip(at as int), size as int) =~= yields(stream@));
    stream
}

/// The bytes of pieces one after another.
pub open spec fn joined(parts: Seq<Seq<u8>>) -> Seq<u8>
    decreases parts.len(),
{
    if parts.len() == 0 {
        Seq::empty()
    } else {
        parts.first() + joined(parts.drop_first())
    }
}

/// Law: the pieces of a stream put together are what was asked for, and none of them
/// is empty or larger than the size.
pub proof fn pieces_join_to_the_whole(bytes: Seq<u8>, size: int)
    requires
        size > 0,
    ensures
        joined(pieces(bytes, size)) == bytes,
        forall|i: int|
            0 <= i < pieces(bytes, size).len() ==> 0 < (#[trigger] pieces(bytes, size)[i]).len()
                <= size,
    decreases bytes.len(),
{
    let parts = pieces(bytes, size);
    if bytes.len() == 0 {
    } else if bytes.len() <= size {
        assert(parts.drop_first() =~= Seq::<Seq<u8>>::empty());
        assert(joined(parts.drop_first()) =~= Seq::<u8>::empty());
        assert(joined(parts) =~= bytes);
    } else {
        pieces_join_to_the_whole(bytes.skip(size), size);
        let rest = pieces(bytes.skip(size), size);
        assert(parts.drop_first() =~= rest);
        assert(joined(parts) =~= bytes.take(size) + bytes.skip(size));
        assert(bytes.take(size) + bytes.skip(size) =~= bytes);
        assert forall|i: int| 0 <= i < parts.len() implies 0 < (#[trigger] parts[i]).len()
            <= size by {
            if i > 0 {
                assert(parts[i] == rest[i - 1]);
            }
        }
    }
}

/// Law: what a full stream of a new adapter yields has the expected digest.
pub proof fn full_stream_has_the_expected_digest(adapter: SimpleTestAdapter, size: usize, parts: Seq<
    Seq<u8>,
>)
    requires
        buffer::contents(adapter.content) == deterministic_content(size as nat),
        adapter.expected_hash@ == blake3_hex(deterministic_content(size as nat)),
        adapter.chunk_size > 0,
        parts == pieces(buffer::contents(adapter.content), adapter.chunk_size as int),
    ensures
        blake3_hex(joined(parts)) == adapter.expected_hash@,
{
    pieces_join_to_the_whole(buffer::contents(adapter.content), adapter.chunk_size as int);
}

/// Law: the content counts: its eight bytes from every multiple of eight on are, lowest
/// first, how often eight bytes came before them.
pub proof fn content_counts_itself(size: nat, count: int)
    requires
        0 <= count <= u64::MAX,
        8 * count + 8 <= size,
    ensures
        ({
            let content = deterministic_content(size);
            &&& content.len() == size
            &&& count == content[8 * count] + 256 * (content[8 * count + 1] + 256 * (content[8
                * count + 2] + 256 * (content[8 * count + 3] + 256 * (content[8 * count + 4] + 256
                * (content[8 * count + 5] + 256 * (content[8 * count + 6] + 256 * content[8
                * count + 7]))))))
        }),
{
    assert(place(0) == 1);
    assert(count / place(0) == count);
    place_divides(count, 0);
    place_divides(count, 1);
    place_divides(count, 2);
    place_divides(count, 3);
    place_divides(count, 4);
    place_divides(count, 5);
    place_divides(count, 6);
    place_divides(count, 7);
    let content = deterministic_content(size);
    assert forall|j: int| 0 <= j < 8 implies #[trigger] content[8 * count + j] == count / place(j)
        % 256 by {
        assert((8 * count + j) / 8 == count && (8 * count + j) % 8 == j);
        place_positive(j);
        assert(0 <= count / place(j) % 256 < 256);
    }
    assert(content[8 * count] == content[8 * count + 0]);
}

/// Law: smaller content is how larger content begins.
pub proof fn contents_begin_alike(small: nat, large: nat)
    requires
        small <= large,
    ensures
        deterministic_content(large).take(small as int) == deterministic_content(small),
{
    assert(deterministic_content(large).take(small as int) =~= deterministic_content(small));
}

/// Law: a part of the content is the content from its start to its end, or to where the
/// content ends; two parts that meet are one.
pub proof fn parts_are_the_content(adapter: SimpleTestAdapter, start: u64, middle: u64, end: u64)
    requires
        start <= middle <= end,
        middle <= buffer::contents(adapter.content).len(),
    ensures
        ({
            let content = buffer::contents(adapter.content);
            let part = adapter.part(start, end);
            &&& end <= content.len() ==> part.len() == end - start
            &&& end > content.len() ==> part.len() == content.len() - start
            &&& forall|i: int| 0 <= i < part.len() ==> #[trigger] part[i] == content[start + i]
            &&& adapter.part(start, middle) + adapter.part(middle, end) == part
        }),
{
    assert(adapter.part(start, middle) + adapter.part(middle, end) =~= adapter.part(start, end));
}

/// Law: every piece but the last has the full size.
pub proof fn pieces_are_full(bytes: Seq<u8>, size: int, i: int)
    requires
        size > 0,
        0 <= i < pieces(bytes, size).len() - 1,
    ensures
        pieces(bytes, size)[i].len() == size,
    decreases bytes.len(),
{
    let rest = bytes.skip(size);
    if i > 0 {
        pieces_are_full(rest, size, i - 1);
        assert(pieces(bytes, size)[i] == pieces(rest, size)[i - 1]);
    }
}

} // verus!
