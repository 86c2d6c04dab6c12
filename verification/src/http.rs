//! What HTTP responses say of content: its size, its name, whether parts of it can be
//! fetched, and what went wrong.
use crate::adapter::{
    AdapterError, BoltLoadAdapterMeta, IoError, IoErrorKind, RetryableError, UnretryableError,
};
use crate::text;
use crate::text::append_decimal;
use vstd::prelude::*;
use vstd::string::*;

verus! {

/// The value of a header that asks for the first byte only.
pub const PROBE_RANGE: &'static str = "bytes=0-0";

/// An HTTP request that failed.
#[derive(Debug)]
pub struct ReqwestError {
    /// The status, where there was a response.
    pub status: Option<u16>,
    /// What the status is called.
    pub reason: Option<String>,
    /// The request could not be put together.
    pub is_builder: bool,
    /// The body could not be handled.
    pub is_body: bool,
    /// The message.
    pub message: String,
}

/// The status means that the request was wrong.
pub open spec fn is_client_error(status: u16) -> bool {
    400 <= status < 500
}

/// The server turned the request away because there were too many.
pub open spec fn exceeds_limits(status: u16) -> bool {
    status == 429 || status == 503
}

/// The failed request as an error of an adapter.
pub open spec fn as_adapter_error(error: ReqwestError, mapped: AdapterError) -> bool {
    let retried = AdapterError::Retryable {
        source: RetryableError::Io {
            source: IoError { kind: IoErrorKind::Other, message: error.message },
        },
    };
    let given_up = |kind: IoErrorKind|
        AdapterError::Unretryable {
            source: UnretryableError::Io { source: IoError { kind, message: error.message } },
        };
    match error.status {
        Some(404) => mapped == given_up(IoErrorKind::NotFound),
        Some(401) => mapped == given_up(IoErrorKind::PermissionDenied),
        Some(403) => mapped == given_up(IoErrorKind::PermissionDenied),
        Some(status) => if exceeds_limits(status) {
            &&& mapped is Unretryable
            &&& mapped->Unretryable_source is ServiceUnavailable
            &&& mapped->Unretryable_source->status@ == text::decimal(status as nat)
            &&& mapped->Unretryable_source->description@ == match error.reason {
                Some(reason) => reason@,
                None => "unknown"@,
            }
        } else if is_client_error(status) {
            mapped == retried
        } else if error.is_builder || error.is_body {
            mapped == given_up(IoErrorKind::Other)
        } else {
            mapped == retried
        },
        None => if error.is_builder || error.is_body {
            mapped == given_up(IoErrorKind::Other)
        } else {
            mapped == retried
        },
    }
}

impl ReqwestError {
    /// The failed request as an error of an adapter: what is not there, not allowed or
    /// too much is not tried again, nor is what could not be sent as it is.
    pub fn into_adapter_error(self) -> (error: AdapterError)
        ensures
            as_adapter_error(self, error),
    {
        if let Some(status) = self.status {
            if status == 404 {
                return given_up(IoErrorKind::NotFound, self.message);
            }
            if status == 401 || status == 403 {
                return given_up(IoErrorKind::PermissionDenied, self.message);
            }
            if status == 429 || status == 503 {
                let mut code = String::new();
                append_decimal(&mut code, status as u64);
                let description = match self.reason {
                    Some(reason) => reason,
                    None => "unknown".to_string(),
                };
                return AdapterError::Unretryable {
                    source: UnretryableError::ServiceUnavailable { status: code, description },
                };
            }
            if 400 <= status && status < 500 {
                return retried(self.message);
            }
        }
        if self.is_builder || self.is_body {
            return given_up(IoErrorKind::Other, self.message);
        }
        // fallback to other errors
        retried(self.message)
    }
}

fn given_up(kind: IoErrorKind, message: String) -> (error: AdapterError)
    ensures
        error == (AdapterError::Unretryable {
            source: UnretryableError::Io { source: IoError { kind, message } },
        }),
{
    AdapterError::Unretryable { source: UnretryableError::from_io_error(IoError { kind, message }) }
}

fn retried(message: String) -> (error: AdapterError)
    ensures
        error == (AdapterError::Retryable {
            source: RetryableError::Io {
                source: IoError { kind: IoErrorKind::Other, message },
            },
        }),
{
    AdapterError::Retryable {
        source: RetryableError::Io { source: IoError { kind: IoErrorKind::Other, message } },
    }
}

/// The byte is a visible ASCII character, a space or a tab.
pub open spec fn is_visible(byte: u8) -> bool {
    32 <= byte < 127 || byte == 9
}

/// The bytes are text that a header may hold.
pub open spec fn is_text(bytes: Seq<u8>) -> bool {
    forall|i: int| 0 <= i < bytes.len() ==> is_visible(#[trigger] bytes[i])
}

/// All bytes are decimal digits.
pub open spec fn all_digits(bytes: Seq<u8>) -> bool {
    forall|i: int| 0 <= i < bytes.len() ==> 48 <= #[trigger] bytes[i] <= 57
}

/// The number that decimal digits stand for.
pub open spec fn digits_value(bytes: Seq<u8>) -> int
    decreases bytes.len(),
{
    if bytes.len() == 0 {
        0
    } else {
        10 * digits_value(bytes.drop_last()) + (bytes.last() - 48)
    }
}

/// The digits of a number behind its plus sign, if it has one.
pub open spec fn unsigned_part(bytes: Seq<u8>) -> Seq<u8> {
    if bytes.len() > 1 && bytes[0] == 43 {
        bytes.skip(1)
    } else {
        bytes
    }
}

/// The number that a text stands for: decimal digits, with or without a plus sign,
/// of a number of 64 bits.
pub open spec fn number(bytes: Seq<u8>) -> Option<u64> {
    let digits = unsigned_part(bytes);
    if digits.len() > 0 && all_digits(digits) && digits_value(digits) <= u64::MAX {
        Some(digits_value(digits) as u64)
    } else {
        None
    }
}

/// More digits never make a number smaller.
proof fn digits_grow(bytes: Seq<u8>, upto: int)
    requires
        all_digits(bytes),
        0 <= upto <= bytes.len(),
    ensures
        0 <= digits_value(bytes.take(upto)) <= digits_value(bytes),
    decreases bytes.len() - upto, upto,
{
    if upto == bytes.len() {
        assert(bytes.take(upto) =~= bytes);
        if upto > 0 {
            let rest = bytes.drop_last();
            assert(all_digits(rest));
            digits_natural(rest);
            assert(48 <= bytes[bytes.len() - 1]);
        }
    } else {
        digits_grow(bytes, upto + 1);
        let longer = bytes.take(upto + 1);
        assert(longer.drop_last() =~= bytes.take(upto));
        assert(longer.last() == bytes[upto]);
        digits_natural(bytes.take(upto));
    }
}

/// Digits stand for a natural number.
proof fn digits_natural(bytes: Seq<u8>)
    requires
        all_digits(bytes),
    ensures
        0 <= digits_value(bytes),
    decreases bytes.len(),
{
    if bytes.len() > 0 {
        let rest = bytes.drop_last();
        assert(all_digits(rest));
        digits_natural(rest);
        assert(48 <= bytes[bytes.len() - 1]);
    }
}

/// The number that a part of a text stands for.
fn parse_number(bytes: &Vec<u8>, from: usize) -> (parsed: Option<u64>)
    requires
        from <= bytes@.len(),
    ensures
        parsed == number(bytes@.skip(from as int)),
{
    let ghost part = bytes@.skip(from as int);
    let mut start: usize = from;
    if bytes.len() - from > 1 && bytes[from] == 43 {
        start = from + 1;
        assert(part.skip(1) =~= bytes@.skip(start as int));
    }
    let ghost digits = unsigned_part(part);
    assert(digits == bytes@.skip(start as int));
    if start == bytes.len() {
        return None;
    }
    let mut value: u64 = 0;
    let mut i: usize = start;
    while i < bytes.len()
        invariant
            start <= i <= bytes@.len(),
            digits == bytes@.skip(start as int),
            all_digits(digits.take(i - start)),
            value == digits_value(digits.take(i - start)),
            digits == unsigned_part(part),
            digits.len() > 0,
            part == bytes@.skip(from as int),
        decreases bytes@.len() - i,
    {
        let byte: u8 = bytes[i];
        let ghost next = digits.take(i - start + 1);
        assert(digits[i - start] == byte);
        assert(next.drop_last() =~= digits.take(i - start));
        if byte < 48 || byte > 57 {
            return None;
        }
        let digit: u64 = (byte - 48) as u64;
        if value > (u64::MAX - digit) / 10 {
            proof {
                if all_digits(digits) {
                    digits_grow(digits, i - start + 1);
                }
            }
            return None;
        }
        value = value * 10 + digit;
        i = i + 1;
    }
    assert(digits.take(i - start) =~= digits);
    Some(value)
}

/// Whether bytes are text that a header may hold.
fn check_text(bytes: &Vec<u8>) -> (text: bool)
    ensures
        text == is_text(bytes@),
{
    let mut i: usize = 0;
    while i < bytes.len()
        invariant
            i <= bytes@.len(),
            forall|j: int| 0 <= j < i ==> is_visible(#[trigger] bytes@[j]),
        decreases bytes@.len() - i,
    {
        let byte = bytes[i];
        if !((32 <= byte && byte < 127) || byte == 9) {
            assert(!is_visible(bytes@[i as int]));
            return false;
        }
        i = i + 1;
    }
    true
}

/// A byte stands at a position, and nowhere before.
pub open spec fn first_at(bytes: Seq<u8>, byte: u8, at: int) -> bool {
    &&& 0 <= at < bytes.len()
    &&& bytes[at] == byte
    &&& forall|j: int| 0 <= j < at ==> #[trigger] bytes[j] != byte
}

/// Where a byte first stands.
fn find_byte(bytes: &Vec<u8>, byte: u8) -> (at: Option<usize>)
    ensures
        match at {
            Some(at) => first_at(bytes@, byte, at as int),
            None => !bytes@.contains(byte),
        },
{
    let mut i: usize = 0;
    while i < bytes.len()
        invariant
            i <= bytes@.len(),
            forall|j: int| 0 <= j < i ==> #[trigger] bytes@[j] != byte,
        decreases bytes@.len() - i,
    {
        if bytes[i] == byte {
            return Some(i);
        }
        i = i + 1;
    }
    None
}

/// The whole size that the value of a content range tells: the number behind the
/// first slash.
pub open spec fn range_total(value: Seq<u8>) -> Option<u64> {
    if is_text(value) && value.contains(47u8) {
        number(value.skip(value.index_of_first(47u8)->0 + 1))
    } else {
        None
    }
}

/// The whole size that the value of a content range tells.
pub fn total_of_content_range(value: &Vec<u8>) -> (size: Option<u64>)
    ensures
        size == range_total(value@),
{
    if !check_text(value) {
        return None;
    }
    match find_byte(value, 47) {
        Some(at) => {
            proof {
                assert(value@.contains(47u8)) by {
                    assert(value@[at as int] == 47u8);
                }
                value@.index_of_first_ensures(47u8);
            }
            assert(at < value.len());
            parse_number(value, at + 1)
        },
        None => None,
    }
}

/// The size that the value of a content length tells.
pub open spec fn length_value(value: Seq<u8>) -> Option<u64> {
    if is_text(value) {
        number(value)
    } else {
        None
    }
}

/// What a response says of content, as far as it matters.
#[derive(Debug)]
pub struct ResponseHead {
    /// Neither the request nor the server was at fault.
    pub is_success: bool,
    /// Which part of the content came.
    pub content_range: Option<Vec<u8>>,
    /// How long the body is, as far as it is known.
    pub body_length: Option<u64>,
    /// How long the content is said to be.
    pub content_length: Option<Vec<u8>>,
    /// How the content is to be presented.
    pub content_disposition: Option<Vec<u8>>,
}

impl ResponseHead {
    /// The whole size, where a part of the content came.
    pub open spec fn partial_size(&self) -> Option<u64> {
        match self.content_range {
            Some(value) => range_total(value@),
            None => None,
        }
    }

    /// The size of the content: that of a content range first, then the length of the
    /// body unless it is empty, and then what the header says.
    pub open spec fn size(&self) -> Option<u64> {
        if self.partial_size() is Some {
            self.partial_size()
        } else if self.body_length is Some && self.body_length->0 > 0 {
            self.body_length
        } else {
            match self.content_length {
                Some(value) => length_value(value@),
                None => None,
            }
        }
    }

    /// The whole size, where a part of the content came.
    pub fn content_range_size(&self) -> (size: Option<u64>)
        ensures
            size == self.partial_size(),
    {
        match &self.content_range {
            Some(value) => total_of_content_range(value),
            None => None,
        }
    }

    /// The size of the content.
    pub fn get_content_size(&self) -> (size: Option<u64>)
        ensures
            size == self.size(),
    {
        // First, try to parse the content range
        if let Some(size) = self.content_range_size() {
            return Some(size);
        }
        // Then, the length of the body
        if let Some(len) = self.body_length {
            if len > 0 {
                return Some(len);
            }
        }
        // fallback to just parse the content length
        match &self.content_length {
            Some(value) => {
                if check_text(value) {
                    assert(value@.skip(0) =~= value@);
                    parse_number(value, 0)
                } else {
                    None
                }
            },
            None => None,
        }
    }

    /// The file name that the response suggests.
    pub fn suggest_filename(&self) -> (name: Option<Vec<u8>>)
        ensures
            match self.content_disposition {
                Some(value) => names_file(value@, name),
                None => name is None,
            },
    {
        match &self.content_disposition {
            Some(value) => filename_of(value),
            None => None,
        }
    }
}

/// The parameter of a content disposition that names a file, with its equals sign.
pub open spec fn filename_key() -> Seq<u8> {
    seq![102u8, 105, 108, 101, 110, 97, 109, 101, 61]
}

/// The parameter stands at a position.
pub open spec fn key_at(value: Seq<u8>, at: int) -> bool {
    &&& 0 <= at
    &&& at + 9 <= value.len()
    &&& value.subrange(at, at + 9) == filename_key()
}

/// The file name in a content disposition: what is quoted behind the first `filename=`,
/// or what stands there up to the next semicolon. An open quotation names nothing.
pub open spec fn names_file(value: Seq<u8>, name: Option<Vec<u8>>) -> bool {
    if exists|at: int| #[trigger] key_at(value, at) {
        exists|at: int|
            {
                &&& #[trigger] key_at(value, at)
                &&& forall|earlier: int| 0 <= earlier < at ==> !#[trigger] key_at(value, earlier)
                &&& named_by(value.skip(at + 9), name)
            }
    } else {
        name is None
    }
}

/// The name at the start of a parameter's value.
pub open spec fn named_by(rest: Seq<u8>, name: Option<Vec<u8>>) -> bool {
    if rest.len() > 0 && rest[0] == 34 {
        let inner = rest.skip(1);
        if inner.contains(34u8) {
            name is Some && exists|end: int|
                #[trigger] first_at(inner, 34u8, end) && (name->0)@ == inner.take(end)
        } else {
            name is None
        }
    } else if rest.contains(59u8) {
        name is Some && exists|end: int|
            #[trigger] first_at(rest, 59u8, end) && (name->0)@ == rest.take(end)
    } else {
        name is Some && (name->0)@ == rest
    }
}

/// A copy of the bytes behind a position.
fn copy_from(bytes: &Vec<u8>, from: usize) -> (copy: Vec<u8>)
    requires
        from <= bytes@.len(),
    ensures
        copy@ == bytes@.skip(from as int),
{
    let mut copy: Vec<u8> = Vec::new();
    let mut i: usize = from;
    while i < bytes.len()
        invariant
            from <= i <= bytes@.len(),
            copy@ == bytes@.subrange(from as int, i as int),
        decreases bytes@.len() - i,
    {
        copy.push(bytes[i]);
        i = i + 1;
        assert(copy@ =~= bytes@.subrange(from as int, i as int));
    }
    assert(copy@ =~= bytes@.skip(from as int));
    copy
}

fn is_key_at(value: &Vec<u8>, at: usize) -> (found: bool)
    requires
        at <= value@.len(),
    ensures
        found == key_at(value@, at as int),
{
    if value.len() - at < 9 {
        return false;
    }
    let found = value[at] == 102 && value[at + 1] == 105 && value[at + 2] == 108 && value[at + 3]
        == 101 && value[at + 4] == 110 && value[at + 5] == 97 && value[at + 6] == 109 && value[at
        + 7] == 101 && value[at + 8] == 61;
    let ghost part = value@.subrange(at as int, at + 9);
    proof {
        assert(part.len() == 9);
        assert(part[0] == value@[at as int] && part[1] == value@[at + 1] && part[2] == value@[at
            + 2] && part[3] == value@[at + 3] && part[4] == value@[at + 4] && part[5] == value@[at
            + 5] && part[6] == value@[at + 6] && part[7] == value@[at + 7] && part[8] == value@[at
            + 8]);
        if found {
            assert(part =~= filename_key());
        }
    }
    found
}

/// The file name in a content disposition.
pub fn filename_of(value: &Vec<u8>) -> (name: Option<Vec<u8>>)
    ensures
        names_file(value@, name),
{
    let mut at: usize = 0;
    while at < value.len()
        invariant
            at <= value@.len(),
            forall|earlier: int| 0 <= earlier < at ==> !#[trigger] key_at(value@, earlier),
        decreases value@.len() - at,
    {
        if is_key_at(value, at) {
            let name = name_from(value, at + 9);
            assert(key_at(value@, at as int));
            return name;
        }
        at = at + 1;
    }
    None
}

fn name_from(value: &Vec<u8>, from: usize) -> (name: Option<Vec<u8>>)
    requires
        from <= value@.len(),
    ensures
        named_by(value@.skip(from as int), name),
{
    let mut rest = copy_from(value, from);
    if rest.len() > 0 && rest[0] == 34 {
        let mut inner = copy_from(&rest, 1);
        match find_byte(&inner, 34) {
            Some(end) => {
                let ghost whole = inner@;
                assert(whole.contains(34u8)) by {
                    assert(whole[end as int] == 34u8);
                }
                inner.truncate(end);
                assert(first_at(whole, 34u8, end as int));
                assert(inner@ =~= whole.take(end as int));
                Some(inner)
            },
            None => None,
        }
    } else {
        let ghost whole = rest@;
        match find_byte(&rest, 59) {
            Some(end) => {
                assert(whole.contains(59u8)) by {
                    assert(whole[end as int] == 59u8);
                }
                rest.truncate(end);
                assert(first_at(whole, 59u8, end as int));
                assert(rest@ =~= whole.take(end as int));
                Some(rest)
            },
            None => Some(rest),
        }
    }
}

/// What is known of a remote content.
#[derive(Debug)]
pub struct RemoteContext {
    /// Parts of the content can be fetched.
    pub is_range_stream_available: bool,
    /// What the content is.
    pub meta: BoltLoadAdapterMeta,
}

/// What is known after a part of the content was asked for: parts can be fetched
/// where a part came, and its size is known. Otherwise the server is to be asked
/// about the content as a whole.
pub fn probed(response: &ResponseHead, filename: Option<String>) -> (context: Option<RemoteContext>)
    ensures
        context is Some <==> response.is_success && response.partial_size() is Some,
        context matches Some(context) ==> context == (RemoteContext {
            is_range_stream_available: true,
            meta: BoltLoadAdapterMeta { content_size: response.partial_size()->0, filename },
        }),
{
    if !response.is_success {
        return None;
    }
    match response.content_range_size() {
        Some(content_size) => Some(
            RemoteContext {
                is_range_stream_available: true,
                meta: BoltLoadAdapterMeta { content_size, filename },
            },
        ),
        None => None,
    }
}

/// What is known after the server was asked about the content as a whole. A size that
/// is not known is zero.
pub fn asked(response: &ResponseHead, filename: Option<String>) -> (context: RemoteContext)
    ensures
        context == (RemoteContext {
            is_range_stream_available: false,
            meta: BoltLoadAdapterMeta {
                content_size: match response.size() {
                    Some(size) => size,
                    None => 0,
                },
                filename,
            },
        }),
{
    let content_size = match response.get_content_size() {
        Some(size) => size,
        None => 0,
    };
    RemoteContext {
        is_range_stream_available: false,
        meta: BoltLoadAdapterMeta { content_size, filename },
    }
}

/// The value of a header that asks for a range: the last offset is included there.
pub fn range_header(start: u64, end: u64) -> (value: String)
    requires
        end > 0,
    ensures
        value@ == "bytes="@ + text::decimal(start as nat) + "-"@ + text::decimal(
            (end - 1) as nat,
        ),
{
    let mut value = "bytes=".to_string();
    append_decimal(&mut value, start);
    value.append("-");
    append_decimal(&mut value, end - 1);
    value
}

} // verus!
