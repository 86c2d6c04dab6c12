//! What is read out of HTTP headers is what was written into them.
use crate::adapter::{AdapterError, IoErrorKind, RetryableError, UnretryableError};
use crate::http::{ReqwestError, ResponseHead};
use crate::{http, text};
use vstd::prelude::*;

verus! {

/// The bytes of a text of ASCII characters.
pub open spec fn ascii(text: Seq<char>) -> Seq<u8> {
    Seq::new(text.len(), |i: int| text[i] as u8)
}

/// A number in decimal is made of digits and stands for itself.
proof fn decimal_stands_for_itself(n: nat)
    ensures
        text::decimal(n).len() > 0,
        http::all_digits(ascii(text::decimal(n))),
        http::digits_value(ascii(text::decimal(n))) == n,
    decreases n,
{
    let bytes = ascii(text::decimal(n));
    if n < 10 {
        assert(text::decimal(n) =~= seq![text::digit(n)]);
        assert(bytes =~= seq![(48 + n) as u8]);
        assert(bytes.drop_last() =~= Seq::<u8>::empty());
        assert(http::digits_value(Seq::<u8>::empty()) == 0);
    } else {
        decimal_stands_for_itself(n / 10);
        let rest = ascii(text::decimal(n / 10));
        assert(bytes =~= rest.push((48 + n % 10) as u8));
        assert(bytes.drop_last() =~= rest);
        assert forall|i: int| 0 <= i < bytes.len() implies 48 <= #[trigger] bytes[i] <= 57 by {
            if i < rest.len() {
                assert(rest[i] == bytes[i]);
            }
        }
    }
}

/// Law: a number that is written in decimal is read back.
pub proof fn written_numbers_are_read(n: u64)
    ensures
        http::number(ascii(text::decimal(n as nat))) == Some(n),
        http::is_text(ascii(text::decimal(n as nat))),
{
    let bytes = ascii(text::decimal(n as nat));
    decimal_stands_for_itself(n as nat);
    assert(48 <= bytes[0] <= 57);
    assert forall|i: int| 0 <= i < bytes.len() implies http::is_visible(#[trigger] bytes[i]) by {
        assert(48 <= bytes[i] <= 57);
    }
}

/// Law: nothing but digits, behind a plus sign or not, is a number.
pub proof fn numbers_are_digits(bytes: Seq<u8>)
    ensures
        http::number(bytes) is Some ==> bytes.len() > 0 && forall|i: int|
            0 <= i < bytes.len() ==> 48 <= #[trigger] bytes[i] <= 57 || (i == 0 && bytes[i] == 43
                && bytes.len() > 1),
{
    if http::number(bytes) is Some {
        let digits = http::unsigned_part(bytes);
        assert forall|i: int| 0 <= i < bytes.len() implies 48 <= #[trigger] bytes[i] <= 57 || (i == 0
            && bytes[i] == 43 && bytes.len() > 1) by {
            if digits.len() < bytes.len() {
                if i > 0 {
                    assert(digits[i - 1] == bytes[i]);
                }
            } else {
                assert(digits[i] == bytes[i]);
            }
        }
    }
}

/// Law: where nothing else tells a size, the length that the header holds is the size of
/// the content.
pub proof fn the_header_tells_the_size(head: ResponseHead, n: u64)
    requires
        head.partial_size() is None,
        head.body_length is None || head.body_length == Some(0u64),
        head.content_length is Some,
        (head.content_length->0)@ == ascii(text::decimal(n as nat)),
    ensures
        head.size() == Some(n),
{
    written_numbers_are_read(n);
}

/// Law: a content range tells the size behind its slash, whatever else is said.
pub proof fn a_content_range_tells_the_size(head: ResponseHead, part: Seq<u8>, n: u64)
    requires
        http::is_text(part),
        !part.contains(47u8),
        head.content_range is Some,
        (head.content_range->0)@ == part.push(47u8) + ascii(text::decimal(n as nat)),
    ensures
        head.partial_size() == Some(n),
        head.size() == Some(n),
{
    let digits = ascii(text::decimal(n as nat));
    let value = part.push(47u8) + digits;
    written_numbers_are_read(n);
    assert forall|i: int| 0 <= i < value.len() implies http::is_visible(#[trigger] value[i]) by {
        if i < part.len() {
            assert(value[i] == part[i]);
        } else if i > part.len() {
            assert(value[i] == digits[i - part.len() - 1]);
        }
    }
    assert(value[part.len() as int] == 47u8);
    assert(value.contains(47u8));
    value.index_of_first_ensures(47u8);
    let at = value.index_of_first(47u8)->0;
    if at < part.len() {
        assert(part[at] == 47u8);
    }
    if part.len() < at {
        assert(value[part.len() as int] != 47u8);
    }
    assert(value.skip(at + 1) =~= digits);
}

/// Law: a content range that tells no total tells no size; then the length of the body
/// does, unless it is empty, and the header only after that.
pub proof fn sizes_are_asked_for_in_turn(head: ResponseHead)
    ensures
        head.content_range is None ==> head.partial_size() is None,
        (head.content_range matches Some(value) && !value@.contains(47u8))
            ==> head.partial_size() is None,
        head.partial_size() is Some ==> head.size() == head.partial_size(),
        head.partial_size() is None ==> (head.body_length matches Some(length) ==> length > 0
            ==> head.size() == Some(length)),
        head.size() is Some ==> head.partial_size() is Some || (head.body_length matches Some(
            length,
        ) && length > 0) || head.content_length is Some,
{
}

/// Law: a total that is not a number, as the star of an unknown one, tells no size.
pub proof fn an_unknown_total_tells_no_size(head: ResponseHead, part: Seq<u8>, total: Seq<u8>, i: int)
    requires
        !part.contains(47u8),
        head.content_range is Some,
        (head.content_range->0)@ == part.push(47u8) + total,
        total.len() == 0 || 0 <= i < total.len() && !(48 <= total[i] <= 57) && total[i] != 43,
    ensures
        head.partial_size() is None,
{
    let value = part.push(47u8) + total;
    assert(value[part.len() as int] == 47u8);
    assert(value.contains(47u8));
    value.index_of_first_ensures(47u8);
    let at = value.index_of_first(47u8)->0;
    if at < part.len() {
        assert(value[at] == part[at]);
        assert(part[at] == 47u8);
    }
    if part.len() < at {
        assert(value[part.len() as int] != 47u8);
    }
    assert(value.skip(at + 1) =~= total);
    numbers_are_digits(total);
}

/// Law: a file is named by the parameter `filename`.
pub proof fn files_are_named_by_filename()
    ensures
        http::filename_key() == ascii("filename="@),
{
    reveal_strlit("filename=");
    assert(http::filename_key() =~= ascii("filename="@));
}

/// The parameter's key stands where it was put, and nowhere before.
proof fn key_stands_first(before: Seq<u8>, rest: Seq<u8>, value: Seq<u8>)
    requires
        value == before + http::filename_key() + rest,
        forall|at: int| 0 <= at < before.len() ==> !#[trigger] http::key_at(value, at),
    ensures
        http::key_at(value, before.len() as int),
        value.skip((before.len() + 9) as int) == rest,
        forall|at: int|
            #[trigger] http::key_at(value, at) && (forall|earlier: int|
                0 <= earlier < at ==> !#[trigger] http::key_at(value, earlier)) ==> at
                == before.len(),
{
    assert(value.subrange(before.len() as int, (before.len() + 9) as int) =~= http::filename_key());
    assert(value.skip((before.len() + 9) as int) =~= rest);
}

/// Law: a quoted file name is read back, whatever stands around it.
pub proof fn quoted_names_are_read(
    before: Seq<u8>,
    file: Seq<u8>,
    after: Seq<u8>,
    value: Seq<u8>,
    name: Option<Vec<u8>>,
)
    requires
        value == before + http::filename_key() + (seq![34u8] + file + seq![34u8] + after),
        forall|at: int| 0 <= at < before.len() ==> !#[trigger] http::key_at(value, at),
        !file.contains(34u8),
        http::names_file(value, name),
    ensures
        name matches Some(found) && found@ == file,
{
    let rest = seq![34u8] + file + seq![34u8] + after;
    key_stands_first(before, rest, value);
    let at = choose|at: int|
        {
            &&& #[trigger] http::key_at(value, at)
            &&& forall|earlier: int| 0 <= earlier < at ==> !#[trigger] http::key_at(value, earlier)
            &&& http::named_by(value.skip(at + 9), name)
        };
    assert(at == before.len());
    let inner = rest.skip(1);
    assert(rest[0] == 34);
    assert(inner =~= file + seq![34u8] + after);
    assert(inner[file.len() as int] == 34u8);
    assert(inner.contains(34u8));
    let end = choose|end: int|
        #[trigger] http::first_at(inner, 34u8, end) && (name->0)@ == inner.take(end);
    if end < file.len() {
        assert(file[end] == inner[end]);
    }
    if file.len() < end {
        assert(inner[file.len() as int] != 34u8);
    }
    assert(inner.take(end) =~= file);
}

/// Law: a file name without quotation marks is read up to the next semicolon, or to the
/// end.
pub proof fn plain_names_are_read(
    before: Seq<u8>,
    file: Seq<u8>,
    after: Seq<u8>,
    value: Seq<u8>,
    name: Option<Vec<u8>>,
)
    requires
        value == before + http::filename_key() + (file + after),
        after.len() == 0 || after[0] == 59,
        file.len() > 0,
        file[0] != 34,
        forall|at: int| 0 <= at < before.len() ==> !#[trigger] http::key_at(value, at),
        !file.contains(59u8),
        http::names_file(value, name),
    ensures
        name matches Some(found) && found@ == file,
{
    let rest = file + after;
    key_stands_first(before, rest, value);
    let at = choose|at: int|
        {
            &&& #[trigger] http::key_at(value, at)
            &&& forall|earlier: int| 0 <= earlier < at ==> !#[trigger] http::key_at(value, earlier)
            &&& http::named_by(value.skip(at + 9), name)
        };
    assert(at == before.len());
    assert(rest[0] == file[0]);
    if after.len() > 0 {
        assert(rest[file.len() as int] == 59u8);
        assert(rest.contains(59u8));
        let end = choose|end: int|
            #[trigger] http::first_at(rest, 59u8, end) && (name->0)@ == rest.take(end);
        if end < file.len() {
            assert(file[end] == rest[end]);
        }
        if file.len() < end {
            assert(rest[file.len() as int] != 59u8);
        }
        assert(rest.take(end) =~= file);
    } else {
        assert(rest =~= file);
    }
}

/// Law: a disposition without the parameter names no file.
pub proof fn no_parameter_names_no_file(value: Seq<u8>, name: Option<Vec<u8>>)
    requires
        forall|at: int| !#[trigger] http::key_at(value, at),
        http::names_file(value, name),
    ensures
        name is None,
{
}

/// Law: which failed requests are tried again. Not those that the server refuses for good
/// or has too many of, nor those that could not be sent as they are; all others are. The
/// message stays.
pub proof fn failed_requests_are_told_apart(error: ReqwestError, mapped: AdapterError)
    requires
        http::as_adapter_error(error, mapped),
    ensures
        mapped is Unretryable <==> {
            let refused = error.status matches Some(status) && (status == 401 || status == 403
                || status == 404 || status == 429 || status == 503);
            let other_client_error = error.status matches Some(status) && 400 <= status <= 499;
            refused || (!other_client_error && (error.is_builder || error.is_body))
        },
        mapped matches AdapterError::Retryable { source: RetryableError::Io { source } } ==> (
        source.message == error.message && source.kind == IoErrorKind::Other),
        error.status matches Some(status) ==> {
            &&& status == 404 ==> (mapped matches AdapterError::Unretryable {
                source: UnretryableError::Io { source },
            } && source.kind == IoErrorKind::NotFound && source.message == error.message)
            &&& status == 401 || status == 403 ==> (mapped matches AdapterError::Unretryable {
                source: UnretryableError::Io { source },
            } && source.kind == IoErrorKind::PermissionDenied && source.message == error.message)
            &&& status == 429 || status == 503 ==> (mapped matches AdapterError::Unretryable {
                source: UnretryableError::ServiceUnavailable { status: told, .. },
            } && told@ == text::decimal(status as nat))
        },
{
}

} // verus!
