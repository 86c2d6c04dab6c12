//! Byte buffers of the `bytes` crate.
use bytes::{Bytes, BytesMut};
use std::ops::Range;
use vstd::prelude::*;

verus! {

/// The shared byte buffer of the `bytes` crate, opaque to the verifier.
#[verifier::external_type_specification]
#[verifier::external_body]
pub struct ExBytes(Bytes);

/// The growing byte buffer of the `bytes` crate, opaque to the verifier.
#[verifier::external_type_specification]
#[verifier::external_body]
pub struct ExBytesMut(BytesMut);

/// The bytes that a shared buffer holds.
pub uninterp spec fn contents(data: Bytes) -> Seq<u8>;

/// The bytes that a growing buffer holds.
pub uninterp spec fn buffered(data: BytesMut) -> Seq<u8>;

/// `Bytes::len`: the number of bytes.
pub assume_specification[ Bytes::len ](data: &Bytes) -> (len: usize)
    ensures
        len == contents(*data).len(),
;

/// `Bytes::is_empty`: there is no byte.
pub assume_specification[ Bytes::is_empty ](data: &Bytes) -> (empty: bool)
    ensures
        empty == (contents(*data).len() == 0),
;

/// `Bytes::truncate`: only the first `len` bytes stay. A shorter buffer is left
/// as it is.
pub assume_specification[ Bytes::truncate ](data: &mut Bytes, len: usize)
    ensures
        contents(*final(data)) == if len < contents(*old(data)).len() {
            contents(*old(data)).take(len as int)
        } else {
            contents(*old(data))
        },
;

/// `Bytes::clone`: another handle to the same bytes.
pub assume_specification[ <Bytes as Clone>::clone ](data: &Bytes) -> (copy: Bytes)
    ensures
        contents(copy) == contents(*data),
;

/// `BytesMut::with_capacity`: a buffer without bytes. The allocation of more than
/// `isize::MAX` bytes panics.
pub assume_specification[ BytesMut::with_capacity ](capacity: usize) -> (data: BytesMut)
    requires
        capacity <= isize::MAX,
    ensures
        buffered(data).len() == 0,
;

/// `BytesMut::len`: the number of bytes.
pub assume_specification[ BytesMut::len ](data: &BytesMut) -> (len: usize)
    ensures
        len == buffered(*data).len(),
;

/// `BytesMut::is_empty`: there is no byte.
pub assume_specification[ BytesMut::is_empty ](data: &BytesMut) -> (empty: bool)
    ensures
        empty == (buffered(*data).len() == 0),
;

/// `BytesMut::split`: all bytes move to the result.
pub assume_specification[ BytesMut::split ](data: &mut BytesMut) -> (taken: BytesMut)
    ensures
        buffered(taken) == buffered(*old(data)),
        buffered(*final(data)).len() == 0,
;

/// `BytesMut::freeze`: the same bytes, no longer growing.
pub assume_specification[ BytesMut::freeze ](data: BytesMut) -> (frozen: Bytes)
    ensures
        contents(frozen) == buffered(data),
;

/// Calls `BytesMut::extend_from_slice` with a part of `item`: the part is
/// appended. The slice must lie within `item`. A buffer that grows may double its
/// room, which cannot exceed `isize::MAX` bytes.
#[verifier::external_body]
pub(crate) fn append_part(data: &mut BytesMut, item: &Bytes, part: Range<usize>)
    requires
        part.start <= part.end <= contents(*item).len(),
        buffered(*old(data)).len() + (part.end - part.start) <= isize::MAX / 2,
    ensures
        buffered(*final(data)) == buffered(*old(data)) + contents(*item).subrange(
            part.start as int,
            part.end as int,
        ),
{
    data.extend_from_slice(&item[part])
}

/// Calls `Bytes::slice`: a handle to a part of the bytes. The part must lie within
/// them.
#[verifier::external_body]
pub(crate) fn slice_part(data: &Bytes, part: Range<usize>) -> (slice: Bytes)
    requires
        part.start <= part.end <= contents(*data).len(),
    ensures
        contents(slice) == contents(*data).subrange(part.start as int, part.end as int),
{
    data.slice(part)
}

/// Calls `Bytes::from` on a vector: the bytes of the vector.
#[verifier::external_body]
pub(crate) fn from_vec(data: Vec<u8>) -> (shared: Bytes)
    ensures
        contents(shared) == data@,
{
    Bytes::from(data)
}

} // verus!
