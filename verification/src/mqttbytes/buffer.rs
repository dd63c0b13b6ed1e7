//! The byte buffers that packets are read from and written to, and the
//! conversion of received bytes into text.

use bytes::BytesMut;
use vstd::prelude::*;
use vstd::utf8::*;

verus! {

#[verifier::external_type_specification]
#[verifier::external_body]
pub struct ExBytesMut(BytesMut);

/// The bytes that a `BytesMut` holds, in order.
pub uninterp spec fn buffer_contents(buf: BytesMut) -> Seq<u8>;

/// `BytesMut::as_ref`: a view of the bytes that the buffer holds.
#[verifier::external_body]
pub fn buffer_bytes(buf: &BytesMut) -> (r: &[u8])
    ensures
        r@ == buffer_contents(*buf),
{
    buf.as_ref()
}

/// `BytesMut::split_to`: hands out the first `at` bytes of the buffer as a
/// buffer of their own and leaves the rest. It panics when `at` is more
/// than the buffer holds, which `requires` rules out.
#[verifier::external_body]
pub fn buffer_split_to(buf: &mut BytesMut, at: usize) -> (r: BytesMut)
    requires
        at <= buffer_contents(*old(buf)).len(),
    ensures
        buffer_contents(r) == buffer_contents(*old(buf)).take(at as int),
        buffer_contents(*final(buf)) == buffer_contents(*old(buf)).skip(at as int),
{
    buf.split_to(at)
}

/// `BytesMut::extend_from_slice`: appends the bytes of `extend`. It panics
/// when the new length overflows or exceeds what an allocation may hold;
/// `requires` keeps the new length within `isize::MAX`. The capacity that
/// the allocator gave, which the growth policy doubles, is not modelled.
#[verifier::external_body]
pub fn buffer_extend(buf: &mut BytesMut, extend: &[u8])
    requires
        buffer_contents(*old(buf)).len() + extend@.len() <= isize::MAX,
    ensures
        buffer_contents(*final(buf)) == buffer_contents(*old(buf)) + extend@,
{
    buf.extend_from_slice(extend)
}

/// `String::from_utf8`: the text that `bytes` encode in UTF-8, or nothing
/// when they are not valid UTF-8.
#[verifier::external_body]
pub fn string_from_utf8(bytes: Vec<u8>) -> (r: Option<String>)
    ensures
        r is Some <==> valid_utf8(bytes@),
        r matches Some(s) ==> s@ == decode_utf8(bytes@),
{
    String::from_utf8(bytes).ok()
}

} // verus!
