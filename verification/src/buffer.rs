//! The growable byte buffer that holds the data of an item, and what the
//! library takes for granted of it.

use vstd::prelude::*;
use bytes::BytesMut;

verus! {

#[verifier::external_type_specification]
#[verifier::external_body]
pub struct ExBytesMut(bytes::BytesMut);

/// The bytes that a `BytesMut` holds, in order.
pub uninterp spec fn buffer_contents(buf: BytesMut) -> Seq<u8>;

/// `BytesMut::new`: a buffer that holds no bytes.
#[verifier::external_body]
pub(crate) fn buffer_new() -> (r: BytesMut)
    ensures
        buffer_contents(r) == Seq::<u8>::empty(),
{
    BytesMut::new()
}

/// `BytesMut::extend_from_slice`: the bytes of `extend` follow those the
/// buffer held; nothing else changes.
#[verifier::external_body]
pub(crate) fn buffer_extend(buf: &mut BytesMut, extend: &[u8])
    requires
        buffer_contents(*old(buf)).len() + extend@.len() <= usize::MAX,
    ensures
        buffer_contents(*final(buf)) == buffer_contents(*old(buf)) + extend@,
{
    buf.extend_from_slice(extend)
}

/// `BytesMut::len`: how many bytes the buffer holds.
#[verifier::external_body]
pub(crate) fn buffer_len(buf: &BytesMut) -> (r: usize)
    ensures
        r == buffer_contents(*buf).len(),
{
    buf.len()
}

/// `BytesMut::as_ref`: the bytes that the buffer holds, as a slice.
#[verifier::external_body]
pub(crate) fn buffer_bytes(buf: &BytesMut) -> (r: &[u8])
    ensures
        r@ == buffer_contents(*buf),
{
    buf.as_ref()
}

} // verus!
