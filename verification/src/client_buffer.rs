//! The client buffer: bytes read from the client and not yet consumed.
//!
//! The buffer is a `bytes::BytesMut`. Verus does not look inside it; the
//! declarations below give its contents a name and say what each method
//! that this crate calls does to them.

use bytes::Buf;
use bytes::BytesMut;
use vstd::prelude::*;

verus! {

#[verifier::external_type_specification]
#[verifier::external_body]
pub struct ExBytesMut(BytesMut);

/// The bytes that a `BytesMut` holds, first to last.
pub uninterp spec fn contents(buffer: BytesMut) -> Seq<u8>;

/// `BytesMut::with_capacity`: a buffer that holds no bytes yet. The buffer
/// is backed by a `Vec`, which cannot be made for more than `isize::MAX`
/// bytes.
#[verifier::external_body]
pub(crate) fn buffer_with_capacity(capacity: usize) -> (buffer: BytesMut)
    requires
        capacity <= isize::MAX,
    ensures
        contents(buffer) == Seq::<u8>::empty(),
{
    BytesMut::with_capacity(capacity)
}

/// `BytesMut::len`: the number of bytes held.
#[verifier::external_body]
pub(crate) fn buffer_len(buffer: &BytesMut) -> (len: usize)
    ensures
        len == contents(*buffer).len(),
{
    buffer.len()
}

/// The `Deref` of `BytesMut`: the bytes held, as a slice.
#[verifier::external_body]
pub(crate) fn buffer_bytes(buffer: &BytesMut) -> (bytes: &[u8])
    ensures
        bytes@ == contents(*buffer),
{
    buffer
}

/// `BytesMut::extend_from_slice`: the given bytes are appended to those held.
/// The method panics when the new length overflows `usize`.
#[verifier::external_body]
pub(crate) fn buffer_extend(buffer: &mut BytesMut, bytes: &[u8])
    requires
        contents(*old(buffer)).len() + bytes@.len() <= usize::MAX,
    ensures
        contents(*final(buffer)) == contents(*old(buffer)) + bytes@,
{
    buffer.extend_from_slice(bytes)
}

/// `Buf::advance` on a `BytesMut`: the first `count` bytes are dropped. The
/// method panics when asked to drop more than are held.
#[verifier::external_body]
pub(crate) fn buffer_advance(buffer: &mut BytesMut, count: usize)
    requires
        count <= contents(*old(buffer)).len(),
    ensures
        contents(*final(buffer)) == contents(*old(buffer)).skip(count as int),
{
    buffer.advance(count)
}

} // verus!
