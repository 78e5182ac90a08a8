//! The byte buffer that the codec reads from and writes to.
//!
//! The buffer is `bytes::BytesMut`. Verus sees nothing inside it: what it
//! holds is named by [`contents`], and every operation the library performs
//! on it goes through one of the functions below. Their contracts are not
//! proved here; each restates what the `bytes` crate documents.

use bytes::{Buf, BufMut, BytesMut};
use vstd::prelude::*;

verus! {

/// `bytes::BytesMut`, held as a whole: nothing inside it is known.
#[verifier::external_type_specification]
#[verifier::external_body]
pub struct ExBytesMut(bytes::BytesMut);

/// The bytes a buffer holds, first to last.
pub uninterp spec fn contents(buffer: BytesMut) -> Seq<u8>;

/// `BytesMut::with_capacity`: an empty buffer. The capacity is a hint to the
/// allocator and is not part of what the buffer holds.
#[verifier::external_body]
pub(crate) fn with_capacity(capacity: usize) -> (buffer: BytesMut)
    requires
        capacity <= isize::MAX,
    ensures
        contents(buffer) == Seq::<u8>::empty(),
{
    BytesMut::with_capacity(capacity)
}

/// `BytesMut::len`: the number of bytes held.
#[verifier::external_body]
pub(crate) fn len(buffer: &BytesMut) -> (n: usize)
    ensures
        n == contents(*buffer).len(),
{
    buffer.len()
}

/// `Deref` of `BytesMut`: the held bytes as a slice.
#[verifier::external_body]
pub(crate) fn as_slice(buffer: &BytesMut) -> (bytes: &[u8])
    ensures
        bytes@ == contents(*buffer),
{
    &buffer[..]
}

/// `Buf::advance` of `BytesMut`: drops the first `cnt` bytes. The crate
/// panics when `cnt` exceeds the length, so that is required of the caller.
#[verifier::external_body]
pub(crate) fn advance(buffer: &mut BytesMut, cnt: usize)
    requires
        cnt <= contents(*old(buffer)).len(),
    ensures
        contents(*final(buffer)) == contents(*old(buffer)).skip(cnt as int),
{
    buffer.advance(cnt)
}

/// `BytesMut::split_to`: hands out the first `at` bytes as a buffer of its
/// own and keeps the rest. The crate panics when `at` exceeds the length.
#[verifier::external_body]
pub(crate) fn split_to(buffer: &mut BytesMut, at: usize) -> (head: BytesMut)
    requires
        at <= contents(*old(buffer)).len(),
    ensures
        contents(head) == contents(*old(buffer)).take(at as int),
        contents(*final(buffer)) == contents(*old(buffer)).skip(at as int),
{
    buffer.split_to(at)
}

/// `BytesMut::clear`: removes every byte.
#[verifier::external_body]
pub(crate) fn clear(buffer: &mut BytesMut)
    ensures
        contents(*final(buffer)) == Seq::<u8>::empty(),
{
    buffer.clear()
}

/// `BytesMut::reserve`: makes room for `additional` more bytes and leaves
/// the held bytes as they are. The crate panics when the new capacity
/// overflows; no allocation may exceed `isize::MAX` bytes.
#[verifier::external_body]
pub(crate) fn reserve(buffer: &mut BytesMut, additional: usize)
    requires
        contents(*old(buffer)).len() + additional <= isize::MAX,
    ensures
        contents(*final(buffer)) == contents(*old(buffer)),
{
    buffer.reserve(additional)
}

/// `BufMut::remaining_mut` of `BytesMut`: how many more bytes may be
/// appended, which the crate computes as `isize::MAX` less the length.
#[verifier::external_body]
pub(crate) fn remaining_mut(buffer: &BytesMut) -> (n: usize)
    ensures
        n == isize::MAX - contents(*buffer).len(),
{
    buffer.remaining_mut()
}

/// `BufMut::put_u8` of `BytesMut`: appends one byte.
#[verifier::external_body]
pub(crate) fn put_u8(buffer: &mut BytesMut, byte: u8)
    requires
        contents(*old(buffer)).len() < isize::MAX,
    ensures
        contents(*final(buffer)) == contents(*old(buffer)).push(byte),
{
    buffer.put_u8(byte)
}

/// `BufMut::put_slice` of `BytesMut`: appends the bytes of `src` in order.
#[verifier::external_body]
pub(crate) fn put_slice(buffer: &mut BytesMut, src: &[u8])
    requires
        contents(*old(buffer)).len() + src@.len() <= isize::MAX,
    ensures
        contents(*final(buffer)) == contents(*old(buffer)) + src@,
{
    buffer.put_slice(src)
}

} // verus!
