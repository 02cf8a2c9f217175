//! The growable byte buffers of the `bytes` crate, as seen by the verified
//! stream splitters: a `BytesMut` that input is appended to and frames are
//! split off the front of, and the frozen `Bytes` that a split-off frame is
//! handed out as.

use vstd::prelude::*;

verus! {

#[verifier::external_type_specification]
#[verifier::external_body]
pub struct ExBytesMut(bytes::BytesMut);

#[verifier::external_type_specification]
#[verifier::external_body]
pub struct ExBytes(bytes::Bytes);

/// The bytes a `BytesMut` currently holds, front first.
pub uninterp spec fn buffer_contents(b: bytes::BytesMut) -> Seq<u8>;

/// The bytes a frozen `Bytes` holds, front first.
pub uninterp spec fn frozen_contents(b: bytes::Bytes) -> Seq<u8>;

/// `BytesMut::new`: an empty buffer.
#[verifier::external_body]
pub(crate) fn buffer_new() -> (r: bytes::BytesMut)
    ensures
        buffer_contents(r) == Seq::<u8>::empty(),
{
    bytes::BytesMut::new()
}

/// `BytesMut::len`: the number of bytes held.
#[verifier::external_body]
pub(crate) fn buffer_len(b: &bytes::BytesMut) -> (r: usize)
    ensures
        r as int == buffer_contents(*b).len(),
{
    b.len()
}

/// `BytesMut` as a slice (`Deref<Target = [u8]>`): the bytes held, in order.
#[verifier::external_body]
pub(crate) fn buffer_as_slice(b: &bytes::BytesMut) -> (r: &[u8])
    ensures
        r@ == buffer_contents(*b),
{
    b
}

/// `BytesMut::extend_from_slice`: appends `data` at the back. The crate
/// reserves capacity first, which fails past `isize::MAX` bytes; that is
/// excluded here.
#[verifier::external_body]
pub(crate) fn buffer_extend(b: &mut bytes::BytesMut, data: &[u8])
    requires
        buffer_contents(*old(b)).len() + data@.len() <= isize::MAX,
    ensures
        buffer_contents(*final(b)) == buffer_contents(*old(b)) + data@,
{
    b.extend_from_slice(data)
}

/// `BytesMut::split_to`: removes the first `at` bytes and returns them as a
/// buffer of their own. The crate panics for `at > len`, which is excluded.
#[verifier::external_body]
pub(crate) fn buffer_split_to(b: &mut bytes::BytesMut, at: usize) -> (r: bytes::BytesMut)
    requires
        at <= buffer_contents(*old(b)).len(),
    ensures
        buffer_contents(r) == buffer_contents(*old(b)).take(at as int),
        buffer_contents(*final(b)) == buffer_contents(*old(b)).skip(at as int),
{
    b.split_to(at)
}

/// `BytesMut::clear`: drops every byte held.
#[verifier::external_body]
pub(crate) fn buffer_clear(b: &mut bytes::BytesMut)
    ensures
        buffer_contents(*final(b)) == Seq::<u8>::empty(),
{
    b.clear()
}

/// `BytesMut::freeze`: the same bytes as an immutable `Bytes`.
#[verifier::external_body]
pub(crate) fn buffer_freeze(b: bytes::BytesMut) -> (r: bytes::Bytes)
    ensures
        frozen_contents(r) == buffer_contents(b),
{
    b.freeze()
}

} // verus!

verus! {

/// `Bytes::from(Vec<u8>)`: the vector's bytes as an immutable `Bytes`.
#[verifier::external_body]
pub(crate) fn frozen_from_vec(v: Vec<u8>) -> (r: bytes::Bytes)
    ensures
        frozen_contents(r) == v@,
{
    bytes::Bytes::from(v)
}

/// `Bytes` as a slice (`Deref<Target = [u8]>`): the bytes held, in order.
#[verifier::external_body]
pub(crate) fn frozen_as_slice(b: &bytes::Bytes) -> (r: &[u8])
    ensures
        r@ == frozen_contents(*b),
{
    b
}

} // verus!

verus! {

/// `Bytes::new`: no bytes.
#[verifier::external_body]
pub(crate) fn frozen_empty() -> (r: bytes::Bytes)
    ensures
        frozen_contents(r) == Seq::<u8>::empty(),
{
    bytes::Bytes::new()
}

/// `Bytes::copy_from_slice`: a copy of `data`.
#[verifier::external_body]
pub(crate) fn frozen_copy(data: &[u8]) -> (r: bytes::Bytes)
    ensures
        frozen_contents(r) == data@,
{
    bytes::Bytes::copy_from_slice(data)
}

} // verus!

verus! {

/// `Bytes::clone`: another handle on the same bytes.
#[verifier::external_body]
pub(crate) fn frozen_clone(b: &bytes::Bytes) -> (r: bytes::Bytes)
    ensures
        frozen_contents(r) == frozen_contents(*b),
{
    b.clone()
}

} // verus!
