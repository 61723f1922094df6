//! The byte buffer that backs a frame reader: a `BytesMut` of the `bytes`
//! crate, seen through the sequence of bytes it holds.
use bytes::Buf;
use bytes::BytesMut;
use vstd::prelude::*;

verus! {

#[verifier::external_type_specification]
#[verifier::external_body]
pub struct ExBytesMut(BytesMut);

/// The bytes that a `BytesMut` holds, front first.
pub uninterp spec fn bytes_of(b: BytesMut) -> Seq<u8>;

/// Relies on `BytesMut::with_capacity`: a new, empty buffer.
#[verifier::external_body]
pub(crate) fn buffer_with_capacity(capacity: usize) -> (r: BytesMut)
    ensures
        bytes_of(r) == Seq::<u8>::empty(),
{
    BytesMut::with_capacity(capacity)
}

/// Relies on `BytesMut`'s `Deref<Target = [u8]>`: the bytes held, as a slice.
#[verifier::external_body]
pub(crate) fn buffer_bytes(b: &BytesMut) -> (r: &[u8])
    ensures
        r@ == bytes_of(*b),
{
    &b[..]
}

/// Relies on `BytesMut::extend_from_slice`: appends `data` at the back.
#[verifier::external_body]
pub(crate) fn buffer_extend(b: &mut BytesMut, data: &[u8])
    ensures
        bytes_of(*final(b)) == bytes_of(*old(b)) + data@,
{
    b.extend_from_slice(data)
}

/// Relies on `Buf::advance` for `BytesMut`: drops the first `n` bytes. It
/// panics past the end, which `requires` rules out.
#[verifier::external_body]
pub(crate) fn buffer_advance(b: &mut BytesMut, n: usize)
    requires
        n <= bytes_of(*old(b)).len(),
    ensures
        bytes_of(*final(b)) == bytes_of(*old(b)).skip(n as int),
{
    b.advance(n)
}

/// Relies on `BytesMut::split`: moves every byte held into the result and
/// leaves the buffer empty.
#[verifier::external_body]
pub(crate) fn buffer_take_all(b: &mut BytesMut) -> (r: BytesMut)
    ensures
        bytes_of(r) == bytes_of(*old(b)),
        bytes_of(*final(b)) == Seq::<u8>::empty(),
{
    b.split()
}

} // verus!
