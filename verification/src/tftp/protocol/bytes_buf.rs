//! The growable byte buffer of the `bytes` crate, as the packet serializer uses it.

use bytes::{BufMut, BytesMut};
use vstd::prelude::*;

verus! {

#[verifier::external_type_specification]
#[verifier::external_body]
pub struct ExBytesMut(BytesMut);

/// The bytes that a `BytesMut` holds, in order.
pub uninterp spec fn bytes_mut_contents(b: BytesMut) -> Seq<u8>;

/// Calls `BytesMut::with_capacity`, which returns an empty buffer
/// (the capacity is only an allocation hint; the underlying `Vec::with_capacity`
/// panics beyond `isize::MAX` bytes).
#[verifier::external_body]
pub(crate) fn bytes_with_capacity(capacity: usize) -> (b: BytesMut)
    requires
        capacity <= isize::MAX,
    ensures
        bytes_mut_contents(b) == Seq::<u8>::empty(),
{
    BytesMut::with_capacity(capacity)
}

/// Calls `BufMut::put_u16` on a `BytesMut`, which appends the two bytes of `n`
/// in big-endian order (growing the buffer; growth panics past `isize::MAX` bytes).
#[verifier::external_body]
pub(crate) fn bytes_put_u16(b: &mut BytesMut, n: u16)
    requires
        bytes_mut_contents(*old(b)).len() + 2 <= isize::MAX,
    ensures
        bytes_mut_contents(*final(b)) == bytes_mut_contents(*old(b)) + seq![
            (n / 256) as u8,
            (n % 256) as u8,
        ],
{
    b.put_u16(n)
}

/// Calls `BufMut::put_u8` on a `BytesMut`, which appends one byte.
#[verifier::external_body]
pub(crate) fn bytes_put_u8(b: &mut BytesMut, n: u8)
    requires
        bytes_mut_contents(*old(b)).len() + 1 <= isize::MAX,
    ensures
        bytes_mut_contents(*final(b)) == bytes_mut_contents(*old(b)).push(n),
{
    b.put_u8(n)
}

/// Calls `BufMut::put_slice` on a `BytesMut`, which appends the bytes of `src` in order.
#[verifier::external_body]
pub(crate) fn bytes_put_slice(b: &mut BytesMut, src: &[u8])
    requires
        bytes_mut_contents(*old(b)).len() + src@.len() <= isize::MAX,
    ensures
        bytes_mut_contents(*final(b)) == bytes_mut_contents(*old(b)) + src@,
{
    b.put_slice(src)
}

} // verus!
