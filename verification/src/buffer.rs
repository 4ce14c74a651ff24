//! Trusted view of `bytes::BytesMut`, the accumulation buffer the codecs
//! read from and write to. The contents are modelled as a byte sequence,
//! oldest byte first; each wrapper states what the corresponding `bytes`
//! method does to that sequence.
use vstd::prelude::*;

use bytes::Buf;
use bytes::BytesMut;

verus! {

#[verifier::external_type_specification]
#[verifier::external_body]
pub struct ExBytesMut(BytesMut);

/// The bytes the buffer currently holds, oldest first.
pub uninterp spec fn buf_bytes(b: BytesMut) -> Seq<u8>;

/// Relies on `BytesMut::len`: the number of bytes in the buffer.
#[verifier::external_body]
pub fn buf_len(b: &BytesMut) -> (r: usize)
    ensures
        r == buf_bytes(*b).len(),
{
    b.len()
}

/// Relies on the `Index` impl that `BytesMut` gets by dereferencing to a
/// byte slice: reads one byte without consuming anything.
#[verifier::external_body]
pub fn buf_byte(b: &BytesMut, i: usize) -> (r: u8)
    requires
        i < buf_bytes(*b).len(),
    ensures
        r == buf_bytes(*b)[i as int],
{
    b[i]
}

/// Relies on `Buf::advance` for `BytesMut`: discards the first `n` bytes.
#[verifier::external_body]
pub fn buf_advance(b: &mut BytesMut, n: usize)
    requires
        n <= buf_bytes(*old(b)).len(),
    ensures
        buf_bytes(*final(b)) == buf_bytes(*old(b)).skip(n as int),
{
    b.advance(n);
}

/// Relies on `BytesMut::split_to`: removes the first `n` bytes and hands
/// them out (converted to a plain vector).
#[verifier::external_body]
pub fn buf_split_to(b: &mut BytesMut, n: usize) -> (r: Vec<u8>)
    requires
        n <= buf_bytes(*old(b)).len(),
    ensures
        r@ == buf_bytes(*old(b)).take(n as int),
        buf_bytes(*final(b)) == buf_bytes(*old(b)).skip(n as int),
{
    b.split_to(n).to_vec()
}

/// Relies on `BytesMut::extend_from_slice`: appends the bytes to the end of
/// the buffer.
#[verifier::external_body]
pub fn buf_extend(b: &mut BytesMut, s: &[u8])
    ensures
        buf_bytes(*final(b)) == buf_bytes(*old(b)) + s@,
{
    b.extend_from_slice(s);
}

} // verus!
