//! Trusted boundary around `bytes::BytesMut`, the receive buffer that each
//! connection accumulates socket bytes into.
//!
//! The buffer is declared opaque; `buf_bytes` names the byte sequence it
//! holds, and every method the codec calls is wrapped with a contract over
//! that sequence, taken from the `bytes` crate's documented behaviour.

use vstd::prelude::*;

verus! {

#[verifier::external_type_specification]
#[verifier::external_body]
pub struct ExBytesMut(bytes::BytesMut);

/// The bytes currently held by a `BytesMut` buffer, oldest first.
pub uninterp spec fn buf_bytes(b: bytes::BytesMut) -> Seq<u8>;

/// Relies on `BytesMut::len`: the number of bytes the buffer contains.
#[verifier::external_body]
pub(crate) fn buf_len(b: &bytes::BytesMut) -> (r: usize)
    ensures
        r == buf_bytes(*b).len(),
{
    b.len()
}

/// Relies on `BytesMut`'s `Deref` to `[u8]`: reads the byte at an index.
#[verifier::external_body]
pub(crate) fn buf_byte_at(b: &bytes::BytesMut, i: usize) -> (r: u8)
    requires
        i < buf_bytes(*b).len(),
    ensures
        r == buf_bytes(*b)[i as int],
{
    b[i]
}

/// Relies on `BytesMut::split_to`: afterwards the buffer holds the bytes
/// from `at` on, and the split-off prefix is returned (copied out here).
#[verifier::external_body]
pub(crate) fn buf_take(b: &mut bytes::BytesMut, at: usize) -> (r: Vec<u8>)
    requires
        at <= buf_bytes(*old(b)).len(),
    ensures
        r@ == buf_bytes(*old(b)).take(at as int),
        buf_bytes(*final(b)) == buf_bytes(*old(b)).skip(at as int),
{
    b.split_to(at).to_vec()
}

/// Relies on `Buf::advance` for `BytesMut`: discards the first `cnt` bytes.
#[verifier::external_body]
pub(crate) fn buf_advance(b: &mut bytes::BytesMut, cnt: usize)
    requires
        cnt <= buf_bytes(*old(b)).len(),
    ensures
        buf_bytes(*final(b)) == buf_bytes(*old(b)).skip(cnt as int),
{
    bytes::Buf::advance(b, cnt)
}

} // verus!
