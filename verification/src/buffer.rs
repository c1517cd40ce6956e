//! The byte buffers that carry file data received from DataNodes.

use vstd::prelude::*;

verus! {

/// `bytes::Bytes`, the immutable shared byte buffer in which file data arrives.
#[verifier::external_type_specification]
#[verifier::external_body]
pub struct ExBytes(bytes::Bytes);

/// The bytes held by a `bytes::Bytes` buffer, first to last.
pub uninterp spec fn bytes_view(b: bytes::Bytes) -> Seq<u8>;

/// Calls `bytes::Bytes::len`, which returns the number of bytes in the buffer
/// (its source returns the length of the inner buffer, which is the buffer's extent).
#[verifier::external_body]
pub(crate) fn bytes_len(b: &bytes::Bytes) -> (n: usize)
    ensures
        n == bytes_view(*b).len(),
{
    b.len()
}

/// Calls `bytes::Bytes::is_empty`, which reports whether the buffer holds no byte.
#[verifier::external_body]
pub(crate) fn bytes_is_empty(b: &bytes::Bytes) -> (r: bool)
    ensures
        r == (bytes_view(*b).len() == 0),
{
    b.is_empty()
}

} // verus!
