//! Byte payloads that are shared rather than copied.
//!
//! Bodies and cache entries are held as `bytes::Bytes`, so that handing a
//! cached body to a response costs a reference count and no copy. To the
//! verifier such a value is opaque; `payload` names the bytes it holds, and
//! the functions below say what the few operations used here do to them.

use vstd::prelude::*;
use bytes::Bytes;

verus! {

/// `bytes::Bytes`, a shared buffer of bytes, carried as it is.
#[verifier::external_type_specification]
#[verifier::external_body]
pub struct ExBytes(Bytes);

/// The bytes that `b` holds, in order.
pub uninterp spec fn payload(b: Bytes) -> Seq<u8>;

/// `Bytes::from` on a `Vec<u8>`: the buffer takes the vector over, so it
/// holds the vector's bytes.
#[verifier::external_body]
pub(crate) fn bytes_from(v: Vec<u8>) -> (b: Bytes)
    ensures
        payload(b) == v@,
{
    Bytes::from(v)
}

/// `Bytes::clone`: a second handle on the same bytes.
#[verifier::external_body]
pub(crate) fn bytes_clone(b: &Bytes) -> (c: Bytes)
    ensures
        payload(c) == payload(*b),
{
    b.clone()
}

/// `Bytes::as_ref`: the bytes held, as a slice.
#[verifier::external_body]
pub(crate) fn bytes_slice(b: &Bytes) -> (s: &[u8])
    ensures
        s@ == payload(*b),
{
    b.as_ref()
}

} // verus!
