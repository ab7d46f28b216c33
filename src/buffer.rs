//! Shared, reference-counted byte buffers (`bytes::Bytes`) as the frames carry them.

use vstd::prelude::*;

verus! {

/// `bytes::Bytes`, the shared buffer that frames carry; opaque here, and
/// read only through the functions below.
#[verifier::external_type_specification]
#[verifier::external_body]
pub struct ExBytes(bytes::Bytes);

/// The bytes that a `Bytes` handle gives access to.
pub uninterp spec fn bytes_content(b: bytes::Bytes) -> Seq<u8>;

/// Relies on `<Bytes as Clone>::clone`: a new handle on the same shared bytes.
pub assume_specification[ <bytes::Bytes as Clone>::clone ](b: &bytes::Bytes) -> (r: bytes::Bytes)
    ensures
        bytes_content(r) == bytes_content(*b),
;

/// Relies on `<Bytes as From<Vec<u8>>>::from`: the new buffer holds the vector's bytes as they are.
#[verifier::external_body]
pub(crate) fn bytes_from_vec(v: Vec<u8>) -> (r: bytes::Bytes)
    ensures
        bytes_content(r) == v@,
{
    bytes::Bytes::from(v)
}

/// Relies on `<Bytes as AsRef<[u8]>>::as_ref`: a slice over the whole buffer.
#[verifier::external_body]
pub(crate) fn bytes_as_slice(b: &bytes::Bytes) -> (r: &[u8])
    ensures
        r@ == bytes_content(*b),
{
    b.as_ref()
}

} // verus!
