//! The byte buffers of the `bytes` crate.

use bytes::{Bytes, BytesMut};
use vstd::prelude::*;

verus! {

/// `bytes::Bytes`, a cheaply cloned, immutable buffer.
#[verifier::external_type_specification]
#[verifier::external_body]
pub struct ExBytes(Bytes);

/// `bytes::BytesMut`, a uniquely owned buffer.
#[verifier::external_type_specification]
#[verifier::external_body]
pub struct ExBytesMut(BytesMut);

/// The bytes that a `Bytes` holds.
pub uninterp spec fn bytes_contents(buffer: Bytes) -> Seq<u8>;

/// The bytes that a `BytesMut` holds.
pub uninterp spec fn bytes_mut_contents(buffer: BytesMut) -> Seq<u8>;

/// `Bytes::copy_from_slice`: a new buffer with the bytes of the slice.
pub assume_specification[ Bytes::copy_from_slice ](data: &[u8]) -> (buffer: Bytes)
    ensures
        bytes_contents(buffer) == data@,
;

/// `Bytes::len`: the number of bytes.
pub assume_specification[ Bytes::len ](buffer: &Bytes) -> (len: usize)
    ensures
        len == bytes_contents(*buffer).len(),
;

/// `Bytes::clone`: another handle on the same bytes.
pub assume_specification[ <Bytes as Clone>::clone ](buffer: &Bytes) -> (copy: Bytes)
    ensures
        bytes_contents(copy) == bytes_contents(*buffer),
;

/// `BytesMut::from` on a slice: a new buffer with the bytes of the slice.
#[verifier::external_body]
pub(crate) fn bytes_mut_from_slice(data: &[u8]) -> (buffer: BytesMut)
    ensures
        bytes_mut_contents(buffer) == data@,
{
    BytesMut::from(data)
}

} // verus!
