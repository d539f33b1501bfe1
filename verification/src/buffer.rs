//! Byte buffers of the `bytes` crate, in which request and response bodies
//! travel.

use bytes::{Bytes, BytesMut};
use vstd::prelude::*;

verus! {

#[verifier::external_type_specification]
#[verifier::external_body]
pub struct ExBytes(Bytes);

#[verifier::external_type_specification]
#[verifier::external_body]
pub struct ExBytesMut(BytesMut);

/// The bytes that a `Bytes` value holds, in order.
pub uninterp spec fn frozen_bytes(data: Bytes) -> Seq<u8>;

/// The bytes that a `BytesMut` buffer holds, in order.
pub uninterp spec fn buffer_bytes(buffer: BytesMut) -> Seq<u8>;

/// `BytesMut::new` makes a buffer that holds no byte.
#[verifier::external_body]
pub(crate) fn empty_buffer() -> (buffer: BytesMut)
    ensures
        buffer_bytes(buffer) == Seq::<u8>::empty(),
{
    BytesMut::new()
}

/// `BytesMut::extend_from_slice` copies the slice to the end of the buffer
/// and leaves what the buffer held in front of it. (It grows the buffer as
/// `Vec` grows: where `Vec` stops the program because memory or the address
/// space runs out, so does it.)
pub assume_specification[ BytesMut::extend_from_slice ](buffer: &mut BytesMut, extend: &[u8])
    ensures
        buffer_bytes(*final(buffer)) == buffer_bytes(*old(buffer)) + extend@,
;

/// `BytesMut::freeze` turns the buffer into an immutable `Bytes` with the same
/// bytes.
pub assume_specification[ BytesMut::freeze ](buffer: BytesMut) -> (data: Bytes)
    ensures
        frozen_bytes(data) == buffer_bytes(buffer),
;

/// Dereferencing a `Bytes` gives the slice of the bytes it holds.
pub assume_specification[ <Bytes as core::ops::Deref>::deref ](data: &Bytes) -> (slice: &[u8])
    ensures
        slice@ == frozen_bytes(*data),
;

/// Dereferencing a `BytesMut` gives the slice of the bytes it holds.
pub assume_specification[ <BytesMut as core::ops::Deref>::deref ](buffer: &BytesMut) -> (slice:
    &[u8])
    ensures
        slice@ == buffer_bytes(*buffer),
;

} // verus!
