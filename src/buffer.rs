//! The growable byte buffer of the `bytes` crate and the request-head parser
//! of the `httparse` crate, as the rest of the library sees them.

use vstd::prelude::*;

verus! {

#[verifier::external_type_specification]
#[verifier::external_body]
pub struct ExBytesMut(bytes::BytesMut);

/// The bytes that a buffer currently holds.
pub uninterp spec fn bytes_of(b: bytes::BytesMut) -> Seq<u8>;

/// How many bytes a buffer can hold without reallocating.
pub uninterp spec fn capacity_of(b: bytes::BytesMut) -> nat;

/// Relies on `BytesMut::with_capacity`: an empty buffer backed by a vector
/// of the requested capacity.
pub assume_specification[ bytes::BytesMut::with_capacity ](capacity: usize) -> (r: bytes::BytesMut)
    ensures
        bytes_of(r) == Seq::<u8>::empty(),
        capacity_of(r) >= capacity,
;

/// Relies on `BytesMut::len`: the number of bytes held.
pub assume_specification[ bytes::BytesMut::len ](b: &bytes::BytesMut) -> (r: usize)
    ensures
        r == bytes_of(*b).len(),
;

/// Relies on `BytesMut::capacity`: never below the length.
pub assume_specification[ bytes::BytesMut::capacity ](b: &bytes::BytesMut) -> (r: usize)
    ensures
        r == capacity_of(*b),
        r >= bytes_of(*b).len(),
;

/// Relies on `BytesMut::reserve`: keeps the bytes and makes room for at
/// least `additional` more. It panics when `len + additional` overflows;
/// running out of memory is left out, as it is for std's `Vec`.
pub assume_specification[ bytes::BytesMut::reserve ](b: &mut bytes::BytesMut, additional: usize)
    requires
        bytes_of(*old(b)).len() + additional <= usize::MAX,
    ensures
        bytes_of(*final(b)) == bytes_of(*old(b)),
        capacity_of(*final(b)) >= bytes_of(*old(b)).len() + additional,
;

/// Relies on `BytesMut::extend_from_slice`: appends the slice, after a
/// `reserve` of its length (see above).
pub assume_specification[ bytes::BytesMut::extend_from_slice ](b: &mut bytes::BytesMut, extend: &[u8])
    requires
        bytes_of(*old(b)).len() + extend@.len() <= usize::MAX,
    ensures
        bytes_of(*final(b)) == bytes_of(*old(b)) + extend@,
;

/// Relies on `BytesMut::split_to`: hands out the first `at` bytes and keeps
/// the rest; it panics when `at` exceeds the length.
pub assume_specification[ bytes::BytesMut::split_to ](b: &mut bytes::BytesMut, at: usize) -> (r: bytes::BytesMut)
    requires
        at <= bytes_of(*old(b)).len(),
    ensures
        bytes_of(r) == bytes_of(*old(b)).take(at as int),
        bytes_of(*final(b)) == bytes_of(*old(b)).skip(at as int),
;

/// Relies on `BytesMut`'s `Deref` to `[u8]`: the bytes held, in order.
#[verifier::external_body]
pub(crate) fn held_bytes(b: &bytes::BytesMut) -> (r: &[u8])
    ensures
        r@ == bytes_of(*b),
{
    &b[..]
}

/// What the request-head parser reports on a buffer.
#[derive(Clone, Copy, Debug, PartialEq, Eq, Structural)]
pub enum HeadStatus {
    /// A complete request head occupies this many leading bytes.
    Complete(usize),
    /// The bytes are a valid but unfinished request head.
    Partial,
    /// The bytes cannot start a valid request head.
    Invalid,
}

/// What the request-head parser reports on the given bytes.
pub uninterp spec fn head_status_of(buf: Seq<u8>) -> HeadStatus;

/// Relies on `httparse::Request::parse` with room for sixteen headers: its
/// answer depends on the bytes alone, and a complete head is a prefix of
/// them.
#[verifier::external_body]
pub(crate) fn parse_head(buf: &[u8]) -> (r: HeadStatus)
    ensures
        r == head_status_of(buf@),
        r matches HeadStatus::Complete(n) ==> n <= buf@.len(),
{
    let mut headers = [httparse::EMPTY_HEADER; 16];
    let mut req = httparse::Request::new(&mut headers);
    match req.parse(buf) {
        Ok(httparse::Status::Complete(n)) => HeadStatus::Complete(n),
        Ok(httparse::Status::Partial) => HeadStatus::Partial,
        Err(_) => HeadStatus::Invalid,
    }
}

} // verus!
