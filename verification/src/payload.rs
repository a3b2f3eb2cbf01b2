//! Command payloads. The engine never looks inside a payload; it stores it,
//! copies it and hands it on.

use bytes::Bytes;
use vstd::prelude::*;

verus! {

/// `bytes::Bytes`, a shared run of octets. Nothing is known of a value but
/// what [`bytes_content`] names.
#[verifier::external_type_specification]
#[verifier::external_body]
pub struct ExBytes(bytes::Bytes);

/// The octets that a payload holds, in order.
pub uninterp spec fn bytes_content(b: Bytes) -> Seq<u8>;

/// `Bytes::clone`: a second handle on the same octets. Trusted: the copy
/// holds what `b` holds.
pub assume_specification[ <Bytes as Clone>::clone ](b: &Bytes) -> (r: Bytes)
    ensures
        bytes_content(r) == bytes_content(*b),
;

/// `Bytes::from(Vec<u8>)`: a payload that holds the octets of `v`. Trusted.
#[verifier::external_body]
pub(crate) fn bytes_from_vec(v: Vec<u8>) -> (r: Bytes)
    ensures
        bytes_content(r) == v@,
{
    Bytes::from(v)
}

/// `<[u8]>::to_vec` on the octets of a payload: a copy of them. Trusted.
#[verifier::external_body]
pub(crate) fn bytes_to_vec(b: &Bytes) -> (r: Vec<u8>)
    ensures
        r@ == bytes_content(*b),
{
    b.to_vec()
}

} // verus!
