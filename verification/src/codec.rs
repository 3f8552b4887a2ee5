//! The record codec: a capsule is stored as the candid encoding of the
//! triple (id, content, unlock date).

use crate::capsule::TimeCapsule;
use vstd::prelude::*;

verus! {

/// What candid's decoder makes of a byte string: the triple it decodes
/// to, or nothing when the bytes are not a candid encoding of one. The
/// result depends on the bytes alone.
pub uninterp spec fn decoded_capsule(bytes: Seq<u8>) -> Option<(u64, Seq<char>, u64)>;

/// Relies on candid::encode_one: encodes the triple of plain values, and
/// candid::decode_one of that encoding returns exactly the encoded values
/// (candid documents the decode of an encode as the identity). Encoding a
/// number-text-number triple writes to a growable buffer and cannot fail.
#[verifier::external_body]
pub(crate) fn encode_capsule(c: &TimeCapsule) -> (bytes: Vec<u8>)
    ensures
        decoded_capsule(bytes@) == Some((c.id, c.content@, c.unlock_date)),
{
    candid::encode_one((c.id, c.content.as_str(), c.unlock_date)).unwrap()
}

/// Relies on candid::decode_one: decodes the bytes into a
/// number-text-number triple when they are a candid encoding of one, and
/// reports an error otherwise; the result depends on the bytes alone.
#[verifier::external_body]
pub(crate) fn decode_capsule(bytes: &Vec<u8>) -> (r: Option<TimeCapsule>)
    ensures
        match r {
            Some(c) => decoded_capsule(bytes@) == Some((c.id, c.content@, c.unlock_date)),
            None => decoded_capsule(bytes@) is None,
        },
{
    match candid::decode_one::<(u64, String, u64)>(bytes.as_slice()) {
        Ok((id, content, unlock_date)) => Some(TimeCapsule { id, content, unlock_date }),
        Err(_) => None,
    }
}

} // verus!
