//! Randomness: `rand` and `uuid`.

use rand::Rng;
use rand::RngCore;
use vstd::prelude::*;

verus! {

/// `Rng::gen_range` of the `rand` crate on the range from zero up to `n`: some number of
/// that range. It panics where the range is empty.
#[verifier::external_body]
pub(crate) fn random_below(n: usize) -> (r: usize)
    requires
        n > 0,
    ensures
        r < n,
{
    rand::thread_rng().gen_range(0..n)
}

/// `RngCore::fill_bytes` of the `rand` crate: sixteen bytes of any value.
#[verifier::external_body]
pub(crate) fn random_bytes() -> (r: [u8; 16]) {
    let mut buf = [0u8; 16];
    rand::thread_rng().fill_bytes(&mut buf);
    buf
}

/// Sixteen bytes with the version and variant bits of a random UUID.
pub open spec fn random_uuid(id: Seq<u8>) -> bool {
    &&& id.len() == 16
    &&& id[6] & 0xf0 == 0x40
    &&& id[8] & 0xc0 == 0x80
}

/// `Uuid::new_v4` of the `uuid` crate: sixteen bytes that carry the version 4 and the
/// variant of RFC 9562; the other bits are random.
#[verifier::external_body]
pub(crate) fn new_uuid() -> (r: [u8; 16])
    ensures
        random_uuid(r@),
{
    uuid::Uuid::new_v4().into_bytes()
}

} // verus!
