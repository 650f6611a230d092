use rand::RngCore;
use vstd::prelude::*;

verus! {

/// Relies on `rand::rngs::OsRng` through `RngCore::fill_bytes`: fills a
/// buffer of the requested length with cryptographically secure random bytes
/// drawn from the operating system. Nothing can be promised of the bytes
/// themselves; only the length is stated.
#[verifier::external_body]
pub(crate) fn random_bytes(n: usize) -> (r: Vec<u8>)
    ensures
        r@.len() == n,
{
    let mut buf = vec![0u8; n];
    rand::rngs::OsRng.fill_bytes(&mut buf);
    buf
}

} // verus!
