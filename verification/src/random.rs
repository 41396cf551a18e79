use rand::Rng;
use rand::RngCore;
use vstd::prelude::*;

verus! {

/// Calls `rand::Rng::gen_range(lo..=hi)` on `rand::thread_rng()`. Claimed:
/// the number lies in `lo..=hi` (gen_range panics on an empty range, which
/// `requires` rules out). Which number comes out is chance and is not
/// stated.
#[verifier::external_body]
pub(crate) fn random_in_range(lo: u16, hi: u16) -> (r: u16)
    requires
        lo <= hi,
    ensures
        lo <= r <= hi,
{
    rand::thread_rng().gen_range(lo..=hi)
}

/// Calls `rand::RngCore::fill_bytes` on `rand::thread_rng()` to fill `n`
/// bytes. Claimed: `n` bytes come back; their values are chance and are not
/// stated.
#[verifier::external_body]
pub(crate) fn random_bytes(n: usize) -> (r: Vec<u8>)
    ensures
        r@.len() == n,
{
    let mut buf = vec![0u8; n];
    rand::thread_rng().fill_bytes(&mut buf);
    buf
}

} // verus!
