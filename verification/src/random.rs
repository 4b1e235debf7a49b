//! Random bytes.

use rand::Rng;
use vstd::prelude::*;

verus! {

/// `Rng::fill` of `rand::thread_rng`: `len` bytes of chance.
#[verifier::external_body]
pub(crate) fn random_bytes(len: usize) -> (r: Vec<u8>)
    ensures
        r@.len() == len,
{
    let mut buf = vec![0u8; len];
    rand::thread_rng().fill(&mut buf[..]);
    buf
}

/// `N` random bytes.
pub fn random_array<const N: usize>() -> (r: [u8; N])
    ensures
        r@.len() == N,
{
    let buf: Vec<u8> = random_bytes(N);
    crate::bytes::array_at::<N>(buf.as_slice(), 0)
}

} // verus!
