//! Salt generation. Salts are drawn once at construction from the operating
//! system's cryptographically seeded generator and are immutable afterwards;
//! only their lengths are ever promised.

use vstd::prelude::*;
use rand::Rng;

verus! {

/// Relies on `rand::Rng::gen` on `rand::rngs::OsRng`: one byte from the
/// operating system's random source. Nothing is promised of the value.
#[verifier::external_body]
fn os_random_byte() -> u8 {
    rand::rngs::OsRng.gen()
}

/// Draws one salt of `n` random bytes.
pub fn random_salt(n: usize) -> (r: Vec<u8>)
    ensures
        r@.len() == n,
{
    let mut out: Vec<u8> = Vec::new();
    let mut i: usize = 0;
    while i < n
        invariant
            i <= n,
            out@.len() == i,
        decreases n - i,
    {
        out.push(os_random_byte());
        i = i + 1;
    }
    out
}

/// Draws `k` salts of `n` random bytes each.
pub fn random_salts(k: usize, n: usize) -> (r: Vec<Vec<u8>>)
    ensures
        r@.len() == k,
        forall|j: int| 0 <= j < k ==> (#[trigger] r@[j])@.len() == n,
{
    let mut out: Vec<Vec<u8>> = Vec::new();
    let mut i: usize = 0;
    while i < k
        invariant
            i <= k,
            out@.len() == i,
            forall|j: int| 0 <= j < i ==> (#[trigger] out@[j])@.len() == n,
        decreases k - i,
    {
        out.push(random_salt(n));
        i = i + 1;
    }
    out
}

} // verus!
