//! Generation of the shared secret: a pseudo-random byte string derived by
//! repeatedly hashing words of operating-system randomness and keeping two
//! bytes per round. The randomness and the hash are relied on; the shape of
//! the result is proved.

use rand::RngCore;
use std::collections::hash_map::DefaultHasher;
use std::hash::Hasher;
use vstd::bytes::lemma_auto_spec_u64_to_from_le_bytes;
use vstd::bytes::u64_to_le_bytes;
use vstd::prelude::*;

verus! {

/// Relies on rand's OsRng (RngCore::next_u64): one word of operating-system
/// randomness; nothing can be promised of the value. As everywhere OsRng is
/// drawn from, the process aborts if the operating system's randomness
/// source itself is unavailable.
#[verifier::external_body]
fn os_random_u64() -> (r: u64) {
    rand::rngs::OsRng.next_u64()
}

/// Generates a pseudo-random key of exactly `2 * size` bytes: each round
/// feeds the previous hash and a fresh random word to the hasher and keeps
/// two bytes of the digest.
pub fn generate_key(size: u64) -> (r: Vec<u8>)
    ensures
        r@.len() == 2 * size,
{
    let mut result: Vec<u8> = Vec::new();
    let mut hasher = DefaultHasher::new();
    let mut rand_numb: u64 = os_random_u64();
    let mut round: u64 = 0;
    while round < size
        invariant
            round <= size,
            result@.len() == 2 * round,
        decreases size - round,
    {
        proof {
            lemma_auto_spec_u64_to_from_le_bytes();
        }
        let prev = u64_to_le_bytes(rand_numb);
        hasher.write(prev.as_slice());
        let fresh = u64_to_le_bytes(os_random_u64());
        hasher.write(fresh.as_slice());
        let hash = hasher.finish();

        let hash_bytes = u64_to_le_bytes(hash);
        result.push(hash_bytes[1]);
        result.push(hash_bytes[5]);

        rand_numb = hash;
        round = round + 1;
    }
    result
}

} // verus!
