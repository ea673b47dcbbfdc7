//! Fresh randomness: coin flips and secret key bytes.
use vstd::prelude::*;

verus! {

/// Relies on `rand::random`, which draws a value from the thread-local
/// generator; nothing is promised of the value.
pub assume_specification<T>[ rand::random::<T> ]() -> (r: T)
    where
        rand::distributions::Standard: rand::distributions::Distribution<T>,
;

/// A fair coin flip.
pub fn flip_coin() -> bool {
    rand::random::<bool>()
}

/// 32 fresh random bytes, the entropy of a secret key.
pub fn secret_key_bytes() -> (k: Vec<u8>)
    ensures
        k@.len() == 32,
{
    let bytes: [u8; 32] = rand::random::<[u8; 32]>();
    let mut k: Vec<u8> = Vec::with_capacity(32);
    let mut m: usize = 0;
    while m < 32
        invariant
            m <= 32,
            k@.len() == m,
        decreases 32 - m,
    {
        k.push(bytes[m]);
        m = m + 1;
    }
    k
}

} // verus!
