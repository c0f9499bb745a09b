//! Fresh nonces from the thread-local random generator.
use vstd::prelude::*;

verus! {

/// Relies on rand::random::<u8>: a uniformly drawn byte from the
/// thread-local generator, seeded from the operating system; it panics
/// rather than return a predictable value when that source fails. Nothing
/// is promised of the value.
#[verifier::external_body]
fn random_byte() -> u8 {
    rand::random::<u8>()
}

/// A nonce of `size` bytes, each drawn independently at random.
pub fn get_iv(size: usize) -> (r: Vec<u8>)
    ensures
        r@.len() == size,
{
    let mut iv: Vec<u8> = Vec::new();
    let mut j: usize = 0;
    while j < size
        invariant
            j <= size,
            iv@.len() == j,
        decreases size - j,
    {
        iv.push(random_byte());
        j = j + 1;
    }
    iv
}

} // verus!
