//! Key derivation: a password's bytes, padded with zeros or truncated to
//! exactly sixteen bytes.
use vstd::prelude::*;
use vstd::string::StringSliceAdditionalSpecFns;

verus! {

/// Length in bytes of a derived key.
pub const KEY_LEN: usize = 16;

/// The key derived from a password's bytes: the first sixteen bytes, with
/// zero bytes appended when the password is shorter.
pub open spec fn derived_key(password: Seq<u8>) -> Seq<u8> {
    if password.len() >= KEY_LEN {
        password.subrange(0, KEY_LEN as int)
    } else {
        password + Seq::new((KEY_LEN - password.len()) as nat, |i: int| 0u8)
    }
}

/// Derives the sixteen-byte key for a password (its UTF-8 bytes, padded
/// with zero bytes or truncated). Deterministic, and never fails.
pub fn get_valid_key(key: &str) -> (r: Vec<u8>)
    ensures
        r@ == derived_key(key.spec_bytes()),
        r@.len() == KEY_LEN,
{
    let bytes: &[u8] = key.as_bytes();
    let n: usize = if bytes.len() < KEY_LEN { bytes.len() } else { KEY_LEN };
    let mut r: Vec<u8> = Vec::new();
    let mut i: usize = 0;
    while i < n
        invariant
            n <= bytes@.len(),
            n <= KEY_LEN,
            i <= n,
            r@ == bytes@.subrange(0, i as int),
        decreases n - i,
    {
        r.push(bytes[i]);
        i = i + 1;
    }
    while r.len() < KEY_LEN
        invariant
            n <= r@.len() <= KEY_LEN,
            n <= bytes@.len(),
            n == bytes@.len() || n == KEY_LEN,
            r@.subrange(0, n as int) == bytes@.subrange(0, n as int),
            forall|j: int| n <= j < r@.len() ==> r@[j] == 0u8,
        decreases KEY_LEN - r.len(),
    {
        r.push(0u8);
    }
    if bytes.len() >= KEY_LEN {
        assert(r@ =~= bytes@.subrange(0, KEY_LEN as int));
    } else {
        assert forall|j: int| 0 <= j < n implies r@[j] == bytes@[j] by {
            assert(r@.subrange(0, n as int)[j] == bytes@.subrange(0, n as int)[j]);
        }
        assert(r@ =~= bytes@ + Seq::new((KEY_LEN - bytes@.len()) as nat, |i: int| 0u8));
    }
    r
}

} // verus!
