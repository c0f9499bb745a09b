//! AES-GCM with a sixteen-byte key, a twelve-byte nonce and no associated
//! data, as rust-crypto's `AesGcm` computes it.
use crypto::aead::{AeadDecryptor, AeadEncryptor};
use crypto::aes::KeySize;
use crypto::aes_gcm::AesGcm;
use vstd::prelude::*;

verus! {

/// The counter-mode transform of `data` under a key and a nonce: the data
/// XOR the AES keystream that GCM derives from them. Applying it to a
/// ciphertext gives the plaintext back.
pub uninterp spec fn gcm_transform(key: Seq<u8>, nonce: Seq<u8>, data: Seq<u8>) -> Seq<u8>;

/// The sixteen-byte GCM tag of a ciphertext under a key and a nonce, with no
/// associated data.
pub uninterp spec fn gcm_tag(key: Seq<u8>, nonce: Seq<u8>, ciphertext: Seq<u8>) -> Seq<u8>;

/// Relies on rust-crypto's `AesGcm::new` (AES-128) and `encrypt`: the
/// ciphertext is the counter-mode transform of the plaintext and has its
/// length; the tag is the GHASH tag of that ciphertext; the transform XORs
/// with the same keystream either way, so applied to the ciphertext it
/// gives the plaintext back. `new` asserts the key and nonce lengths.
#[verifier::external_body]
pub(crate) fn gcm_seal(key: &[u8], nonce: &[u8], plaintext: &[u8]) -> (r: (Vec<u8>, Vec<u8>))
    requires
        key@.len() == 16,
        nonce@.len() == 12,
    ensures
        r.0@ == gcm_transform(key@, nonce@, plaintext@),
        r.0@.len() == plaintext@.len(),
        r.1@ == gcm_tag(key@, nonce@, r.0@),
        r.1@.len() == 16,
        gcm_transform(key@, nonce@, r.0@) == plaintext@,
{
    let mut cipher = AesGcm::new(KeySize::KeySize128, key, nonce, &[]);
    let mut ciphertext: Vec<u8> = vec![0u8; plaintext.len()];
    let mut tag: Vec<u8> = vec![0u8; 16];
    cipher.encrypt(plaintext, &mut ciphertext, &mut tag);
    (ciphertext, tag)
}

/// Relies on rust-crypto's `AesGcm::new` (AES-128) and `decrypt`: the flag
/// is whether the given tag equals the tag of the ciphertext (compared by
/// `fixed_time_eq`, false on a length mismatch); only then is the output
/// buffer overwritten with the transform of the ciphertext, otherwise it
/// keeps the zeros it was given.
#[verifier::external_body]
pub(crate) fn gcm_open(key: &[u8], nonce: &[u8], ciphertext: &[u8], tag: &[u8]) -> (r: (
    bool,
    Vec<u8>,
))
    requires
        key@.len() == 16,
        nonce@.len() == 12,
    ensures
        r.0 == (tag@ == gcm_tag(key@, nonce@, ciphertext@)),
        r.0 ==> r.1@ == gcm_transform(key@, nonce@, ciphertext@),
        !r.0 ==> r.1@ == Seq::new(ciphertext@.len(), |i: int| 0u8),
        r.1@.len() == ciphertext@.len(),
{
    let mut cipher = AesGcm::new(KeySize::KeySize128, key, nonce, &[]);
    let mut plaintext: Vec<u8> = vec![0u8; ciphertext.len()];
    let authentic = cipher.decrypt(ciphertext, &mut plaintext, tag);
    (authentic, plaintext)
}

} // verus!
