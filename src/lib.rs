//! Password-protected document envelopes: a 16-byte key derived from a
//! password, AES-GCM sealing under a fresh nonce, and a three-field
//! hexadecimal text form `nonce/ciphertext/tag`.
pub mod aead;
pub mod cipher;
pub mod codec;
pub mod error;
pub mod key;
pub mod nonce;
pub mod paths;
