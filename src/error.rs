//! Errors of decryption.
use vstd::prelude::*;

verus! {

/// Why an envelope or its contents were refused.
#[derive(Debug, Clone, Copy, PartialEq, Eq, Structural)]
pub enum CryptoError {
    /// The text is not three hexadecimal fields, or the nonce or tag has
    /// the wrong length.
    Format,
    /// The tag does not match: wrong password, or altered data.
    Authentication,
    /// The authentic plaintext is not valid UTF-8 text.
    Decode,
}

} // verus!
