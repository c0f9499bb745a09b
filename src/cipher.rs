//! Sealing a document under a password, and opening it again.
use crate::aead::{gcm_open, gcm_seal, gcm_tag, gcm_transform};
use crate::codec::{
    ascii_text, deserialize, envelope_bytes, lemma_envelope_round_trip, lemma_envelope_utf8,
    parsed_envelope, serialize, Envelope, NONCE_LEN,
};
use crate::error::CryptoError;
use crate::key::{derived_key, get_valid_key};
use crate::nonce::get_iv;
use vstd::prelude::*;
use vstd::utf8::{decode_utf8, encode_utf8, valid_utf8};

verus! {

#[verifier::external_type_specification]
#[verifier::external_body]
pub struct ExFromUtf8Error(std::string::FromUtf8Error);

/// What opening a ciphertext gives: whether its tag is the tag that the key
/// and nonce give it, and the plaintext if so (zero bytes of the same
/// length if not).
pub open spec fn opened(key: Seq<u8>, nonce: Seq<u8>, ciphertext: Seq<u8>, tag: Seq<u8>) -> (
    bool,
    Seq<u8>,
) {
    if tag == gcm_tag(key, nonce, ciphertext) {
        (true, gcm_transform(key, nonce, ciphertext))
    } else {
        (false, Seq::new(ciphertext.len(), |i: int| 0u8))
    }
}

/// What decrypting an envelope text with a password gives: `Format` when
/// the text is no envelope, otherwise the authenticity flag and plaintext.
pub open spec fn decryption(envelope: Seq<char>, password: Seq<char>) -> Result<
    (bool, Seq<u8>),
    CryptoError,
> {
    match parsed_envelope(encode_utf8(envelope)) {
        Some((nonce, ciphertext, tag)) => Ok(
            opened(derived_key(encode_utf8(password)), nonce, ciphertext, tag),
        ),
        None => Err(CryptoError::Format),
    }
}

/// The envelope text that sealing a plaintext under a password and a
/// nonce gives.
pub open spec fn sealed_text(plaintext: Seq<u8>, password: Seq<char>, nonce: Seq<u8>) -> Seq<char> {
    let key = derived_key(encode_utf8(password));
    let ciphertext = gcm_transform(key, nonce, plaintext);
    ascii_text(envelope_bytes(nonce, ciphertext, gcm_tag(key, nonce, ciphertext)))
}

/// Seals `data` under `password` with the given nonce and writes the
/// envelope text. A nonce must never be used twice with one password:
/// `encrypt` draws a fresh one. Decrypting the result with the same
/// password gives the data back, flagged authentic.
pub fn encrypt_with_nonce(data: &[u8], password: &str, nonce: Vec<u8>) -> (r: String)
    requires
        nonce@.len() == NONCE_LEN,
    ensures
        r@ == sealed_text(data@, password@, nonce@),
        decryption(r@, password@) == Ok::<(bool, Seq<u8>), CryptoError>((true, data@)),
{
    let key = get_valid_key(password);
    let (ciphertext, tag) = gcm_seal(key.as_slice(), nonce.as_slice(), data);
    let envelope = Envelope { nonce, ciphertext, tag };
    let r = serialize(&envelope);
    proof {
        let e = envelope_bytes(envelope.nonce@, envelope.ciphertext@, envelope.tag@);
        lemma_envelope_utf8(envelope.nonce@, envelope.ciphertext@, envelope.tag@);
        lemma_envelope_round_trip(envelope.nonce@, envelope.ciphertext@, envelope.tag@);
        assert(encode_utf8(r@) == e);
    }
    r
}

/// Seals `data` under `password` with a fresh random nonce and writes the
/// envelope text `<hex nonce>/<hex ciphertext>/<hex tag>`. Decrypting the
/// result with the same password gives the data back, flagged authentic,
/// and opening it as a document gives back the text that UTF-8 data
/// encodes.
pub fn encrypt(data: &[u8], password: &str) -> (r: String)
    ensures
        exists|nonce: Seq<u8>|
            nonce.len() == NONCE_LEN && r@ == #[trigger] sealed_text(data@, password@, nonce),
        decryption(r@, password@) == Ok::<(bool, Seq<u8>), CryptoError>((true, data@)),
        valid_utf8(data@) ==> opened_text(r@, password@) == Ok::<Seq<char>, CryptoError>(
            decode_utf8(data@),
        ),
{
    let iv = get_iv(NONCE_LEN);
    let ghost nonce = iv@;
    let r = encrypt_with_nonce(data, password, iv);
    assert(r@ == sealed_text(data@, password@, nonce));
    r
}

/// Parses an envelope text and opens it with the key derived from
/// `key`. Fails with `Format` when the text is no envelope; otherwise
/// gives the authenticity flag and the plaintext, which is to be
/// discarded when the flag is false.
pub fn decrypt(iv_data_mac: &str, key: &str) -> (r: Result<(bool, Vec<u8>), CryptoError>)
    ensures
        match r {
            Ok((authentic, plaintext)) => decryption(iv_data_mac@, key@) == Ok::<
                (bool, Seq<u8>),
                CryptoError,
            >((authentic, plaintext@)),
            Err(e) => decryption(iv_data_mac@, key@) == Err::<(bool, Seq<u8>), CryptoError>(e),
        },
{
    let envelope = match deserialize(iv_data_mac) {
        Ok(envelope) => envelope,
        Err(e) => return Err(e),
    };
    let valid_key = get_valid_key(key);
    let (authentic, plaintext) = gcm_open(
        valid_key.as_slice(),
        envelope.nonce.as_slice(),
        envelope.ciphertext.as_slice(),
        envelope.tag.as_slice(),
    );
    Ok((authentic, plaintext))
}

/// What opening an envelope text as a document gives: `Format` when the
/// text is no envelope, `Authentication` when the tag does not match,
/// `Decode` when the authentic plaintext is not UTF-8, else its text.
pub open spec fn opened_text(envelope: Seq<char>, password: Seq<char>) -> Result<
    Seq<char>,
    CryptoError,
> {
    match decryption(envelope, password) {
        Ok((authentic, plaintext)) => {
            if !authentic {
                Err(CryptoError::Authentication)
            } else if valid_utf8(plaintext) {
                Ok(decode_utf8(plaintext))
            } else {
                Err(CryptoError::Decode)
            }
        },
        Err(e) => Err(e),
    }
}

/// Relies on String::from_utf8: it succeeds exactly on valid UTF-8, with
/// the characters the bytes encode.
#[verifier::external_body]
fn utf8_string(bytes: Vec<u8>) -> (r: Result<String, std::string::FromUtf8Error>)
    ensures
        r is Ok <==> valid_utf8(bytes@),
        r is Ok ==> r->Ok_0@ == decode_utf8(bytes@),
{
    String::from_utf8(bytes)
}

/// Opens an envelope text as a text document: the plaintext is returned
/// only when it is authentic, and an authentic plaintext that is not UTF-8
/// is a `Decode` error, distinct from a wrong password.
pub fn decrypt_text(envelope: &str, password: &str) -> (r: Result<String, CryptoError>)
    ensures
        match r {
            Ok(text) => opened_text(envelope@, password@) == Ok::<Seq<char>, CryptoError>(text@),
            Err(e) => opened_text(envelope@, password@) == Err::<Seq<char>, CryptoError>(e),
        },
{
    match decrypt(envelope, password) {
        Ok((authentic, plaintext)) => {
            if !authentic {
                Err(CryptoError::Authentication)
            } else {
                match utf8_string(plaintext) {
                    Ok(text) => Ok(text),
                    Err(_) => Err(CryptoError::Decode),
                }
            }
        },
        Err(e) => Err(e),
    }
}

} // verus!
