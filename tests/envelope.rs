use cryptodoc::cipher::{decrypt, decrypt_text, encrypt, encrypt_with_nonce};
use cryptodoc::error::CryptoError;
use cryptodoc::nonce::get_iv;
use cryptodoc::paths::{get_save_file_path, pathbuf_to_string, FileError};
use std::path::PathBuf;

fn fields(s: &str) -> Vec<String> {
    s.split('/').map(|f| f.to_string()).collect()
}

fn flip_bit(envelope: &str, field: usize, bit: usize) -> String {
    let mut parts = fields(envelope);
    let mut bytes = hex::decode(&parts[field]).unwrap();
    bytes[bit / 8] ^= 1 << (bit % 8);
    parts[field] = hex::encode(bytes);
    parts.join("/")
}

#[test]
fn hello_world_scenario() {
    let env = encrypt(b"hello world", "secret");
    let parts = fields(&env);
    assert_eq!(parts.len(), 3);
    assert_eq!(parts[0].len(), 24);
    assert_eq!(parts[1].len(), 22);
    assert_eq!(parts[2].len(), 32);
    assert!(env.chars().all(|c| c == '/' || c.is_ascii_digit() || ('a'..='f').contains(&c)));
    let (ok, plain) = decrypt(&env, "secret").unwrap();
    assert!(ok);
    assert_eq!(plain, b"hello world".to_vec());
    let (ok, _garbage) = decrypt(&env, "wrong").unwrap();
    assert!(!ok);
}

#[test]
fn known_answer_zero_key_zero_nonce() {
    let env = encrypt_with_nonce(&[0u8; 16], "", vec![0u8; 12]);
    assert_eq!(
        env,
        "000000000000000000000000/0388dace60b6a392f328c2b971b2fe78/ab6e47d42cec13bdf53a67b21257bddf"
    );
}

#[test]
fn known_answer_empty_plaintext() {
    let env = encrypt_with_nonce(&[], "", vec![0u8; 12]);
    assert_eq!(env, "000000000000000000000000//58e2fccefa7e3061367f1d57a4e7455a");
}

#[test]
fn round_trip_various_plaintexts() {
    let texts: Vec<Vec<u8>> = vec![
        vec![],
        vec![0u8],
        (0u8..=255).collect(),
        "ünïcödé text".as_bytes().to_vec(),
        vec![7u8; 1000],
    ];
    for p in texts {
        for w in ["", "pw", "exactly16bytes!!", "a password that is far longer than sixteen bytes"] {
            let env = encrypt(&p, w);
            assert_eq!(decrypt(&env, w).unwrap(), (true, p.clone()));
        }
    }
}

#[test]
fn tampered_ciphertext_is_not_authentic() {
    let env = encrypt(b"hello world", "secret");
    for bit in [0usize, 7, 40, 87] {
        let bad = flip_bit(&env, 1, bit);
        let (ok, plain) = decrypt(&bad, "secret").unwrap();
        assert!(!ok);
        assert_eq!(plain, vec![0u8; 11]);
    }
}

#[test]
fn tampered_tag_is_not_authentic() {
    let env = encrypt(b"hello world", "secret");
    for bit in [0usize, 64, 127] {
        let bad = flip_bit(&env, 2, bit);
        assert!(!decrypt(&bad, "secret").unwrap().0);
    }
}

#[test]
fn tampered_nonce_is_not_authentic() {
    let env = encrypt(b"hello world", "secret");
    let bad = flip_bit(&env, 0, 3);
    assert!(!decrypt(&bad, "secret").unwrap().0);
}

#[test]
fn wrong_password_is_not_authentic() {
    let env = encrypt(b"document body", "correct horse");
    assert!(!decrypt(&env, "correct horsf").unwrap().0);
    assert!(!decrypt(&env, "").unwrap().0);
}

#[test]
fn passwords_equal_after_derivation_both_open() {
    let env = encrypt(b"body", "0123456789abcdefXYZ");
    assert_eq!(decrypt(&env, "0123456789abcdefQQQ").unwrap(), (true, b"body".to_vec()));
    let env = encrypt(b"body", "abc");
    assert_eq!(decrypt(&env, "abc\0").unwrap(), (true, b"body".to_vec()));
}

#[test]
fn two_encryptions_use_different_nonces() {
    let a = encrypt(b"same text", "same password");
    let b = encrypt(b"same text", "same password");
    assert_ne!(fields(&a)[0], fields(&b)[0]);
    assert_ne!(a, b);
}

#[test]
fn decrypt_rejects_malformed_envelopes() {
    assert!(matches!(decrypt("not-a-valid-envelope", "pw"), Err(CryptoError::Format)));
    assert!(matches!(decrypt("aa/bb", "pw"), Err(CryptoError::Format)));
    assert!(matches!(decrypt("zz/bb/cc", "pw"), Err(CryptoError::Format)));
    assert!(matches!(decrypt("aa/bb/cc", "pw"), Err(CryptoError::Format)));
}

#[test]
fn decrypt_text_gives_document() {
    let env = encrypt("hello world".as_bytes(), "secret");
    assert_eq!(decrypt_text(&env, "secret").unwrap(), "hello world");
}

#[test]
fn decrypt_text_reports_wrong_password() {
    let env = encrypt("hello world".as_bytes(), "secret");
    assert!(matches!(decrypt_text(&env, "wrong"), Err(CryptoError::Authentication)));
}

#[test]
fn decrypt_text_reports_non_utf8_plaintext() {
    let env = encrypt(&[0xff, 0xfe, 0x00], "secret");
    assert!(matches!(decrypt_text(&env, "secret"), Err(CryptoError::Decode)));
}

#[test]
fn decrypt_text_reports_format() {
    assert!(matches!(decrypt_text("aa/bb", "secret"), Err(CryptoError::Format)));
}

#[test]
fn nonce_has_requested_length_and_varies() {
    let a = get_iv(12);
    let b = get_iv(12);
    assert_eq!(a.len(), 12);
    assert_ne!(a, b);
    assert!(get_iv(0).is_empty());
}

#[test]
fn save_file_path_is_fixed() {
    let p = get_save_file_path();
    assert_eq!(p, PathBuf::from("./save_path.dat"));
    assert_eq!(pathbuf_to_string(&p), "./save_path.dat");
}

#[test]
fn pathbuf_to_string_gives_text() {
    let p = PathBuf::from("/home/user/notes.cryptodoc");
    assert_eq!(pathbuf_to_string(&p), "/home/user/notes.cryptodoc");
}

#[test]
fn file_error_variants() {
    let e = FileError::IOFailed(std::io::ErrorKind::NotFound);
    assert!(matches!(e.clone(), FileError::IOFailed(std::io::ErrorKind::NotFound)));
    assert!(matches!(FileError::DialogClosed, FileError::DialogClosed));
}
