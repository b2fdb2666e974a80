use hmac::{Hmac, Mac};
use rabbit::auth::Authenticator;
use sha2::{Digest, Sha256};
use uuid::Uuid;

#[test]
fn sign_verify_roundtrip() {
    let auth = Authenticator::new("test-secret");
    let data = b"hello world";
    let tag = auth.sign(data);
    assert!(auth.verify(data, &tag).is_ok());
}

#[test]
fn verify_rejects_wrong_tag() {
    let auth = Authenticator::new("test-secret");
    let result = auth.verify(b"data", "not-a-valid-hmac");
    assert!(result.is_err());
}

#[test]
fn sign_is_deterministic() {
    let auth = Authenticator::new("secret");
    let ts: u64 = 1_700_000_000;
    let tag1 = auth.sign(&ts.to_le_bytes());
    let tag2 = auth.sign(&ts.to_le_bytes());
    assert_eq!(tag1, tag2);
}

#[test]
fn different_secrets_produce_different_tags() {
    let a = Authenticator::new("secret-a");
    let b = Authenticator::new("secret-b");
    let data = b"some-data";
    assert_ne!(a.sign(data), b.sign(data));
}

#[test]
fn different_secrets_produce_different_fingerprints() {
    let a = Authenticator::new("secret-a");
    let b = Authenticator::new("secret-b");
    assert_ne!(a.fingerprint(), b.fingerprint());
}

#[test]
fn same_secret_produces_same_fingerprint() {
    let a = Authenticator::new("shared-secret");
    let b = Authenticator::new("shared-secret");
    assert_eq!(a.fingerprint(), b.fingerprint());
}

#[test]
fn answer_validate_roundtrip() {
    let auth = Authenticator::new("my-secret");
    let challenge = Uuid::new_v4();
    let reply = auth.answer(&challenge);
    assert!(auth.validate(&challenge, &reply));
}

#[test]
fn fingerprint_is_sha256_of_secret() {
    // SHA-256("abc")
    let a = Authenticator::new("abc");
    let expected: [u8; 32] = [
        0xba, 0x78, 0x16, 0xbf, 0x8f, 0x01, 0xcf, 0xea, 0x41, 0x41, 0x40, 0xde, 0x5d, 0xae, 0x22,
        0x23, 0xb0, 0x03, 0x61, 0xa3, 0x96, 0x17, 0x7a, 0x9c, 0xb4, 0x10, 0xff, 0x61, 0xf2, 0x00,
        0x15, 0xad,
    ];
    assert_eq!(a.fingerprint(), expected);
}

#[test]
fn sign_gives_lowercase_hex_of_64_digits() {
    let a = Authenticator::new("k");
    let tag = a.sign(b"payload");
    assert_eq!(tag.len(), 64);
    assert!(tag.chars().all(|c| c.is_ascii_digit() || ('a'..='f').contains(&c)));
}

#[test]
fn validate_accepts_uppercase_reply() {
    let auth = Authenticator::new("my-secret");
    let challenge = Uuid::new_v4();
    let reply = auth.answer(&challenge).to_uppercase();
    assert!(auth.validate(&challenge, &reply));
}

#[test]
fn validate_rejects_reply_of_other_secret() {
    let a = Authenticator::new("one");
    let b = Authenticator::new("two");
    let challenge = Uuid::new_v4();
    assert!(!b.validate(&challenge, &a.answer(&challenge)));
}

#[test]
fn verify_error_message() {
    let auth = Authenticator::new("s");
    let e = auth.verify(b"x", "zz").unwrap_err();
    assert_eq!(e.message(), "invalid secret");
}

#[test]
fn answer_is_hex_hmac_of_challenge_under_secret() {
    let secret = "my-secret";
    let auth = Authenticator::new(secret);
    let challenge = Uuid::new_v4();
    let mut mac = Hmac::<Sha256>::new_from_slice(secret.as_bytes()).unwrap();
    mac.update(challenge.as_bytes());
    let expected = hex::encode(mac.finalize().into_bytes());
    assert_eq!(auth.answer(&challenge), expected);
    let fingerprint: [u8; 32] = Sha256::new().chain_update(secret).finalize().into();
    assert_eq!(auth.fingerprint(), fingerprint);
}

#[test]
fn sign_is_hmac_keyed_with_the_secret() {
    let secret = "mysecret";
    let ts: u64 = 1_700_000_000;
    let mut mac = Hmac::<Sha256>::new_from_slice(secret.as_bytes()).unwrap();
    mac.update(&ts.to_le_bytes());
    let expected = hex::encode(mac.finalize().into_bytes());
    assert_eq!(Authenticator::new(secret).sign(&ts.to_le_bytes()), expected);
}
