//! Shared-secret authentication: HMAC-SHA256 tags over timestamps and challenges.
use vstd::prelude::*;
use hmac::{Hmac, Mac};
use sha2::{Digest, Sha256};
use uuid::Uuid;
use vstd::string::StringSliceAdditionalSpecFns;
use vstd::utf8::is_ascii_chars;

verus! {

#[verifier::external_type_specification]
#[verifier::external_body]
pub struct ExUuid(Uuid);

/// SHA-256 digest of `data` (32 bytes).
pub uninterp spec fn sha256(data: Seq<u8>) -> Seq<u8>;

/// HMAC-SHA256 of `data` under `key` (32 bytes; a key of any length).
pub uninterp spec fn hmac_sha256(key: Seq<u8>, data: Seq<u8>) -> Seq<u8>;

/// The 16 bytes of a UUID, as `Uuid::as_bytes` hands them out.
pub uninterp spec fn uuid_bytes(u: Uuid) -> Seq<u8>;

/// The lowercase hex digit of a nibble.
pub open spec fn hex_digit(n: u8) -> char
    recommends
        n < 16,
{
    if n < 10 {
        (48 + n) as char
    } else {
        (87 + n) as char
    }
}

/// Lowercase hex encoding: two digits per byte, high nibble first.
pub open spec fn hex_lower(b: Seq<u8>) -> Seq<char>
    decreases b.len(),
{
    if b.len() == 0 {
        Seq::empty()
    } else {
        seq![hex_digit(b[0] / 16), hex_digit(b[0] % 16)] + hex_lower(b.drop_first())
    }
}

/// The value of one hex digit, in either case.
pub open spec fn hex_value(c: u8) -> Option<u8> {
    if 48 <= c <= 57 {
        Some((c - 48) as u8)
    } else if 97 <= c <= 102 {
        Some((c - 87) as u8)
    } else if 65 <= c <= 70 {
        Some((c - 55) as u8)
    } else {
        None
    }
}

/// Hex decoding of a byte string: `None` for an odd length or a non-hex byte.
pub open spec fn hex_decode(s: Seq<u8>) -> Option<Seq<u8>>
    decreases s.len(),
{
    if s.len() == 0 {
        Some(Seq::empty())
    } else if s.len() == 1 {
        None
    } else {
        match (hex_value(s[0]), hex_value(s[1]), hex_decode(s.skip(2))) {
            (Some(hi), Some(lo), Some(rest)) => Some(seq![(hi * 16 + lo) as u8] + rest),
            _ => None,
        }
    }
}

/// The text of a signature: the hex encoding of the HMAC of `data` under `key`.
pub open spec fn tag_text(key: Seq<u8>, data: Seq<u8>) -> Seq<char> {
    hex_lower(hmac_sha256(key, data))
}

/// The bytes of an all-ASCII character sequence.
pub open spec fn ascii_bytes(s: Seq<char>) -> Seq<u8> {
    Seq::new(s.len(), |i: int| s[i] as u8)
}

/// Whether `tag` is accepted as the signature of `data` under `key`.
pub open spec fn signature_valid(key: Seq<u8>, data: Seq<u8>, tag: Seq<char>) -> bool {
    tag == tag_text(key, data)
}

/// Whether the bytes of `reply` are accepted as the answer to a challenge whose bytes are
/// `challenge`, under `key`.
pub open spec fn reply_valid(key: Seq<u8>, challenge: Seq<u8>, reply: Seq<u8>) -> bool {
    hex_decode(reply) == Some(hmac_sha256(key, challenge))
}

proof fn lemma_hex_digit(n: u8)
    requires
        n < 16,
    ensures
        hex_value(hex_digit(n) as u8) == Some(n),
        '\0' <= hex_digit(n) <= '\u{7f}',
{
}

/// Hex encoding is ASCII, twice as long as its input, and decodes back to the input.
pub proof fn lemma_hex_roundtrip(b: Seq<u8>)
    ensures
        hex_lower(b).len() == 2 * b.len(),
        is_ascii_chars(hex_lower(b)),
        hex_decode(ascii_bytes(hex_lower(b))) == Some(b),
    decreases b.len(),
{
    if b.len() > 0 {
        let hi = b[0] / 16;
        let lo = b[0] % 16;
        lemma_hex_digit(hi);
        lemma_hex_digit(lo);
        lemma_hex_roundtrip(b.drop_first());
        let h = hex_lower(b);
        let t = hex_lower(b.drop_first());
        assert(h == seq![hex_digit(hi), hex_digit(lo)] + t);
        let a = ascii_bytes(h);
        assert(a.skip(2) =~= ascii_bytes(t));
        assert(a[0] == hex_digit(hi) as u8);
        assert(a[1] == hex_digit(lo) as u8);
        assert((hi * 16 + lo) as u8 == b[0]);
        assert(seq![b[0]] + b.drop_first() =~= b);
        assert forall|i| 0 <= i < h.len() implies '\0' <= #[trigger] h[i] <= '\u{7f}' by {
            if i >= 2 {
                assert(h[i] == t[i - 2]);
            }
        }
    }
}

/// Signing law: `verify` accepts exactly the tag that `sign` produces for the same data.
pub proof fn lemma_sign_then_verify(key: Seq<u8>, data: Seq<u8>, tag: Seq<char>)
    ensures
        signature_valid(key, data, tag_text(key, data)),
        signature_valid(key, data, tag) ==> tag == tag_text(key, data),
{
}

/// Challenge law: `validate` accepts the reply that `answer` produces for the same challenge.
pub proof fn lemma_answer_then_validate(key: Seq<u8>, challenge: Seq<u8>, reply: &str)
    requires
        reply@ == tag_text(key, challenge),
    ensures
        reply_valid(key, challenge, reply.spec_bytes()),
{
    lemma_hex_roundtrip(hmac_sha256(key, challenge));
    vstd::utf8::is_ascii_chars_encode_utf8(reply@);
    assert(reply.spec_bytes() =~= ascii_bytes(reply@));
}

/// `Sha256::new().chain_update(data).finalize()`: the digest of `data`.
#[verifier::external_body]
fn sha256_digest(data: &[u8]) -> (d: [u8; 32])
    ensures
        d@ == sha256(data@),
{
    Sha256::new().chain_update(data).finalize().into()
}

/// HMAC-SHA256 through `Hmac::<Sha256>::new_from_slice(key)`, `update(data)`, `finalize()`:
/// the tag of `data` under `key`. `new_from_slice` accepts keys of any length.
#[verifier::external_body]
fn hmac_sha256_tag(key: &[u8], data: &[u8]) -> (t: [u8; 32])
    ensures
        t@ == hmac_sha256(key@, data@),
{
    let mut mac = Hmac::<Sha256>::new_from_slice(key).expect("HMAC accepts any key size");
    mac.update(data);
    mac.finalize().into_bytes().into()
}

/// `Mac::verify_slice` on an HMAC-SHA256 keyed with `key` and fed `data`: true exactly when
/// `tag` is the full 32-byte tag (a shorter or longer slice is rejected).
#[verifier::external_body]
fn hmac_sha256_verify(key: &[u8], data: &[u8], tag: &[u8]) -> (ok: bool)
    ensures
        ok == (tag@ == hmac_sha256(key@, data@)),
{
    let mut mac = Hmac::<Sha256>::new_from_slice(key).expect("HMAC accepts any key size");
    mac.update(data);
    mac.verify_slice(tag).is_ok()
}

/// `hex::encode`: lowercase hex, two characters per byte.
#[verifier::external_body]
fn hex_encode(data: &[u8]) -> (s: String)
    ensures
        s@ == hex_lower(data@),
{
    hex::encode(data)
}

/// `hex::decode`: the bytes that a hex string (either case) spells, or an error for an odd
/// length or a non-hex byte.
#[verifier::external_body]
fn hex_decode_bytes(s: &[u8]) -> (r: Option<Vec<u8>>)
    ensures
        match r {
            Some(v) => hex_decode(s@) == Some(v@),
            None => hex_decode(s@) is None,
        },
{
    hex::decode(s).ok()
}

/// `Uuid::as_bytes`: the 16 bytes of the UUID.
#[verifier::external_body]
fn uuid_as_bytes(u: &Uuid) -> (b: [u8; 16])
    ensures
        b@ == uuid_bytes(*u),
{
    *u.as_bytes()
}

/// Error of a failed signature check.
#[derive(Debug, PartialEq, Eq, Structural)]
pub enum AuthError {
    InvalidSecret,
}

impl AuthError {
    /// Human-readable description of the error.
    pub fn message(&self) -> (s: String)
        ensures
            s@ == "invalid secret"@,
    {
        String::from_str("invalid secret")
    }
}

/// Authenticates clients that share a secret.
///
/// Tags are HMAC-SHA256 keyed with the secret's bytes. SHA256(secret) is kept apart as a
/// stable tenant namespace identifier (the fingerprint).
pub struct Authenticator {
    key: Vec<u8>,
    fingerprint: [u8; 32],
}

impl View for Authenticator {
    type V = Seq<u8>;

    /// The MAC key: the bytes of the secret.
    closed spec fn view(&self) -> Seq<u8> {
        self.key@
    }
}

impl Authenticator {
    /// The fingerprint is the digest of the key.
    #[verifier::type_invariant]
    spec fn fingerprint_matches_key(&self) -> bool {
        self.fingerprint@ == sha256(self.key@)
    }

    /// Generates an authenticator from a secret.
    pub fn new(secret: &str) -> (a: Self)
        ensures
            a@ == secret.spec_bytes(),
    {
        let fingerprint = sha256_digest(secret.as_bytes());
        let key = secret.as_bytes_vec();
        Authenticator { key, fingerprint }
    }

    /// SHA256(secret): scopes service visibility to callers sharing the same secret.
    pub fn fingerprint(&self) -> (fp: [u8; 32])
        ensures
            fp@ == sha256(self@),
    {
        proof {
            use_type_invariant(self);
        }
        self.fingerprint
    }

    /// Generates a reply to a challenge: the hex HMAC of the challenge's 16 bytes.
    pub fn answer(&self, challenge: &Uuid) -> (reply: String)
        ensures
            reply@ == tag_text(self@, uuid_bytes(*challenge)),
    {
        let bytes = uuid_as_bytes(challenge);
        let tag = hmac_sha256_tag(self.key.as_slice(), &bytes);
        hex_encode(&tag)
    }

    /// Generates the hex HMAC tag of arbitrary bytes.
    pub fn sign(&self, data: &[u8]) -> (tag: String)
        ensures
            tag@ == tag_text(self@, data@),
    {
        let t = hmac_sha256_tag(self.key.as_slice(), data);
        hex_encode(&t)
    }

    /// Validates a hex HMAC tag over arbitrary bytes: accepted exactly when it equals the
    /// tag that `sign` gives.
    pub fn verify(&self, data: &[u8], tag: &str) -> (r: Result<(), AuthError>)
        ensures
            r is Ok <==> signature_valid(self@, data@, tag@),
            r is Err ==> r == Err::<(), AuthError>(AuthError::InvalidSecret),
    {
        let expected = self.sign(data);
        let given = tag.to_owned();
        if expected == given {
            Ok(())
        } else {
            Err(AuthError::InvalidSecret)
        }
    }

    /// Validates a reply to a challenge: true exactly when the reply is hex (either case)
    /// for the challenge's HMAC tag.
    pub fn validate(&self, challenge: &Uuid, tag: &str) -> (ok: bool)
        ensures
            ok == reply_valid(self@, uuid_bytes(*challenge), tag.spec_bytes()),
    {
        match hex_decode_bytes(tag.as_bytes()) {
            Some(tag_bytes) => {
                let bytes = uuid_as_bytes(challenge);
                hmac_sha256_verify(self.key.as_slice(), &bytes, &tag_bytes)
            },
            None => false,
        }
    }
}

} // verus!
