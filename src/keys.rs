use vstd::prelude::*;

use crate::error::{SnekcloudError, SnekcloudResult};

verus! {

pub const PRIVATE_KEY_HEADER_LINE: &'static str = "---BEGIN-SNEKCLOUD-PRIVATE-KEY---\n";
pub const PRIVATE_KEY_FOOTER_LINE: &'static str = "\n---END-SNEKCLOUD-PRIVATE-KEY---";
pub const PUBLIC_KEY_HEADER_LINE: &'static str = "---BEGIN-SNEKCLOUD-PUBLIC-KEY---\n";
pub const PUBLIC_KEY_FOOTER_LINE: &'static str = "\n---END-SNEKCLOUD-PUBLIC-KEY---";

/// Length in bytes of a public or a private key.
pub const KEY_SIZE: usize = 32;

/// The text that base64's standard (padded) encoder produces for `bytes`.
pub uninterp spec fn base64_encoding_of(bytes: Seq<u8>) -> Seq<char>;

/// The bytes that base64's standard decoder reads from `text`, or `None`
/// where it rejects the text.
pub uninterp spec fn base64_decoding_of(text: Seq<char>) -> Option<Seq<u8>>;

/// The X25519 public key that belongs to the secret key `secret`.
pub uninterp spec fn x25519_public_key_of(secret: Seq<u8>) -> Seq<u8>;

/// Relies on `base64::encode`: the standard padded encoding of the bytes,
/// which `base64::decode` reads back to the same bytes.
#[verifier::external_body]
pub(crate) fn base64_encode(bytes: &[u8]) -> (r: String)
    ensures
        r@ == base64_encoding_of(bytes@),
        base64_decoding_of(r@) == Some(bytes@),
{
    base64::encode(bytes)
}

/// Relies on `base64::decode`: the bytes that the text encodes in the
/// standard alphabet, or the error that rejects it.
#[verifier::external_body]
fn base64_decode(text: &str) -> (r: Result<Vec<u8>, base64::DecodeError>)
    ensures
        match r {
            Ok(v) => base64_decoding_of(text@) == Some(v@),
            Err(_) => base64_decoding_of(text@) is None,
        },
{
    base64::decode(text)
}

/// Relies on `crypto_box::SecretKey::public_key`: the X25519 public key of
/// the secret key, which depends on the secret's bytes alone.
#[verifier::external_body]
pub(crate) fn public_key_of(secret: [u8; 32]) -> (r: [u8; 32])
    ensures
        r@ == x25519_public_key_of(secret@),
{
    *vented::stream::SecretKey::from(secret).public_key().as_bytes()
}

/// Relies on `crypto_box::SecretKey::generate` fed by rand's thread-local
/// generator: a fresh random private key.
#[verifier::external_body]
pub fn generate_private_key() -> (r: [u8; 32]) {
    vented::stream::SecretKey::generate(&mut rand::thread_rng()).to_bytes()
}

/// The armored text of `key` between `prefix` and `suffix`.
pub open spec fn armored(prefix: Seq<char>, key: Seq<u8>, suffix: Seq<char>) -> Seq<char> {
    prefix + base64_encoding_of(key) + suffix
}

/// The text between the exact `prefix` and the exact `suffix` of `content`,
/// if `content` starts with the one and ends with the other.
pub open spec fn armor_body(content: Seq<char>, prefix: Seq<char>, suffix: Seq<char>) -> Option<
    Seq<char>,
> {
    if content.len() >= prefix.len() + suffix.len() && content.subrange(0, prefix.len() as int)
        == prefix && content.subrange(content.len() - suffix.len(), content.len() as int)
        == suffix {
        Some(content.subrange(prefix.len() as int, content.len() - suffix.len()))
    } else {
        None
    }
}

/// Whether the armor of `content` is in place but its body is no base64.
pub open spec fn body_rejected(content: Seq<char>, prefix: Seq<char>, suffix: Seq<char>) -> bool {
    match armor_body(content, prefix, suffix) {
        Some(body) => base64_decoding_of(body) is None,
        None => false,
    }
}

/// The key that `content` holds in the armor `prefix` ... `suffix`: the
/// decoded body, where it is exactly `KEY_SIZE` bytes long.
pub open spec fn unarmored(content: Seq<char>, prefix: Seq<char>, suffix: Seq<char>) -> Option<
    Seq<u8>,
> {
    match armor_body(content, prefix, suffix) {
        Some(body) => match base64_decoding_of(body) {
            Some(bytes) => if bytes.len() == KEY_SIZE {
                Some(bytes)
            } else {
                None
            },
            None => None,
        },
        None => None,
    }
}

/// The outcome of reading a key from `content`: the key, a base64 error
/// where the body cannot be decoded, and `InvalidKey` otherwise.
pub open spec fn extracted(
    r: SnekcloudResult<[u8; 32]>,
    content: Seq<char>,
    prefix: Seq<char>,
    suffix: Seq<char>,
) -> bool {
    match r {
        Ok(k) => unarmored(content, prefix, suffix) == Some(k@),
        Err(e) => {
            &&& unarmored(content, prefix, suffix) is None
            &&& (e is Base64DecodeError <==> body_rejected(content, prefix, suffix))
            &&& (e is InvalidKey <==> !body_rejected(content, prefix, suffix))
        },
    }
}

/// Whether `a` and `b` hold the same characters.
fn same_text(a: &str, b: &str) -> (r: bool)
    ensures
        r == (a@ == b@),
{
    String::from_str(a) == String::from_str(b)
}

/// Reads the private key from its armored text.
pub fn extract_private_key(content: &str) -> (r: SnekcloudResult<[u8; 32]>)
    ensures
        extracted(r, content@, PRIVATE_KEY_HEADER_LINE@, PRIVATE_KEY_FOOTER_LINE@),
{
    extract_key(content, PRIVATE_KEY_HEADER_LINE, PRIVATE_KEY_FOOTER_LINE)
}

/// Reads the public key from its armored text.
pub fn extract_public_key(content: &str) -> (r: SnekcloudResult<[u8; 32]>)
    ensures
        extracted(r, content@, PUBLIC_KEY_HEADER_LINE@, PUBLIC_KEY_FOOTER_LINE@),
{
    extract_key(content, PUBLIC_KEY_HEADER_LINE, PUBLIC_KEY_FOOTER_LINE)
}

/// Extracts a base64 encoded key between the prefix and the suffix.
pub fn extract_key(content: &str, prefix: &str, suffix: &str) -> (r: SnekcloudResult<[u8; 32]>)
    ensures
        extracted(r, content@, prefix@, suffix@),
{
    let n = content.unicode_len();
    let p = prefix.unicode_len();
    let s = suffix.unicode_len();
    if n < p || n - p < s {
        return Err(SnekcloudError::InvalidKey);
    }
    let head = content.substring_char(0, p);
    let tail = content.substring_char(n - s, n);
    if !same_text(head, prefix) || !same_text(tail, suffix) {
        return Err(SnekcloudError::InvalidKey);
    }
    let body = content.substring_char(p, n - s);
    match base64_decode(body) {
        Err(e) => Err(SnekcloudError::Base64DecodeError(e)),
        Ok(bytes) => {
            if bytes.len() != KEY_SIZE {
                return Err(SnekcloudError::InvalidKey);
            }
            let mut key = [0u8; 32];
            let mut i: usize = 0;
            while i < KEY_SIZE
                invariant
                    bytes@.len() == KEY_SIZE,
                    i <= KEY_SIZE,
                    key@.len() == KEY_SIZE,
                    forall|j: int| 0 <= j < i ==> key@[j] == bytes@[j],
                decreases KEY_SIZE - i,
            {
                key[i] = bytes[i];
                i = i + 1;
            }
            assert(key@ =~= bytes@);
            Ok(key)
        },
    }
}

/// Encodes and encases the public key for text representation; the text
/// reads back to the same key.
pub fn armor_public_key(key: [u8; 32]) -> (r: String)
    ensures
        r@ == armored(PUBLIC_KEY_HEADER_LINE@, key@, PUBLIC_KEY_FOOTER_LINE@),
        unarmored(r@, PUBLIC_KEY_HEADER_LINE@, PUBLIC_KEY_FOOTER_LINE@) == Some(key@),
{
    armor_key(key, PUBLIC_KEY_HEADER_LINE, PUBLIC_KEY_FOOTER_LINE)
}

/// Encodes and encases the private key for text representation; the text
/// reads back to the same key.
pub fn armor_private_key(key: [u8; 32]) -> (r: String)
    ensures
        r@ == armored(PRIVATE_KEY_HEADER_LINE@, key@, PRIVATE_KEY_FOOTER_LINE@),
        unarmored(r@, PRIVATE_KEY_HEADER_LINE@, PRIVATE_KEY_FOOTER_LINE@) == Some(key@),
{
    armor_key(key, PRIVATE_KEY_HEADER_LINE, PRIVATE_KEY_FOOTER_LINE)
}

/// Returns an armored key.
fn armor_key(key: [u8; 32], prefix: &str, suffix: &str) -> (r: String)
    ensures
        r@ == armored(prefix@, key@, suffix@),
        unarmored(r@, prefix@, suffix@) == Some(key@),
{
    let encoded = base64_encode(&key);
    let r = String::from_str(prefix).concat(encoded.as_str()).concat(suffix);
    proof {
        let e = encoded@;
        let t = r@;
        assert(t.len() == prefix@.len() + e.len() + suffix@.len());
        assert(t.subrange(0, prefix@.len() as int) =~= prefix@);
        assert(t.subrange(t.len() - suffix@.len(), t.len() as int) =~= suffix@);
        assert(t.subrange(prefix@.len() as int, t.len() - suffix@.len()) =~= e);
    }
    r
}

} // verus!
