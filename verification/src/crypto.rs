//! Password-based authenticated encryption of queue blobs.
//!
//! A blob is `base64(salt ‖ nonce ‖ sealed)` with a 16-byte salt, a 12-byte
//! nonce, and `sealed` the AES-256-GCM ciphertext-plus-tag of the UTF-8
//! plaintext under the key PBKDF2-HMAC-SHA-256(password, salt, 1 round).
//! The outside primitives stand behind named results; everything around them
//! (framing, splitting, composition) is verified.

use vstd::prelude::*;
use vstd::slice::slice_subrange;
use base64::Engine;
use aes_gcm::aead::Aead;
use aes_gcm::KeyInit;

verus! {

/// The 32-byte key PBKDF2-HMAC-SHA-256 derives.
pub uninterp spec fn pbkdf2_sha256_of(password: Seq<u8>, salt: Seq<u8>, rounds: u32) -> Seq<u8>;

/// AES-256-GCM ciphertext-plus-tag for a key, nonce and plaintext.
pub uninterp spec fn aes_gcm_seal_of(key: Seq<u8>, nonce: Seq<u8>, plaintext: Seq<u8>) -> Seq<u8>;

/// AES-256-GCM authenticated decryption; `None` when authentication fails.
pub uninterp spec fn aes_gcm_open_of(key: Seq<u8>, nonce: Seq<u8>, ciphertext: Seq<u8>) -> Option<
    Seq<u8>,
>;

/// Standard-alphabet, padded base64 of a byte string.
pub uninterp spec fn b64_encode_of(bytes: Seq<u8>) -> Seq<char>;

/// Standard-alphabet, padded base64 decoding; `None` on malformed input.
pub uninterp spec fn b64_decode_of(text: Seq<char>) -> Option<Seq<u8>>;

/// UTF-8 decoding of a byte string; `None` on invalid UTF-8.
pub uninterp spec fn utf8_of(bytes: Seq<u8>) -> Option<Seq<char>>;

/// The UTF-8 bytes of a character string.
pub uninterp spec fn utf8_bytes_of(text: Seq<char>) -> Seq<u8>;

/// Relies on pbkdf2::pbkdf2_hmac with sha2::Sha256: the derived key is a
/// function of password, salt and round count alone, filling the output
/// buffer (32 bytes here) completely.
#[verifier::external_body]
fn pbkdf2_sha256(password: &[u8], salt: &[u8], rounds: u32) -> (r: Vec<u8>)
    requires
        rounds >= 1,
    ensures
        r@ == pbkdf2_sha256_of(password@, salt@, rounds),
        r@.len() == 32,
{
    let mut out = [0u8; 32];
    pbkdf2::pbkdf2_hmac::<sha2::Sha256>(password, salt, rounds, &mut out);
    out.to_vec()
}

/// Relies on aes_gcm::Aes256Gcm through aead::Aead::encrypt: with the key and
/// nonce fixed, the ciphertext is a function of the plaintext; the appended
/// tag makes it 16 bytes longer, and decrypting with the same key and nonce
/// returns the plaintext (the documented AEAD round trip).
#[verifier::external_body]
fn aes256_gcm_seal(key: &[u8], nonce: &[u8], plaintext: &[u8]) -> (r: Vec<u8>)
    requires
        key@.len() == 32,
        nonce@.len() == 12,
        plaintext@.len() <= 0x1000000000 - 32,
    ensures
        r@ == aes_gcm_seal_of(key@, nonce@, plaintext@),
        r@.len() == plaintext@.len() + 16,
        aes_gcm_open_of(key@, nonce@, r@) == Some(plaintext@),
{
    let cipher = aes_gcm::Aes256Gcm::new_from_slice(key).unwrap();
    let n = nonce.try_into().unwrap();
    cipher.encrypt(n, plaintext).unwrap()
}

/// Relies on aes_gcm::Aes256Gcm through aead::Aead::decrypt: authenticated
/// decryption is a function of key, nonce and ciphertext, failing exactly
/// when the tag does not authenticate.
#[verifier::external_body]
fn aes256_gcm_open(key: &[u8], nonce: &[u8], ciphertext: &[u8]) -> (r: Option<Vec<u8>>)
    requires
        key@.len() == 32,
        nonce@.len() == 12,
    ensures
        match r {
            Some(p) => aes_gcm_open_of(key@, nonce@, ciphertext@) == Some(p@),
            None => aes_gcm_open_of(key@, nonce@, ciphertext@) is None,
        },
{
    let cipher = aes_gcm::Aes256Gcm::new_from_slice(key).unwrap();
    let n = nonce.try_into().unwrap();
    cipher.decrypt(n, ciphertext).ok()
}

/// Relies on base64's standard padded engine: encoding is a function of the
/// bytes, and the same engine's decode inverts it.
#[verifier::external_body]
fn base64_encode(bytes: &[u8]) -> (r: String)
    ensures
        r@ == b64_encode_of(bytes@),
        b64_decode_of(r@) == Some(bytes@),
{
    base64::engine::general_purpose::STANDARD.encode(bytes)
}

/// Relies on base64's standard padded engine: decoding is a function of the
/// text, failing on input outside the alphabet or padding.
#[verifier::external_body]
fn base64_decode(text: &str) -> (r: Option<Vec<u8>>)
    ensures
        match r {
            Some(b) => b64_decode_of(text@) == Some(b@),
            None => b64_decode_of(text@) is None,
        },
{
    base64::engine::general_purpose::STANDARD.decode(text).ok()
}

/// Relies on String::from_utf8: UTF-8 decoding is a function of the bytes,
/// failing exactly on invalid UTF-8.
#[verifier::external_body]
fn utf8_to_string(bytes: Vec<u8>) -> (r: Option<String>)
    ensures
        match r {
            Some(s) => utf8_of(bytes@) == Some(s@),
            None => utf8_of(bytes@) is None,
        },
{
    String::from_utf8(bytes).ok()
}

/// Relies on str::as_bytes: a string's UTF-8 bytes are a function of its
/// characters, at most four bytes per character, and String::from_utf8
/// decodes them back (the documented UTF-8 round trip).
#[verifier::external_body]
fn string_to_bytes(text: &str) -> (r: Vec<u8>)
    ensures
        r@ == utf8_bytes_of(text@),
        r@.len() <= 4 * text@.len(),
        utf8_of(r@) == Some(text@),
{
    text.as_bytes().to_vec()
}

/// What decrypting one queue blob with a password yields: base64, the
/// salt/nonce/ciphertext split, key derivation, authenticated decryption,
/// and UTF-8 decoding, in that order.
pub open spec fn decrypt_blob_spec(password: Seq<char>, blob: Seq<char>) -> Option<Seq<char>> {
    match b64_decode_of(blob) {
        None => None,
        Some(raw) => if raw.len() < 28 {
            None
        } else {
            let salt = raw.subrange(0, 16);
            let nonce = raw.subrange(16, 28);
            let ct = raw.subrange(28, raw.len() as int);
            let key = pbkdf2_sha256_of(utf8_bytes_of(password), salt, 1);
            match aes_gcm_open_of(key, nonce, ct) {
                None => None,
                Some(pt) => utf8_of(pt),
            }
        },
    }
}

/// Decrypts one queue blob with the password-derived key.
pub fn aes_gcm_decrypt(password: &str, blob: &str) -> (r: Option<String>)
    ensures
        match r {
            Some(s) => decrypt_blob_spec(password@, blob@) == Some(s@),
            None => decrypt_blob_spec(password@, blob@) is None,
        },
{
    let raw = match base64_decode(blob) {
        Some(raw) => raw,
        None => {
            return None;
        },
    };
    if raw.len() < 28 {
        return None;
    }
    let rs = raw.as_slice();
    let salt = slice_subrange(rs, 0, 16);
    let nonce = slice_subrange(rs, 16, 28);
    let ct = slice_subrange(rs, 28, raw.len());
    let pw = string_to_bytes(password);
    let key = pbkdf2_sha256(pw.as_slice(), salt, 1);
    let pt = match aes256_gcm_open(key.as_slice(), nonce, ct) {
        Some(pt) => pt,
        None => {
            return None;
        },
    };
    utf8_to_string(pt)
}

/// What encrypting a plaintext with a password, salt and nonce yields.
pub open spec fn encrypt_blob_spec(
    password: Seq<char>,
    salt: Seq<u8>,
    nonce: Seq<u8>,
    plaintext: Seq<char>,
) -> Seq<char> {
    b64_encode_of(
        salt + nonce + aes_gcm_seal_of(
            pbkdf2_sha256_of(utf8_bytes_of(password), salt, 1),
            nonce,
            utf8_bytes_of(plaintext),
        ),
    )
}

/// Encrypts a plaintext into a queue blob. Decrypting the result with the
/// same password yields the plaintext back.
pub fn aes_gcm_encrypt(password: &str, salt: &[u8], nonce: &[u8], plaintext: &str) -> (r: String)
    requires
        salt@.len() == 16,
        nonce@.len() == 12,
        plaintext@.len() < 0x40000000,
    ensures
        r@ == encrypt_blob_spec(password@, salt@, nonce@, plaintext@),
        decrypt_blob_spec(password@, r@) == Some(plaintext@),
{
    let pw = string_to_bytes(password);
    let key = pbkdf2_sha256(pw.as_slice(), salt, 1);
    let pt = string_to_bytes(plaintext);
    let sealed = aes256_gcm_seal(key.as_slice(), nonce, pt.as_slice());
    let mut raw: Vec<u8> = Vec::new();
    raw.extend_from_slice(salt);
    raw.extend_from_slice(nonce);
    raw.extend_from_slice(sealed.as_slice());
    proof {
        assert(raw@ =~= salt@ + nonce@ + sealed@);
        assert(raw@.subrange(0, 16) =~= salt@);
        assert(raw@.subrange(16, 28) =~= nonce@);
        assert(raw@.subrange(28, raw@.len() as int) =~= sealed@);
    }
    let r = base64_encode(raw.as_slice());
    r
}

} // verus!
