//! The cipher engine: OpenSSL-style salted key derivation and
//! AES-256-CBC.
//!
//! The source list arrives as a base64 blob whose bytes 8..16 are a
//! salt (bytes 0..8 are a conventional marker, skipped and not
//! validated). A 32-byte key and a 16-byte IV are derived from the
//! reconstructed secret and the salt by three chained MD5 rounds, and
//! the rest of the blob is decrypted with AES-256-CBC under PKCS#7
//! padding. A base64, padding or UTF-8 failure surfaces as a decryption
//! error, never as empty or garbage success.

use vstd::prelude::*;
use vstd::string::*;
use vstd::utf8::{decode_utf8, valid_utf8};

use crate::errors::AniRustError;
use crate::fetch::utf8_to_string;

verus! {

/// What `md5::compute` yields on a byte string.
pub uninterp spec fn md5_of(data: Seq<u8>) -> Seq<u8>;

/// What `base64::decode` yields on a string: the decoded bytes, or
/// `None` when the string is not standard base64.
pub uninterp spec fn base64_decode_of(s: Seq<char>) -> Option<Seq<u8>>;

/// What AES-256-CBC encryption with PKCS#7 padding yields.
pub uninterp spec fn aes256_cbc_encrypt_of(iv: Seq<u8>, key: Seq<u8>, data: Seq<u8>) -> Seq<u8>;

/// What AES-256-CBC decryption with PKCS#7 unpadding yields: the
/// plaintext, or `None` when the padding is invalid.
pub uninterp spec fn aes256_cbc_decrypt_of(iv: Seq<u8>, key: Seq<u8>, data: Seq<u8>) -> Option<
    Seq<u8>,
>;

/// Relies on `md5::compute`: a 16-byte digest, a function of the input
/// alone.
#[verifier::external_body]
pub fn md5_digest(data: &Vec<u8>) -> (r: Vec<u8>)
    ensures
        r@ == md5_of(data@),
        r@.len() == 16,
{
    md5::compute(data.as_slice()).0.to_vec()
}

/// Relies on `base64::decode`: decodes standard base64, erring exactly
/// on input that is not standard base64; the result is a function of the
/// input alone.
#[verifier::external_body]
pub fn base64_decode(s: &str) -> (r: Option<Vec<u8>>)
    ensures
        (r is None) == (base64_decode_of(s@) is None),
        r matches Some(v) ==> base64_decode_of(s@) == Some(v@),
{
    base64::decode(s).ok()
}

/// Relies on `openssl::symm::encrypt` with `Cipher::aes_256_cbc`:
/// deterministic in IV, key and plaintext; never fails for a 32-byte
/// key and 16-byte IV; and decrypting the result with the same key and
/// IV yields the plaintext back. The crate converts the data length to
/// a C `int` and panics beyond it, so inputs must stay under 2^31
/// bytes.
#[verifier::external_body]
pub fn encrypt_aes_256_cbc(iv: &[u8], key: &[u8], text: &[u8]) -> (r: Vec<u8>)
    requires
        iv@.len() == 16,
        key@.len() == 32,
        text@.len() < 0x8000_0000,
    ensures
        r@ == aes256_cbc_encrypt_of(iv@, key@, text@),
        aes256_cbc_decrypt_of(iv@, key@, r@) == Some(text@),
{
    openssl::symm::encrypt(openssl::symm::Cipher::aes_256_cbc(), key, Some(iv), text)
        .unwrap_or_default()
}

/// Relies on `openssl::symm::decrypt` with `Cipher::aes_256_cbc`:
/// deterministic in IV, key and ciphertext; errs exactly when the
/// padding of the decryption is invalid. The crate converts the data
/// length to a C `int` and panics beyond it, so inputs must stay under
/// 2^31 bytes.
#[verifier::external_body]
pub fn decrypt_aes_256_cbc(iv: &[u8], key: &[u8], encrypted_data: &[u8]) -> (r: Option<Vec<u8>>)
    requires
        iv@.len() == 16,
        key@.len() == 32,
        encrypted_data@.len() < 0x8000_0000,
    ensures
        (r is None) == (aes256_cbc_decrypt_of(iv@, key@, encrypted_data@) is None),
        r matches Some(v) ==> aes256_cbc_decrypt_of(iv@, key@, encrypted_data@) == Some(v@),
{
    openssl::symm::decrypt(openssl::symm::Cipher::aes_256_cbc(), key, Some(iv), encrypted_data)
        .ok()
}

/// The derived 32-byte key: `MD5(password||salt)` followed by
/// `MD5(MD5(password||salt)||password||salt)`.
pub open spec fn spec_derived_key(password: Seq<u8>, salt: Seq<u8>) -> Seq<u8> {
    md5_of(password + salt) + md5_of(md5_of(password + salt) + password + salt)
}

/// The derived 16-byte IV: a third MD5 round over the second digest.
pub open spec fn spec_derived_iv(password: Seq<u8>, salt: Seq<u8>) -> Seq<u8> {
    md5_of(md5_of(md5_of(password + salt) + password + salt) + password + salt)
}

/// Concatenates two byte strings.
pub fn concat_bytes(a: &Vec<u8>, b: &Vec<u8>) -> (r: Vec<u8>)
    ensures
        r@ == a@ + b@,
{
    let mut r: Vec<u8> = Vec::new();
    let mut i: usize = 0;
    let na = a.len();
    while i < na
        invariant
            na == a@.len(),
            i <= na,
            r@ == a@.subrange(0, i as int),
        decreases na - i,
    {
        r.push(a[i]);
        assert(r@ =~= a@.subrange(0, i + 1 as int));
        i = i + 1;
    }
    assert(r@ =~= a@);
    let nb = b.len();
    let mut j: usize = 0;
    while j < nb
        invariant
            nb == b@.len(),
            j <= nb,
            r@ == a@ + b@.subrange(0, j as int),
        decreases nb - j,
    {
        r.push(b[j]);
        assert(r@ =~= a@ + b@.subrange(0, j + 1 as int));
        j = j + 1;
    }
    assert(r@ =~= a@ + b@);
    r
}

/// Copies `v[from..to]` into a fresh byte vector.
pub fn copy_byte_range(v: &Vec<u8>, from: usize, to: usize) -> (r: Vec<u8>)
    requires
        from <= to <= v@.len(),
    ensures
        r@ == v@.subrange(from as int, to as int),
{
    let mut r: Vec<u8> = Vec::new();
    let mut i: usize = from;
    while i < to
        invariant
            from <= i <= to <= v@.len(),
            r@ == v@.subrange(from as int, i as int),
        decreases to - i,
    {
        r.push(v[i]);
        assert(r@ =~= v@.subrange(from as int, i + 1 as int));
        i = i + 1;
    }
    r
}

/// Derives the salted cipher material: a 32-byte key and a 16-byte IV,
/// from the password and the 8-byte salt via three chained MD5 rounds.
pub fn derive_key_iv(password: &Vec<u8>, salt: &Vec<u8>) -> (r: (Vec<u8>, Vec<u8>))
    ensures
        r.0@ == spec_derived_key(password@, salt@),
        r.1@ == spec_derived_iv(password@, salt@),
        r.0@.len() == 32,
        r.1@.len() == 16,
{
    let pwsalt = concat_bytes(password, salt);
    let d0 = md5_digest(&pwsalt);
    let d0pw = concat_bytes(&d0, &pwsalt);
    let d1 = md5_digest(&d0pw);
    let d1pw = concat_bytes(&d1, &pwsalt);
    let d2 = md5_digest(&d1pw);
    let key = concat_bytes(&d0, &d1);
    proof {
        assert(pwsalt@ == password@ + salt@);
        assert((md5_of(password@ + salt@) + password@) + salt@ =~= md5_of(password@ + salt@) + (
        password@ + salt@));
        assert((md5_of(md5_of(password@ + salt@) + password@ + salt@) + password@) + salt@
            =~= md5_of(md5_of(password@ + salt@) + password@ + salt@) + (password@ + salt@));
    }
    (key, d2)
}

/// Key derivation is deterministic: equal password and salt derive
/// equal cipher material.
pub proof fn lemma_derive_deterministic(p1: Seq<u8>, s1: Seq<u8>, p2: Seq<u8>, s2: Seq<u8>)
    requires
        p1 == p2,
        s1 == s2,
    ensures
        spec_derived_key(p1, s1) == spec_derived_key(p2, s2),
        spec_derived_iv(p1, s1) == spec_derived_iv(p2, s2),
{
}

/// What decrypting a salted base64 blob under a secret yields: `None`
/// on bad base64, a blob shorter than its 16-byte header, a ciphertext
/// at or over 2^31 bytes (past the cipher's C-length limit), bad
/// padding or non-UTF-8 plaintext; otherwise the plaintext text.
pub open spec fn spec_decrypt_salted(encrypted: Seq<char>, secret: Seq<u8>) -> Option<Seq<char>> {
    match base64_decode_of(encrypted) {
        None => None,
        Some(blob) => if blob.len() < 16 {
            None
        } else if blob.len() - 16 >= 0x8000_0000 {
            None
        } else {
            let salt = blob.subrange(8, 16);
            let key = spec_derived_key(secret, salt);
            let iv = spec_derived_iv(secret, salt);
            match aes256_cbc_decrypt_of(iv, key, blob.subrange(16, blob.len() as int)) {
                None => None,
                Some(p) => if valid_utf8(p) {
                    Some(decode_utf8(p))
                } else {
                    None
                },
            }
        },
    }
}

/// What decrypting a base64 blob under caller-supplied key bytes and IV
/// yields; material of the wrong size, or a ciphertext at or over 2^31
/// bytes (past the cipher's C-length limit), never decrypts.
/// Undecodable base64 stands for the empty ciphertext here, as the
/// embed's direct path treats it.
pub open spec fn spec_decrypt_direct(encrypted: Seq<char>, key: Seq<u8>, iv: Seq<u8>) -> Option<
    Seq<char>,
> {
    if key.len() == 32 && iv.len() == 16 {
        let contents = match base64_decode_of(encrypted) {
            None => Seq::<u8>::empty(),
            Some(c) => c,
        };
        if contents.len() >= 0x8000_0000 {
            None
        } else {
            match aes256_cbc_decrypt_of(iv, key, contents) {
                None => None,
                Some(p) => if valid_utf8(p) {
                    Some(decode_utf8(p))
                } else {
                    None
                },
            }
        }
    } else {
        None
    }
}

/// Decrypts a base64 source blob. With `maybe_iv` the secret's bytes
/// are the key and the IV is the caller's; without it the blob's own
/// salt and the secret derive the cipher material. Every failure along
/// the way is a decryption error.
pub fn decrypt(encrypted: &str, key_or_secret: &str, maybe_iv: Option<Vec<u8>>) -> (r: Result<
    String,
    AniRustError,
>)
    ensures
        ({
            let model = match maybe_iv {
                Some(iv) => spec_decrypt_direct(encrypted@, key_or_secret.spec_bytes(), iv@),
                None => spec_decrypt_salted(encrypted@, key_or_secret.spec_bytes()),
            };
            match model {
                Some(t) => r matches Ok(s) && s@ == t,
                None => r == Err::<String, AniRustError>(AniRustError::DecryptionFailed),
            }
        }),
{
    let secret_bytes = key_or_secret.as_bytes_vec();
    match maybe_iv {
        Some(iv) => {
            if secret_bytes.len() != 32 || iv.len() != 16 {
                return Err(AniRustError::DecryptionFailed);
            }
            let contents = match base64_decode(encrypted) {
                None => Vec::new(),
                Some(c) => c,
            };
            assert(contents@ == (match base64_decode_of(encrypted@) {
                None => Seq::<u8>::empty(),
                Some(c) => c,
            }));
            if contents.len() >= 0x8000_0000 {
                return Err(AniRustError::DecryptionFailed);
            }
            match decrypt_aes_256_cbc(iv.as_slice(), secret_bytes.as_slice(), contents.as_slice()) {
                None => Err(AniRustError::DecryptionFailed),
                Some(p) => {
                    match utf8_to_string(&p) {
                        None => Err(AniRustError::DecryptionFailed),
                        Some(s) => Ok(s),
                    }
                },
            }
        },
        None => {
            let blob = match base64_decode(encrypted) {
                None => {
                    return Err(AniRustError::DecryptionFailed);
                },
                Some(b) => b,
            };
            if blob.len() < 16 {
                return Err(AniRustError::DecryptionFailed);
            }
            if blob.len() - 16 >= 0x8000_0000 {
                return Err(AniRustError::DecryptionFailed);
            }
            let salt = copy_byte_range(&blob, 8, 16);
            let contents = copy_byte_range(&blob, 16, blob.len());
            let (key, iv) = derive_key_iv(&secret_bytes, &salt);
            match decrypt_aes_256_cbc(iv.as_slice(), key.as_slice(), contents.as_slice()) {
                None => Err(AniRustError::DecryptionFailed),
                Some(p) => {
                    match utf8_to_string(&p) {
                        None => Err(AniRustError::DecryptionFailed),
                        Some(s) => Ok(s),
                    }
                },
            }
        },
    }
}

} // verus!
