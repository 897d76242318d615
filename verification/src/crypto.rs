use vstd::prelude::*;

use hmac::Mac;
use sha2::Digest;

verus! {

/// The SHA-1 digest of `m`.
pub uninterp spec fn sha1_of(m: Seq<u8>) -> Seq<u8>;

/// The SHA-256 digest of `m`.
pub uninterp spec fn sha256_of(m: Seq<u8>) -> Seq<u8>;

/// The SHA-512 digest of `m`.
pub uninterp spec fn sha512_of(m: Seq<u8>) -> Seq<u8>;

/// The HMAC-SHA1 tag of `message` under `key`.
pub uninterp spec fn hmac_sha1_of(key: Seq<u8>, message: Seq<u8>) -> Seq<u8>;

/// The first 16 bytes that PBKDF2 with HMAC-SHA1 derives from `password`,
/// `salt` and `rounds`.
pub uninterp spec fn pbkdf2_sha1_16_of(password: Seq<u8>, salt: Seq<u8>, rounds: u32) -> Seq<u8>;

/// `sha1::Sha1::digest`: named by `sha1_of`; the crate's output type fixes
/// its length at 20 bytes.
#[verifier::external_body]
pub(crate) fn sha1_digest(m: &[u8]) -> (res: Vec<u8>)
    ensures
        res@ == sha1_of(m@),
        res@.len() == 20,
{
    sha1::Sha1::digest(m).to_vec()
}

/// `sha2::Sha256::digest`: named by `sha256_of`; 32 bytes long.
#[verifier::external_body]
pub(crate) fn sha256_digest(m: &[u8]) -> (res: Vec<u8>)
    ensures
        res@ == sha256_of(m@),
        res@.len() == 32,
{
    sha2::Sha256::digest(m).to_vec()
}

/// `sha2::Sha512::digest`: named by `sha512_of`; 64 bytes long.
#[verifier::external_body]
pub(crate) fn sha512_digest(m: &[u8]) -> (res: Vec<u8>)
    ensures
        res@ == sha512_of(m@),
        res@.len() == 64,
{
    sha2::Sha512::digest(m).to_vec()
}

/// `hmac::Hmac::<sha1::Sha1>` keyed with `key`, fed `message`, finalized:
/// named by `hmac_sha1_of`; 20 bytes long. The crate accepts keys of any
/// length, so the key never fails.
#[verifier::external_body]
pub(crate) fn hmac_sha1_tag(key: &[u8], message: &[u8]) -> (res: Vec<u8>)
    ensures
        res@ == hmac_sha1_of(key@, message@),
        res@.len() == 20,
{
    let mut mac = hmac::Hmac::<sha1::Sha1>::new_from_slice(key).expect("Invalid key length");
    mac.update(message);
    mac.finalize().into_bytes().to_vec()
}

/// `pbkdf2::pbkdf2_hmac_array::<sha1::Sha1, 16>`: named by
/// `pbkdf2_sha1_16_of`; 16 bytes long.
#[verifier::external_body]
pub(crate) fn pbkdf2_sha1_16(password: &[u8], salt: &[u8], rounds: u32) -> (res: Vec<u8>)
    ensures
        res@ == pbkdf2_sha1_16_of(password@, salt@, rounds),
        res@.len() == 16,
{
    pbkdf2::pbkdf2_hmac_array::<sha1::Sha1, 16>(password, salt, rounds).to_vec()
}

/// The character of the value `v` (below 64) in the URL-safe base64 alphabet.
pub open spec fn base64_url_char(v: int) -> char {
    if v < 26 {
        (65 + v) as char
    } else if v < 52 {
        (97 + v - 26) as char
    } else if v < 62 {
        (48 + v - 52) as char
    } else if v == 62 {
        '-'
    } else {
        '_'
    }
}

/// The URL-safe base64 encoding of `b`, without padding (RFC 4648, section 5):
/// each group of three bytes gives four characters, a final group of two
/// bytes three characters, a final single byte two characters.
pub open spec fn base64_url_nopad(b: Seq<u8>) -> Seq<char>
    decreases b.len(),
{
    let b0 = if b.len() > 0 { b[0] as int } else { 0 };
    let b1 = if b.len() > 1 { b[1] as int } else { 0 };
    let b2 = if b.len() > 2 { b[2] as int } else { 0 };
    if b.len() == 0 {
        seq![]
    } else if b.len() == 1 {
        seq![base64_url_char(b0 / 4), base64_url_char((b0 % 4) * 16)]
    } else if b.len() == 2 {
        seq![
            base64_url_char(b0 / 4),
            base64_url_char((b0 % 4) * 16 + b1 / 16),
            base64_url_char((b1 % 16) * 4),
        ]
    } else {
        seq![
            base64_url_char(b0 / 4),
            base64_url_char((b0 % 4) * 16 + b1 / 16),
            base64_url_char((b1 % 16) * 4 + b2 / 64),
            base64_url_char(b2 % 64),
        ] + base64_url_nopad(b.skip(3))
    }
}

/// `base64::engine::general_purpose::URL_SAFE_NO_PAD.encode`: the URL-safe
/// alphabet, no padding.
#[verifier::external_body]
pub(crate) fn base64_url_encode(b: &[u8]) -> (res: String)
    ensures
        res@ == base64_url_nopad(b@),
{
    base64::Engine::encode(&base64::engine::general_purpose::URL_SAFE_NO_PAD, b)
}

} // verus!
