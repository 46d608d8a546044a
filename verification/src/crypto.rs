//! Trusted boundary to the cryptographic and encoding crates. Each wrapper
//! makes one outside computation available to verified code under a
//! contract; digests and MACs are named, not restated.
use vstd::prelude::*;

use hmac::Mac;
use sha2::Digest;

verus! {

/// HMAC-SHA-256 tag of a message under a key.
pub uninterp spec fn hmac_sha256_of(key: Seq<u8>, msg: Seq<u8>) -> Seq<u8>;

/// HMAC-SHA-512 tag of a message under a key.
pub uninterp spec fn hmac_sha512_of(key: Seq<u8>, msg: Seq<u8>) -> Seq<u8>;

/// SHA-256 digest of a message.
pub uninterp spec fn sha256_of(msg: Seq<u8>) -> Seq<u8>;

/// Standard base64 encoding of a byte string.
pub uninterp spec fn base64_enc_of(b: Seq<u8>) -> Seq<char>;

/// Standard base64 decoding of a string: `None` on text that is not valid
/// base64.
pub uninterp spec fn base64_dec_of(s: Seq<char>) -> Option<Seq<u8>>;

/// The lowercase hexadecimal digit for a value below sixteen.
pub open spec fn hex_digit(n: u8) -> char {
    if n < 10 {
        ((n + 48) as u8) as char
    } else {
        ((n + 87) as u8) as char
    }
}

/// Lowercase hexadecimal spelling of a byte string: two digits per byte,
/// high nibble first.
pub open spec fn hex_of(b: Seq<u8>) -> Seq<char> {
    Seq::new(
        b.len() * 2,
        |i: int|
            if i % 2 == 0 {
                hex_digit(b[i / 2] / 16)
            } else {
                hex_digit(b[i / 2] % 16)
            },
    )
}

/// Relies on hmac's `Hmac::<Sha256>::new_from_slice` (which accepts keys of
/// any length), `update` and `finalize`: the tag depends on key and message
/// alone and is one SHA-256 output, 32 bytes, long.
#[verifier::external_body]
pub fn hmac_sha256(key: &[u8], msg: &[u8]) -> (r: Vec<u8>)
    ensures
        r@ == hmac_sha256_of(key@, msg@),
        r@.len() == 32,
{
    let mut mac = hmac::Hmac::<sha2::Sha256>::new_from_slice(key).unwrap();
    mac.update(msg);
    mac.finalize().into_bytes().to_vec()
}

/// Relies on hmac's `Hmac::<Sha512>::new_from_slice` (which accepts keys of
/// any length), `update` and `finalize`: the tag depends on key and message
/// alone and is one SHA-512 output, 64 bytes, long.
#[verifier::external_body]
pub fn hmac_sha512(key: &[u8], msg: &[u8]) -> (r: Vec<u8>)
    ensures
        r@ == hmac_sha512_of(key@, msg@),
        r@.len() == 64,
{
    let mut mac = hmac::Hmac::<sha2::Sha512>::new_from_slice(key).unwrap();
    mac.update(msg);
    mac.finalize().into_bytes().to_vec()
}

/// Relies on sha2's `Sha256::digest`: the digest depends on the message
/// alone and is 32 bytes long.
#[verifier::external_body]
pub fn sha256(msg: &[u8]) -> (r: Vec<u8>)
    ensures
        r@ == sha256_of(msg@),
        r@.len() == 32,
{
    sha2::Sha256::digest(msg).to_vec()
}

/// Relies on hex's `encode`: lowercase, two digits per byte, high nibble
/// first.
#[verifier::external_body]
pub fn hex_encode(b: &[u8]) -> (r: String)
    ensures
        r@ == hex_of(b@),
{
    hex::encode(b)
}

/// Relies on base64's `encode`: the standard alphabet with padding, a
/// function of the input bytes alone.
#[verifier::external_body]
pub fn base64_encode(b: &[u8]) -> (r: String)
    ensures
        r@ == base64_enc_of(b@),
{
    base64::encode(b)
}

/// Relies on base64's `decode`: succeeds exactly on valid standard base64
/// and is a function of the input text alone.
#[verifier::external_body]
pub fn base64_decode(s: &str) -> (r: Option<Vec<u8>>)
    ensures
        (r is Some) == (base64_dec_of(s@) is Some),
        match r {
            Some(v) => base64_dec_of(s@) == Some(v@),
            None => true,
        },
{
    match base64::decode(s) {
        Ok(v) => Some(v),
        Err(_) => None,
    }
}

/// Relies on `String::from_utf8_lossy`: bytes below 128 decode to the
/// characters with the same code points.
#[verifier::external_body]
pub fn bytes_to_string(v: &Vec<u8>) -> (r: String)
    ensures
        (forall|i: int| 0 <= i < v@.len() ==> v@[i] < 128) ==> r@ == v@.map_values(
            |b: u8| b as char,
        ),
{
    String::from_utf8_lossy(v.as_slice()).into_owned()
}

} // verus!
