//! Hashing, encoding and the clock, provided by outside crates.
use vstd::prelude::*;
use vstd::string::*;
use base64::Engine;
use hmac::Mac;
use sha1::Digest;

verus! {

/// HMAC-SHA1 of `msg` under `key`.
pub uninterp spec fn hmac_sha1_of(key: Seq<u8>, msg: Seq<u8>) -> Seq<u8>;

/// SHA-1 digest of `msg`.
pub uninterp spec fn sha1_of(msg: Seq<u8>) -> Seq<u8>;

/// MD5 digest of `msg`.
pub uninterp spec fn md5_of(msg: Seq<u8>) -> Seq<u8>;

/// Standard (padded) base64 text of `data`.
pub uninterp spec fn base64_of(data: Seq<u8>) -> Seq<char>;

/// The bytes that standard base64 text decodes to, if it is well formed.
pub uninterp spec fn base64_decoded(text: Seq<char>) -> Option<Seq<u8>>;

/// Percent-encoding of `data`: every byte but alphanumerics and `-_.~` escaped.
pub uninterp spec fn url_encoded(data: Seq<u8>) -> Seq<char>;

/// Unicode lower case of `s`.
pub uninterp spec fn lower_of(s: Seq<char>) -> Seq<char>;

/// The lower-case hexadecimal digit of `n`.
pub open spec fn hex_digit(n: int) -> char {
    seq!['0', '1', '2', '3', '4', '5', '6', '7', '8', '9', 'a', 'b', 'c', 'd', 'e', 'f'][n]
}

/// Lower-case hexadecimal text of `data`, two digits per byte.
pub open spec fn hex_of(data: Seq<u8>) -> Seq<char>
    decreases data.len(),
{
    if data.len() == 0 {
        Seq::empty()
    } else {
        let b = data.last();
        hex_of(data.drop_last()) + seq![hex_digit(b as int / 16), hex_digit(b as int % 16)]
    }
}

/// Relies on hmac's `Hmac<Sha1>`: keyed with the bytes of `key` (any length is
/// accepted), fed the bytes of `msg`, finalized into the 20-byte tag.
#[verifier::external_body]
pub(crate) fn hmac_sha1(key: &str, msg: &str) -> (r: Vec<u8>)
    ensures
        r@ == hmac_sha1_of(key.spec_bytes(), msg.spec_bytes()),
{
    let mut mac = hmac::Hmac::<sha1::Sha1>::new_from_slice(key.as_bytes()).unwrap();
    mac.update(msg.as_bytes());
    mac.finalize().into_bytes().to_vec()
}

/// Relies on sha1's `Sha1::digest`: the SHA-1 digest of the bytes of `msg`.
#[verifier::external_body]
pub(crate) fn sha1_digest(msg: &str) -> (r: Vec<u8>)
    ensures
        r@ == sha1_of(msg.spec_bytes()),
{
    sha1::Sha1::digest(msg.as_bytes()).to_vec()
}

/// Relies on md5's `compute`: the MD5 digest of the bytes of `msg`.
#[verifier::external_body]
pub(crate) fn md5_digest(msg: &str) -> (r: Vec<u8>)
    ensures
        r@ == md5_of(msg.spec_bytes()),
{
    md5::compute(msg.as_bytes()).0.to_vec()
}

/// Relies on base64's `STANDARD` engine `encode`.
#[verifier::external_body]
pub(crate) fn base64_encode(data: &Vec<u8>) -> (r: String)
    ensures
        r@ == base64_of(data@),
{
    base64::engine::general_purpose::STANDARD.encode(data)
}

/// Relies on base64's `STANDARD` engine `decode`; its error is dropped.
#[verifier::external_body]
pub(crate) fn base64_decode(text: &str) -> (r: Option<Vec<u8>>)
    ensures
        match r {
            Some(v) => base64_decoded(text@) == Some(v@),
            None => base64_decoded(text@) is None,
        },
{
    base64::engine::general_purpose::STANDARD.decode(text).ok()
}

/// Relies on hex's `encode`: two lower-case digits per byte, high nibble first.
#[verifier::external_body]
pub(crate) fn hex_encode(data: &Vec<u8>) -> (r: String)
    ensures
        r@ == hex_of(data@),
{
    hex::encode(data)
}

/// Relies on urlencoding's `encode` over the UTF-8 bytes of `s`.
#[verifier::external_body]
pub(crate) fn url_encode(s: &str) -> (r: String)
    ensures
        r@ == url_encoded(s.spec_bytes()),
{
    urlencoding::encode(s).into_owned()
}

/// Relies on `str::to_lowercase`: the result depends on the characters alone.
#[verifier::external_body]
pub(crate) fn lowercase(s: &str) -> (r: String)
    ensures
        r@ == lower_of(s@),
{
    s.to_lowercase()
}

/// Relies on chrono's `Utc::now`: the current UNIX time in seconds.
#[verifier::external_body]
pub(crate) fn unix_now() -> (r: i64) {
    chrono::Utc::now().timestamp()
}

} // verus!
