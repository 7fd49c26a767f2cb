//! Invite tokens and content hashes.

use base64::Engine;
use sha2::Digest;
use vstd::prelude::*;
#[allow(unused_imports)]
use vstd::utf8::encode_utf8;

use crate::text::trim;
#[allow(unused_imports)]
use crate::text::trimmed;

verus! {

/// The SHA-256 of the bytes.
pub uninterp spec fn sha256(bytes: Seq<u8>) -> Seq<u8>;

/// A hexadecimal digit, in lower case.
pub open spec fn hex_digit(n: int) -> char {
    if n < 10 {
        (48 + n) as char
    } else {
        (87 + n) as char
    }
}

/// The bytes in hexadecimal, two digits each.
pub open spec fn hex_text(bytes: Seq<u8>) -> Seq<char>
    decreases bytes.len(),
{
    if bytes.len() == 0 {
        Seq::empty()
    } else {
        hex_text(bytes.drop_last()) + seq![
            hex_digit(bytes.last() as int / 16),
            hex_digit(bytes.last() as int % 16),
        ]
    }
}

/// The SHA-256 of the bytes, in hexadecimal.
pub open spec fn sha256_hex(bytes: Seq<u8>) -> Seq<char> {
    hex_text(sha256(bytes))
}

/// The hash that is stored of a text.
pub open spec fn hash_of(text: Seq<char>) -> Seq<char> {
    sha256_hex(encode_utf8(text))
}

/// The URL-safe base64 text of the bytes, without padding.
pub uninterp spec fn base64_url(bytes: Seq<u8>) -> Seq<char>;

/// `sha2::Sha256::digest`: 32 bytes, which are a function of the bytes hashed alone.
#[verifier::external_body]
fn digest(bytes: &[u8]) -> (r: Vec<u8>)
    ensures
        r@ == sha256(bytes@),
        r@.len() == 32,
{
    sha2::Sha256::digest(bytes).to_vec()
}

/// `hex::encode`: each byte as two hexadecimal digits in lower case, the higher half first.
#[verifier::external_body]
fn encode_hex(bytes: &[u8]) -> (r: String)
    requires
        bytes@.len() <= 1024,
    ensures
        r@ == hex_text(bytes@),
{
    hex::encode(bytes)
}

/// `base64`'s `URL_SAFE_NO_PAD` engine: the text is a function of the bytes alone.
#[verifier::external_body]
pub(crate) fn encode_url_safe(bytes: &[u8]) -> (r: String)
    requires
        bytes@.len() <= 1024,
    ensures
        r@ == base64_url(bytes@),
{
    base64::engine::general_purpose::URL_SAFE_NO_PAD.encode(bytes)
}

/// The SHA-256 of the bytes, in hexadecimal.
pub fn sha_hex(bytes: &[u8]) -> (r: String)
    ensures
        r@ == sha256_hex(bytes@),
        r@.len() == 64,
{
    let hash = digest(bytes);
    proof {
        two_digits_a_byte(hash@);
    }
    encode_hex(hash.as_slice())
}

/// What is stored of a token: its hash, never itself.
pub fn hash_token(token: &str) -> (r: String)
    ensures
        r@ == hash_of(token@),
        r@.len() == 64,
{
    sha_hex(token.as_bytes())
}

proof fn two_digits_a_byte(bytes: Seq<u8>)
    ensures
        hex_text(bytes).len() == 2 * bytes.len(),
    decreases bytes.len(),
{
    if bytes.len() > 0 {
        two_digits_a_byte(bytes.drop_last());
    }
}

/// The token of an invite, made of random bytes.
pub fn token_of(raw: &[u8; 32]) -> (r: String)
    ensures
        r@ == base64_url(raw@),
{
    encode_url_safe(raw.as_slice())
}

/// The hash that a redeemed token is looked up by: white space around it does not count.
pub fn redeemed_hash(token: &str) -> (r: String)
    ensures
        r@ == hash_of(trimmed(token@)),
{
    hash_token(trim(token).as_str())
}


// ---- laws

/// White space around a redeemed token does not count, and what is stored is the hash of the token:
/// the two meet.
pub proof fn a_redeemed_token_meets_its_hash(
    token: &str,
    typed: &str,
    stored: String,
    looked_up: String,
    bytes: &[u8],
    hex: String,
)
    requires
        trimmed(typed@) == token@,
        bytes@ == encode_utf8(token@),
        call_ensures(hash_token, (token,), stored),
        call_ensures(redeemed_hash, (typed,), looked_up),
        call_ensures(sha_hex, (bytes,), hex),
    ensures
        looked_up@ == stored@,
        stored@ == hex@,
        hex@.len() == 64,
{
}

proof fn hex_of_each(bytes: Seq<u8>, i: int)
    requires
        0 <= i < bytes.len(),
    ensures
        hex_text(bytes).len() == 2 * bytes.len(),
        hex_text(bytes)[2 * i] == hex_digit(bytes[i] as int / 16),
        hex_text(bytes)[2 * i + 1] == hex_digit(bytes[i] as int % 16),
    decreases bytes.len(),
{
    two_digits_a_byte(bytes);
    two_digits_a_byte(bytes.drop_last());
    if i < bytes.len() - 1 {
        hex_of_each(bytes.drop_last(), i);
    }
}

/// A hash is written byte by byte, the higher half first, in digits and the letters a to f.
pub proof fn a_hash_is_written_in_hex(bytes: &[u8], r: String, i: int)
    requires
        call_ensures(sha_hex, (bytes,), r),
        0 <= i < sha256(bytes@).len(),
    ensures
        ({
            let b = sha256(bytes@)[i] as int;
            &&& b / 16 < 10 ==> r@[2 * i] == ('0' as int + b / 16) as char
            &&& b / 16 >= 10 ==> r@[2 * i] == ('a' as int + (b / 16 - 10)) as char
            &&& b % 16 < 10 ==> r@[2 * i + 1] == ('0' as int + b % 16) as char
            &&& b % 16 >= 10 ==> r@[2 * i + 1] == ('a' as int + (b % 16 - 10)) as char
        }),
{
    hex_of_each(sha256(bytes@), i);
}

} // verus!
