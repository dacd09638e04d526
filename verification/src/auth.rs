//! The headers that authenticate a request by a shared secret.

use crate::text::{decimal, decimal_of, hex, hex_of, lemma_hex_len};
use vstd::prelude::*;
use vstd::utf8::encode_utf8;

verus! {

/// The HMAC (RFC 2104) of `message` under `key` with SHA-1 as its hash.
pub uninterp spec fn hmac_sha1(key: Seq<u8>, message: Seq<u8>) -> Seq<u8>;

/// The SHA-1 digest of `data`.
pub uninterp spec fn sha1_digest(data: Seq<u8>) -> Seq<u8>;

/// Computes an HMAC-SHA1 with `hmac::Hmac<sha1::Sha1>`: `new_from_slice`
/// with the key, one `update` with the message, then `finalize`. The
/// contract names the result, which has the 20 bytes of a SHA-1 output;
/// that crate accepts a key of any length.
#[verifier::external_body]
fn hmac_sha1_bytes(key: &[u8], message: &[u8]) -> (mac: Vec<u8>)
    ensures
        mac@ == hmac_sha1(key@, message@),
        mac@.len() == 20,
{
    let mut mac = <hmac::Hmac<sha1::Sha1> as hmac::Mac>::new_from_slice(key).expect(
        "Hmac can accept any size of key",
    );
    hmac::Mac::update(&mut mac, message);
    hmac::Mac::finalize(mac).into_bytes().to_vec()
}

/// Computes a SHA-1 digest with `sha1::Sha1::digest`. The contract names
/// the result, which has 20 bytes.
#[verifier::external_body]
fn sha1_bytes(data: &[u8]) -> (digest: Vec<u8>)
    ensures
        digest@ == sha1_digest(data@),
        digest@.len() == 20,
{
    <sha1::Sha1 as sha1::Digest>::digest(data).to_vec()
}

/// The text that is signed for a request: the timestamp in decimal, a
/// colon, and the body.
pub open spec fn signing_input(timestamp: u64, body: Seq<char>) -> Seq<char> {
    decimal_of(timestamp as nat).push(':') + body
}

/// The security token of the message `sign_body` under `token`: the HMAC-SHA1
/// of the message keyed by the token, in hexadecimal.
pub open spec fn security_token(token: Seq<char>, sign_body: Seq<char>) -> Seq<char> {
    hex_of(hmac_sha1(encode_utf8(token), encode_utf8(sign_body)))
}

/// The application identifier of `token`: its SHA-1 digest in hexadecimal.
pub open spec fn app_id(token: Seq<char>) -> Seq<char> {
    hex_of(sha1_digest(encode_utf8(token)))
}

/// Builds the text that is signed for a request.
pub fn sign_body(timestamp: u64, body: &str) -> (text: String)
    ensures
        text@ == signing_input(timestamp, body@),
{
    let mut text = decimal(timestamp);
    text.push(':');
    text.append(body);
    text
}

/// Computes the security token of the message `sign_body` under `token`.
pub fn calculate_security_token(token: &String, sign_body: &str) -> (hash: String)
    ensures
        hash@ == security_token(token@, sign_body@),
        hash@.len() == 40,
{
    let mac = hmac_sha1_bytes(token.as_str().as_bytes(), sign_body.as_bytes());
    proof {
        lemma_hex_len(mac@);
    }
    hex(mac.as_slice())
}

/// Computes the application identifier of `token`.
pub fn calculate_app_id(token: &String) -> (hash: String)
    ensures
        hash@ == app_id(token@),
        hash@.len() == 40,
{
    let digest = sha1_bytes(token.as_str().as_bytes());
    proof {
        lemma_hex_len(digest@);
    }
    hex(digest.as_slice())
}

} // verus!
