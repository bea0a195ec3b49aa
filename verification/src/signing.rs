//! Bybit request signing: HMAC-SHA256 of the payload, hex encoded.
use hmac::{Hmac, Mac};
use sha2::{Digest, Sha256};
use vstd::prelude::*;
use vstd::string::*;
use vstd::utf8::encode_utf8;
use crate::text::string_from_chars;

verus! {

/// The HMAC key block for SHA-256 (block size 64 bytes): a key longer than
/// the block is replaced by its SHA-256 digest, and the key is then padded
/// with zero bytes to 64.
pub open spec fn hmac_key_block(key: Seq<u8>) -> Seq<u8> {
    let k = if key.len() > 64 {
        sha256(key)
    } else {
        key
    };
    Seq::new(64, |i: int| if i < k.len() { k[i] } else { 0u8 })
}

/// Each byte of `block` XORed with `pad`.
pub open spec fn xor_pad(block: Seq<u8>, pad: u8) -> Seq<u8> {
    block.map_values(|b: u8| b ^ pad)
}

/// HMAC-SHA256 tag of `msg` under `key` (RFC 2104 over SHA-256): the outer
/// hash of the key block XOR `0x5c` followed by the inner hash of the key
/// block XOR `0x36` followed by the message.
pub open spec fn hmac_sha256(key: Seq<u8>, msg: Seq<u8>) -> Seq<u8> {
    let kb = hmac_key_block(key);
    sha256(xor_pad(kb, 0x5cu8) + sha256(xor_pad(kb, 0x36u8) + msg))
}

/// Wraps `Hmac::<Sha256>::new_from_slice`, `update` and `finalize`. HMAC
/// accepts keys of any length (`new_from_slice` returns `Ok` for every key
/// in hmac 0.12); the tag is the RFC 2104 construction over SHA-256, as
/// `hmac_sha256` spells it out, and is 32 bytes long.
#[verifier::external_body]
fn hmac_sha256_bytes(key: &[u8], msg: &[u8]) -> (r: Option<Vec<u8>>)
    ensures
        match r {
            Some(t) => t@ == hmac_sha256(key@, msg@) && t@.len() == 32,
            None => false,
        },
{
    let mut mac = <Hmac<Sha256> as Mac>::new_from_slice(key).ok()?;
    mac.update(msg);
    Some(mac.finalize().into_bytes().to_vec())
}

pub open spec fn hex_digit(n: u8) -> char {
    if n < 10 {
        ((n + 48) as u8) as char
    } else {
        ((n + 87) as u8) as char
    }
}

/// Lowercase hexadecimal, two digits per byte, high nibble first.
pub open spec fn hex_lower(bytes: Seq<u8>) -> Seq<char>
    decreases bytes.len(),
{
    if bytes.len() == 0 {
        Seq::empty()
    } else {
        hex_lower(bytes.drop_last()).push(hex_digit(bytes.last() / 16)).push(
            hex_digit(bytes.last() % 16),
        )
    }
}

fn hex_digit_exec(n: u8) -> (r: char)
    requires
        n < 16,
    ensures
        r == hex_digit(n),
{
    if n < 10 {
        (n + 48) as char
    } else {
        (n + 87) as char
    }
}

/// Lowercase hex encoding of `bytes`, as `hex::encode` writes it.
pub fn to_hex(bytes: &[u8]) -> (r: String)
    ensures
        r@ == hex_lower(bytes@),
{
    let mut out: Vec<char> = Vec::new();
    for i in 0..bytes.len()
        invariant
            out@ == hex_lower(bytes@.take(i as int)),
    {
        let b = bytes[i];
        out.push(hex_digit_exec(b / 16));
        out.push(hex_digit_exec(b % 16));
        assert(bytes@.take(i + 1).drop_last() == bytes@.take(i as int));
    }
    assert(bytes@.take(bytes@.len() as int) == bytes@);
    string_from_chars(&out)
}

/// Signature errors (HMAC-SHA256 accepts every key, so none occurs).
#[derive(Debug, Clone, Copy, PartialEq, Eq, Structural)]
pub enum SignError {
    InvalidKeyLength,
}

/// Hex HMAC-SHA256 of the UTF-8 bytes of `payload` under the UTF-8 bytes of
/// `secret`.
pub fn bybit_sign(secret: &str, payload: &str) -> (r: Result<String, SignError>)
    ensures
        match r {
            Ok(s) => s@ == hex_lower(hmac_sha256(encode_utf8(secret@), encode_utf8(payload@))),
            Err(_) => false,
        },
{
    match hmac_sha256_bytes(secret.as_bytes(), payload.as_bytes()) {
        Some(tag) => Ok(to_hex(tag.as_slice())),
        None => Err(SignError::InvalidKeyLength),
    }
}

pub proof fn lemma_hex_len(bytes: Seq<u8>)
    ensures
        hex_lower(bytes).len() == 2 * bytes.len(),
    decreases bytes.len(),
{
    if bytes.len() > 0 {
        lemma_hex_len(bytes.drop_last());
    }
}

/// A signature is always 64 hex characters.
pub proof fn law_signature_is_64_hex_chars(key: Seq<u8>, msg: Seq<u8>)
    requires
        hmac_sha256(key, msg).len() == 32,
    ensures
        hex_lower(hmac_sha256(key, msg)).len() == 64,
{
    lemma_hex_len(hmac_sha256(key, msg));
}

/// SHA-256 digest of `msg` (FIPS 180-4).
pub uninterp spec fn sha256(msg: Seq<u8>) -> Seq<u8>;

/// Wraps `Sha256::digest`: the 32-byte SHA-256 digest of the message.
#[verifier::external_body]
fn sha256_bytes(msg: &[u8]) -> (r: Vec<u8>)
    ensures
        r@ == sha256(msg@),
        r@.len() == 32,
{
    Sha256::digest(msg).to_vec()
}

/// The hash recorded with a decision: hex SHA-256 of its serialized form.
pub fn decision_hash(payload: &[u8]) -> (r: String)
    ensures
        r@ == hex_lower(sha256(payload@)),
        r@.len() == 64,
{
    let d = sha256_bytes(payload);
    proof {
        lemma_hex_len(d@);
    }
    to_hex(d.as_slice())
}

} // verus!
