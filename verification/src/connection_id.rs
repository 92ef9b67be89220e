//! Connection identifiers: the one derived from a peer's first packet, and the
//! fresh ones that are offered to the peer later.

use vstd::prelude::*;
use ring::rand::SecureRandom;
use crate::bytes::copy_range;

verus! {

/// Length of every connection id that this server issues.
pub const MAX_CONN_ID_LEN: usize = 20;

/// Length of the random bytes that make a stateless-reset token.
pub const RESET_TOKEN_LEN: usize = 16;

/// Longest key or message, in bytes, that the keyed hash is asked to take.
pub const HASH_INPUT_LIMIT: u64 = 0x1000_0000_0000_0000;

/// The operating system's random number generator, as `ring` offers it.
#[verifier::external_type_specification]
#[verifier::external_body]
pub struct ExSystemRandom(ring::rand::SystemRandom);

/// The error `ring` reports without detail.
#[verifier::external_type_specification]
#[verifier::external_body]
pub struct ExUnspecified(ring::error::Unspecified);

/// The random number generator could not deliver.
#[derive(Clone, Copy, Debug, PartialEq, Eq)]
pub enum EntropyError {
    Unavailable,
}

/// The HMAC-SHA256 tag of `data` under `key`.
pub uninterp spec fn hmac_sha256_tag(key: Seq<u8>, data: Seq<u8>) -> Seq<u8>;

/// Calls `ring::hmac::sign` with an HMAC-SHA256 key made by
/// `ring::hmac::Key::new` from `key`. The tag depends on the key and the
/// message alone and has the 32 bytes of a SHA-256 digest. Inputs so long that
/// their length in bits leaves 64 bits, on which `ring` panics, are left out.
#[verifier::external_body]
fn hmac_sha256(key: &[u8], data: &[u8]) -> (tag: Vec<u8>)
    requires
        key@.len() <= HASH_INPUT_LIMIT,
        data@.len() <= HASH_INPUT_LIMIT,
    ensures
        tag@ == hmac_sha256_tag(key@, data@),
        tag@.len() == 32,
{
    let key = ring::hmac::Key::new(ring::hmac::HMAC_SHA256, key);
    ring::hmac::sign(&key, data).as_ref().to_vec()
}

/// Calls `ring::rand::SecureRandom::fill` on a buffer of `len` bytes. Of the
/// bytes nothing is known but their number.
#[verifier::external_body]
fn fill_random(rng: &ring::rand::SystemRandom, len: usize) -> (r: Result<
    Vec<u8>,
    ring::error::Unspecified,
>)
    ensures
        r matches Ok(bytes) ==> bytes@.len() == len,
{
    let mut buf: Vec<u8> = Vec::new();
    buf.resize(len, 0);
    match rng.fill(&mut buf) {
        Ok(()) => Ok(buf),
        Err(e) => Err(e),
    }
}

/// The connection id that a keyed-hash tag stands for: its first
/// `MAX_CONN_ID_LEN` bytes.
pub open spec fn id_of_tag(tag: Seq<u8>) -> Seq<u8> {
    if tag.len() >= MAX_CONN_ID_LEN {
        tag.take(MAX_CONN_ID_LEN as int)
    } else {
        tag
    }
}

/// The connection id that the server derives, under its secret, from the
/// destination connection id of a packet.
pub open spec fn derived_id(secret: Seq<u8>, dcid: Seq<u8>) -> Seq<u8> {
    id_of_tag(hmac_sha256_tag(secret, dcid))
}

/// Cuts a keyed-hash tag down to a connection id.
pub fn connection_id_from_tag(tag: &[u8]) -> (id: Vec<u8>)
    ensures
        id@ == id_of_tag(tag@),
{
    if tag.len() >= MAX_CONN_ID_LEN {
        let id = copy_range(tag, 0, MAX_CONN_ID_LEN);
        id
    } else {
        let id = copy_range(tag, 0, tag.len());
        assert(tag@.subrange(0, tag@.len() as int) == tag@);
        id
    }
}

/// Derives the server's connection id for a peer's destination connection id
/// by a keyed hash under the server's secret.
pub fn derive_connection_id(secret: &[u8], dcid: &[u8]) -> (id: Vec<u8>)
    requires
        secret@.len() <= HASH_INPUT_LIMIT,
        dcid@.len() <= HASH_INPUT_LIMIT,
    ensures
        id@ == derived_id(secret@, dcid@),
        id@.len() == MAX_CONN_ID_LEN,
{
    let tag = hmac_sha256(secret, dcid);
    connection_id_from_tag(tag.as_slice())
}

/// The number that a byte string spells, most significant byte first.
pub open spec fn be_value(bytes: Seq<u8>) -> nat
    decreases bytes.len(),
{
    if bytes.len() == 0 {
        0
    } else {
        be_value(bytes.drop_last()) * 256 + bytes.last() as nat
    }
}

/// 256 to the power `n`.
pub open spec fn radix_pow(n: nat) -> nat
    decreases n,
{
    if n == 0 {
        1
    } else {
        256 * radix_pow((n - 1) as nat)
    }
}

/// A string of `n` bytes spells a number below 256 to the `n`.
pub proof fn lemma_be_value_bound(bytes: Seq<u8>)
    ensures
        be_value(bytes) < radix_pow(bytes.len()),
    decreases bytes.len(),
{
    if bytes.len() > 0 {
        lemma_be_value_bound(bytes.drop_last());
        let hi = be_value(bytes.drop_last());
        let p = radix_pow((bytes.len() - 1) as nat);
        assert(hi + 1 <= p);
        assert((hi + 1) * 256 <= p * 256) by (nonlinear_arith)
            requires
                hi + 1 <= p,
        ;
    }
}

/// 256 to the power `n` grows with `n`.
pub proof fn lemma_radix_pow_monotonic(a: nat, b: nat)
    requires
        a <= b,
    ensures
        radix_pow(a) <= radix_pow(b),
        radix_pow(a) >= 1,
    decreases b,
{
    if a < b {
        lemma_radix_pow_monotonic(a, (b - 1) as nat);
    } else if a > 0 {
        lemma_radix_pow_monotonic((a - 1) as nat, (a - 1) as nat);
    }
}

/// Sixteen bytes fill a `u128` exactly.
pub proof fn lemma_radix_pow_16()
    ensures
        radix_pow(16) == 0x1_0000_0000_0000_0000_0000_0000_0000_0000,
{
    reveal_with_fuel(radix_pow, 17);
}

/// Reads up to sixteen bytes as a number, most significant byte first.
pub fn reset_token_from_bytes(bytes: &[u8]) -> (token: u128)
    requires
        bytes@.len() <= RESET_TOKEN_LEN,
    ensures
        token == be_value(bytes@),
{
    let mut token: u128 = 0;
    let mut i: usize = 0;
    while i < bytes.len()
        invariant
            i <= bytes@.len() <= 16,
            token == be_value(bytes@.take(i as int)),
        decreases bytes@.len() - i,
    {
        proof {
            let head = bytes@.take(i as int);
            let next = bytes@.take(i + 1);
            assert(next.drop_last() == head);
            assert(next.last() == bytes@[i as int]);
            lemma_be_value_bound(next);
            lemma_radix_pow_monotonic(next.len(), 16);
            lemma_radix_pow_16();
        }
        token = token * 256 + bytes[i] as u128;
        i += 1;
    }
    assert(bytes@.take(i as int) == bytes@);
    token
}

/// Makes a connection id and a reset token out of random bytes: the id is the
/// bytes as they are, the token the number they spell.
pub fn cid_and_reset_token(id_bytes: Vec<u8>, token_bytes: &[u8]) -> (r: (Vec<u8>, u128))
    requires
        token_bytes@.len() <= RESET_TOKEN_LEN,
    ensures
        r.0@ == id_bytes@,
        r.1 == be_value(token_bytes@),
{
    let token = reset_token_from_bytes(token_bytes);
    (id_bytes, token)
}

/// Draws a fresh connection id of `MAX_CONN_ID_LEN` random bytes and a random
/// reset token.
pub fn generate_cid_and_reset_token(rng: &ring::rand::SystemRandom) -> (r: Result<
    (Vec<u8>, u128),
    EntropyError,
>)
    ensures
        r matches Ok(pair) ==> pair.0@.len() == MAX_CONN_ID_LEN,
{
    let scid = match drawn(fill_random(rng, MAX_CONN_ID_LEN)) {
        Ok(bytes) => bytes,
        Err(e) => {
            return Err(e);
        },
    };
    let reset_token = match drawn(fill_random(rng, RESET_TOKEN_LEN)) {
        Ok(bytes) => bytes,
        Err(e) => {
            return Err(e);
        },
    };
    Ok(cid_and_reset_token(scid, reset_token.as_slice()))
}

/// Draws the secret under which connection ids are derived: 32 random bytes.
pub fn generate_secret(rng: &ring::rand::SystemRandom) -> (r: Result<Vec<u8>, EntropyError>)
    ensures
        r matches Ok(secret) ==> secret@.len() == 32,
{
    drawn(fill_random(rng, 32))
}

/// What a draw from the random number generator comes to: the bytes where it
/// delivered, and `EntropyError::Unavailable` where it did not.
pub fn drawn(outcome: Result<Vec<u8>, ring::error::Unspecified>) -> (r: Result<
    Vec<u8>,
    EntropyError,
>)
    ensures
        outcome matches Ok(bytes) ==> r matches Ok(kept) && kept@ == bytes@,
        outcome is Err ==> r == Err::<Vec<u8>, EntropyError>(EntropyError::Unavailable),
{
    match outcome {
        Ok(bytes) => Ok(bytes),
        Err(_) => Err(EntropyError::Unavailable),
    }
}

} // verus!
