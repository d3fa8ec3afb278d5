//! Secret validation: the hashlock test every withdrawal path must pass.
//!
//! A revealed secret unlocks a commitment exactly when its digest, in
//! lowercase hex, equals the commitment's hashlock (an optional `0x` marker
//! on the hashlock is ignored).  Every withdrawal fails closed when this
//! check fails.

use vstd::prelude::*;

verus! {

use vstd::utf8::encode_utf8;
use crate::hashing::{
    keccak_of,
    keccak256,
    spec_hex_of,
    hex_encode,
    spec_strip_0x,
    strip_0x,
    lemma_strip_0x_of_hex,
};

/// The hex digest a secret must present: Keccak-256 of its UTF-8 bytes,
/// lowercase hex.
pub open spec fn spec_secret_hash(secret: Seq<char>) -> Seq<char> {
    spec_hex_of(keccak_of(encode_utf8(secret)))
}

/// Whether a secret matches a hashlock: its digest equals the hashlock with
/// any leading `0x` marker removed.
pub open spec fn spec_validate_secret(secret: Seq<char>, hashlock: Seq<char>) -> bool {
    spec_secret_hash(secret) == spec_strip_0x(hashlock)
}

/// Tests a revealed secret against a commitment's hashlock.
pub fn validate_secret(secret: String, hashlock: String) -> (r: bool)
    ensures
        r == spec_validate_secret(secret@, hashlock@),
{
    let digest = keccak256(secret.as_str().as_bytes());
    let hash_hex = hex_encode(digest.as_slice());
    let stripped = strip_0x(hashlock.as_str());
    hash_hex == stripped
}

/// A secret always validates against its own digest.
pub proof fn lemma_validate_own_hash(secret: Seq<char>)
    ensures
        spec_validate_secret(secret, spec_secret_hash(secret)),
{
    lemma_strip_0x_of_hex(keccak_of(encode_utf8(secret)));
}

/// Validation ignores exactly one leading `0x` marker on the hashlock: a
/// marked hashlock accepts a secret precisely when the secret's digest
/// equals the unmarked remainder, byte for byte.
pub proof fn lemma_validate_prefix_insensitive(secret: Seq<char>, hashlock: Seq<char>)
    ensures
        spec_validate_secret(secret, seq!['0', 'x'] + hashlock) == (spec_secret_hash(secret)
            == hashlock),
{
    let marked = seq!['0', 'x'] + hashlock;
    assert(marked[0] == '0' && marked[1] == 'x');
    assert(spec_strip_0x(marked) =~= hashlock);
}

} // verus!
