//! The cryptographic hash and the hex alphabet the escrows share.
//!
//! Every cross-ledger key is the Keccak-256 digest of a canonical byte
//! string, carried around as lowercase hex.  The digest itself comes from an
//! outside implementation; everything said about it goes through the
//! uninterpreted function [`keccak_of`].

use vstd::prelude::*;
use sha3::Digest;

verus! {

use vstd::utf8::encode_utf8;

/// The 256-bit digest of a byte sequence, as Keccak-256 defines it.
pub uninterp spec fn keccak_of(bytes: Seq<u8>) -> Seq<u8>;

/// Relies on `sha3::Keccak256`: the digest depends on the input bytes alone,
/// and is always 32 bytes long.
#[verifier::external_body]
pub(crate) fn keccak256(bytes: &[u8]) -> (r: Vec<u8>)
    ensures
        r@ == keccak_of(bytes@),
        r@.len() == 32,
{
    sha3::Keccak256::digest(bytes).to_vec()
}

/// The lowercase hex digit for a nibble.
pub open spec fn spec_hex_digit(n: u8) -> char
    recommends
        n < 16,
{
    if n == 0 {
        '0'
    } else if n == 1 {
        '1'
    } else if n == 2 {
        '2'
    } else if n == 3 {
        '3'
    } else if n == 4 {
        '4'
    } else if n == 5 {
        '5'
    } else if n == 6 {
        '6'
    } else if n == 7 {
        '7'
    } else if n == 8 {
        '8'
    } else if n == 9 {
        '9'
    } else if n == 10 {
        'a'
    } else if n == 11 {
        'b'
    } else if n == 12 {
        'c'
    } else if n == 13 {
        'd'
    } else if n == 14 {
        'e'
    } else {
        'f'
    }
}

/// Lowercase hex encoding: two digits per byte, most significant nibble first.
pub open spec fn spec_hex_of(b: Seq<u8>) -> Seq<char> {
    Seq::new(
        b.len() * 2,
        |i: int|
            if i % 2 == 0 {
                spec_hex_digit((b[i / 2] >> 4) & 0xf)
            } else {
                spec_hex_digit(b[i / 2] & 0xf)
            },
    )
}

/// Whether a byte is the ASCII code of a hex digit, either case.
pub open spec fn spec_is_hex_digit_byte(c: u8) -> bool {
    (48 <= c && c <= 57) || (97 <= c && c <= 102) || (65 <= c && c <= 70)
}

/// The nibble an ASCII hex digit stands for.
pub open spec fn spec_hex_digit_val(c: u8) -> u8
    recommends
        spec_is_hex_digit_byte(c),
{
    if 48 <= c && c <= 57 {
        (c - 48) as u8
    } else if 97 <= c && c <= 102 {
        (c - 87) as u8
    } else {
        (c - 55) as u8
    }
}

/// Whether a byte string is a well-formed hex encoding: even length, all
/// hex digits.
pub open spec fn spec_is_hex_bytes(b: Seq<u8>) -> bool {
    b.len() % 2 == 0 && (forall|i: int| 0 <= i < b.len() ==> spec_is_hex_digit_byte(#[trigger] b[i]))
}

/// The bytes a well-formed hex byte string encodes.
pub open spec fn spec_unhex_bytes(b: Seq<u8>) -> Seq<u8>
    recommends
        spec_is_hex_bytes(b),
{
    Seq::new(
        b.len() / 2,
        |i: int| (spec_hex_digit_val(b[2 * i]) << 4) | spec_hex_digit_val(b[2 * i + 1]),
    )
}

/// The bytes a hex string (viewed as characters) encodes, or `None` when it
/// is not well-formed hex.
pub open spec fn spec_hex_str_bytes(s: Seq<char>) -> Option<Seq<u8>> {
    let b = encode_utf8(s);
    if spec_is_hex_bytes(b) {
        Some(spec_unhex_bytes(b))
    } else {
        None
    }
}

/// Relies on `hex::encode`: two lowercase hex digits per input byte, in input
/// order.
#[verifier::external_body]
pub(crate) fn hex_encode(bytes: &[u8]) -> (r: String)
    ensures
        r@ == spec_hex_of(bytes@),
{
    hex::encode(bytes)
}

/// Relies on `hex::decode`: it succeeds exactly on an even number of hex
/// digits (either case accepted), pairing each two digits into one byte, in
/// order.
#[verifier::external_body]
pub(crate) fn hex_decode(bytes: &[u8]) -> (r: Option<Vec<u8>>)
    ensures
        r is Some <==> spec_is_hex_bytes(bytes@),
        r matches Some(v) ==> v@ == spec_unhex_bytes(bytes@),
{
    match hex::decode(bytes) {
        Ok(v) => Some(v),
        Err(_) => None,
    }
}

/// A leading `0x` marker removed, when present.
pub open spec fn spec_strip_0x(s: Seq<char>) -> Seq<char> {
    if s.len() >= 2 && s[0] == '0' && s[1] == 'x' {
        s.subrange(2, s.len() as int)
    } else {
        s
    }
}

/// Removes a leading `0x` marker, when present.
pub fn strip_0x(s: &str) -> (r: String)
    ensures
        r@ == spec_strip_0x(s@),
{
    let n = s.unicode_len();
    if n >= 2 && s.get_char(0) == '0' && s.get_char(1) == 'x' {
        let rest = s.substring_char(2, n);
        rest.to_owned()
    } else {
        s.to_owned()
    }
}

/// A hex encoding never starts with `0x`: its second character is a digit,
/// never the letter `x`.  Stripping the marker from it changes nothing.
pub proof fn lemma_strip_0x_of_hex(b: Seq<u8>)
    ensures
        spec_strip_0x(spec_hex_of(b)) == spec_hex_of(b),
{
    let s = spec_hex_of(b);
    if s.len() >= 2 && s[0] == '0' && s[1] == 'x' {
        assert(s[1] == spec_hex_digit(b[0] & 0xf));
        assert(spec_hex_digit(b[0] & 0xf) != 'x');
    }
}

} // verus!
