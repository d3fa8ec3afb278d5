//! Big-endian byte layouts for the integer widths the escrow records use.
//!
//! The order hash and the record encodings both lay integers out most
//! significant byte first, so the same bytes are produced wherever a record
//! is re-encoded.

use vstd::prelude::*;

verus! {

pub open spec fn spec_u16_be(x: u16) -> Seq<u8> {
    seq![(x >> 8) as u8, x as u8]
}

pub open spec fn spec_u32_be(x: u32) -> Seq<u8> {
    seq![(x >> 24) as u8, (x >> 16) as u8, (x >> 8) as u8, x as u8]
}

pub open spec fn spec_u64_be(x: u64) -> Seq<u8> {
    seq![
        (x >> 56) as u8,
        (x >> 48) as u8,
        (x >> 40) as u8,
        (x >> 32) as u8,
        (x >> 24) as u8,
        (x >> 16) as u8,
        (x >> 8) as u8,
        x as u8,
    ]
}

pub open spec fn spec_u128_be(x: u128) -> Seq<u8> {
    seq![
        (x >> 120) as u8,
        (x >> 112) as u8,
        (x >> 104) as u8,
        (x >> 96) as u8,
        (x >> 88) as u8,
        (x >> 80) as u8,
        (x >> 72) as u8,
        (x >> 64) as u8,
        (x >> 56) as u8,
        (x >> 48) as u8,
        (x >> 40) as u8,
        (x >> 32) as u8,
        (x >> 24) as u8,
        (x >> 16) as u8,
        (x >> 8) as u8,
        x as u8,
    ]
}

pub open spec fn spec_u16_from_be(b: Seq<u8>) -> u16
    recommends
        b.len() == 2,
{
    ((b[0] as u16) << 8) | (b[1] as u16)
}

pub open spec fn spec_u32_from_be(b: Seq<u8>) -> u32
    recommends
        b.len() == 4,
{
    ((b[0] as u32) << 24) | ((b[1] as u32) << 16) | ((b[2] as u32) << 8) | (b[3] as u32)
}

pub open spec fn spec_u64_from_be(b: Seq<u8>) -> u64
    recommends
        b.len() == 8,
{
    ((b[0] as u64) << 56) | ((b[1] as u64) << 48) | ((b[2] as u64) << 40) | ((b[3] as u64) << 32)
        | ((b[4] as u64) << 24) | ((b[5] as u64) << 16) | ((b[6] as u64) << 8) | (b[7] as u64)
}

pub open spec fn spec_u128_from_be(b: Seq<u8>) -> u128
    recommends
        b.len() == 16,
{
    ((b[0] as u128) << 120) | ((b[1] as u128) << 112) | ((b[2] as u128) << 104) | ((b[3]
        as u128) << 96) | ((b[4] as u128) << 88) | ((b[5] as u128) << 80) | ((b[6] as u128) << 72)
        | ((b[7] as u128) << 64) | ((b[8] as u128) << 56) | ((b[9] as u128) << 48) | ((b[10]
        as u128) << 40) | ((b[11] as u128) << 32) | ((b[12] as u128) << 24) | ((b[13]
        as u128) << 16) | ((b[14] as u128) << 8) | (b[15] as u128)
}

pub fn u16_be_bytes(x: u16) -> (r: Vec<u8>)
    ensures
        r@ == spec_u16_be(x),
{
    let b0 = #[verifier::truncate] ((x >> 8) as u8);
    let b1 = #[verifier::truncate] (x as u8);
    let mut r: Vec<u8> = Vec::new();
    r.push(b0);
    r.push(b1);
    proof {
        assert(r@ =~= spec_u16_be(x));
    }
    r
}

pub fn u32_be_bytes(x: u32) -> (r: Vec<u8>)
    ensures
        r@ == spec_u32_be(x),
{
    let b0 = #[verifier::truncate] ((x >> 24) as u8);
    let b1 = #[verifier::truncate] ((x >> 16) as u8);
    let b2 = #[verifier::truncate] ((x >> 8) as u8);
    let b3 = #[verifier::truncate] (x as u8);
    let mut r: Vec<u8> = Vec::new();
    r.push(b0);
    r.push(b1);
    r.push(b2);
    r.push(b3);
    proof {
        assert(r@ =~= spec_u32_be(x));
    }
    r
}

pub fn u64_be_bytes(x: u64) -> (r: Vec<u8>)
    ensures
        r@ == spec_u64_be(x),
{
    let mut r: Vec<u8> = Vec::new();
    let b0 = #[verifier::truncate] ((x >> 56) as u8);
    let b1 = #[verifier::truncate] ((x >> 48) as u8);
    let b2 = #[verifier::truncate] ((x >> 40) as u8);
    let b3 = #[verifier::truncate] ((x >> 32) as u8);
    let b4 = #[verifier::truncate] ((x >> 24) as u8);
    let b5 = #[verifier::truncate] ((x >> 16) as u8);
    let b6 = #[verifier::truncate] ((x >> 8) as u8);
    let b7 = #[verifier::truncate] (x as u8);
    r.push(b0);
    r.push(b1);
    r.push(b2);
    r.push(b3);
    r.push(b4);
    r.push(b5);
    r.push(b6);
    r.push(b7);
    proof {
        assert(r@ =~= spec_u64_be(x));
    }
    r
}

pub fn u128_be_bytes(x: u128) -> (r: Vec<u8>)
    ensures
        r@ == spec_u128_be(x),
{
    let mut r: Vec<u8> = Vec::new();
    let b0 = #[verifier::truncate] ((x >> 120) as u8);
    let b1 = #[verifier::truncate] ((x >> 112) as u8);
    let b2 = #[verifier::truncate] ((x >> 104) as u8);
    let b3 = #[verifier::truncate] ((x >> 96) as u8);
    let b4 = #[verifier::truncate] ((x >> 88) as u8);
    let b5 = #[verifier::truncate] ((x >> 80) as u8);
    let b6 = #[verifier::truncate] ((x >> 72) as u8);
    let b7 = #[verifier::truncate] ((x >> 64) as u8);
    let b8 = #[verifier::truncate] ((x >> 56) as u8);
    let b9 = #[verifier::truncate] ((x >> 48) as u8);
    let b10 = #[verifier::truncate] ((x >> 40) as u8);
    let b11 = #[verifier::truncate] ((x >> 32) as u8);
    let b12 = #[verifier::truncate] ((x >> 24) as u8);
    let b13 = #[verifier::truncate] ((x >> 16) as u8);
    let b14 = #[verifier::truncate] ((x >> 8) as u8);
    let b15 = #[verifier::truncate] (x as u8);
    r.push(b0);
    r.push(b1);
    r.push(b2);
    r.push(b3);
    r.push(b4);
    r.push(b5);
    r.push(b6);
    r.push(b7);
    r.push(b8);
    r.push(b9);
    r.push(b10);
    r.push(b11);
    r.push(b12);
    r.push(b13);
    r.push(b14);
    r.push(b15);
    proof {
        assert(r@ =~= spec_u128_be(x));
    }
    r
}

pub fn u16_from_be(b: &[u8], i: usize) -> (r: u16)
    requires
        i + 2 <= b@.len(),
    ensures
        r == spec_u16_from_be(b@.subrange(i as int, i + 2)),
{
    let r = ((b[i] as u16) << 8u16) | (b[i + 1] as u16);
    proof {
        let s = b@.subrange(i as int, i + 2);
        assert(s[0] == b@[i as int] && s[1] == b@[i + 1]);
    }
    r
}

pub fn u32_from_be(b: &[u8], i: usize) -> (r: u32)
    requires
        i + 4 <= b@.len(),
    ensures
        r == spec_u32_from_be(b@.subrange(i as int, i + 4)),
{
    let r = ((b[i] as u32) << 24u32) | ((b[i + 1] as u32) << 16u32) | ((b[i + 2] as u32) << 8u32)
        | (b[i + 3] as u32);
    proof {
        let s = b@.subrange(i as int, i + 4);
        assert(s[0] == b@[i as int] && s[1] == b@[i + 1] && s[2] == b@[i + 2] && s[3] == b@[i
            + 3]);
    }
    r
}

pub fn u64_from_be(b: &[u8], i: usize) -> (r: u64)
    requires
        i + 8 <= b@.len(),
    ensures
        r == spec_u64_from_be(b@.subrange(i as int, i + 8)),
{
    let r = ((b[i] as u64) << 56u64) | ((b[i + 1] as u64) << 48u64) | ((b[i + 2] as u64) << 40u64)
        | ((b[i + 3] as u64) << 32u64) | ((b[i + 4] as u64) << 24u64) | ((b[i + 5]
        as u64) << 16u64) | ((b[i + 6] as u64) << 8u64) | (b[i + 7] as u64);
    proof {
        let s = b@.subrange(i as int, i + 8);
        assert(forall|k: int| 0 <= k < 8 ==> s[k] == b@[i + k]);
    }
    r
}

pub fn u128_from_be(b: &[u8], i: usize) -> (r: u128)
    requires
        i + 16 <= b@.len(),
    ensures
        r == spec_u128_from_be(b@.subrange(i as int, i + 16)),
{
    let r = ((b[i] as u128) << 120u128) | ((b[i + 1] as u128) << 112u128) | ((b[i + 2]
        as u128) << 104u128) | ((b[i + 3] as u128) << 96u128) | ((b[i + 4] as u128) << 88u128) | ((
    b[i + 5] as u128) << 80u128) | ((b[i + 6] as u128) << 72u128) | ((b[i + 7]
        as u128) << 64u128) | ((b[i + 8] as u128) << 56u128) | ((b[i + 9] as u128) << 48u128) | ((
    b[i + 10] as u128) << 40u128) | ((b[i + 11] as u128) << 32u128) | ((b[i + 12]
        as u128) << 24u128) | ((b[i + 13] as u128) << 16u128) | ((b[i + 14] as u128) << 8u128) | (
    b[i + 15] as u128);
    proof {
        let s = b@.subrange(i as int, i + 16);
        assert(forall|k: int| 0 <= k < 16 ==> s[k] == b@[i + k]);
    }
    r
}

/// Compares two byte strings for equality.
pub fn bytes_eq(a: &[u8], b: &[u8]) -> (r: bool)
    ensures
        r == (a@ == b@),
{
    if a.len() != b.len() {
        return false;
    }
    let n = a.len();
    let mut i: usize = 0;
    while i < n
        invariant
            n == a@.len() == b@.len(),
            i <= n,
            forall|j: int| 0 <= j < i ==> a@[j] == b@[j],
        decreases n - i,
    {
        if a[i] != b[i] {
            return false;
        }
        i = i + 1;
    }
    proof {
        assert(a@ =~= b@);
    }
    true
}

/// Reading back the big-endian bytes of a 16-bit integer restores it.
pub proof fn lemma_u16_be_round_trip(x: u16)
    ensures
        spec_u16_from_be(spec_u16_be(x)) == x,
{
    assert(((((x >> 8) as u8) as u16) << 8) | (((x as u8)) as u16) == x) by (bit_vector);
}

/// Reading back the big-endian bytes of a 32-bit integer restores it.
pub proof fn lemma_u32_be_round_trip(x: u32)
    ensures
        spec_u32_from_be(spec_u32_be(x)) == x,
{
    assert(((((x >> 24) as u8) as u32) << 24) | ((((x >> 16) as u8) as u32) << 16) | ((((x
        >> 8) as u8) as u32) << 8) | (((x as u8)) as u32) == x) by (bit_vector);
}

/// Reading back the big-endian bytes of a 64-bit integer restores it.
pub proof fn lemma_u64_be_round_trip(x: u64)
    ensures
        spec_u64_from_be(spec_u64_be(x)) == x,
{
    assert(((((x >> 56) as u8) as u64) << 56) | ((((x >> 48) as u8) as u64) << 48) | ((((x
        >> 40) as u8) as u64) << 40) | ((((x >> 32) as u8) as u64) << 32) | ((((x >> 24)
        as u8) as u64) << 24) | ((((x >> 16) as u8) as u64) << 16) | ((((x >> 8)
        as u8) as u64) << 8) | (((x as u8)) as u64) == x) by (bit_vector);
}

/// Reading back the big-endian bytes of a 128-bit integer restores it.
pub proof fn lemma_u128_be_round_trip(x: u128)
    ensures
        spec_u128_from_be(spec_u128_be(x)) == x,
{
    assert(((((x >> 120) as u8) as u128) << 120) | ((((x >> 112) as u8) as u128) << 112) | ((((x
        >> 104) as u8) as u128) << 104) | ((((x >> 96) as u8) as u128) << 96) | ((((x >> 88)
        as u8) as u128) << 88) | ((((x >> 80) as u8) as u128) << 80) | ((((x >> 72)
        as u8) as u128) << 72) | ((((x >> 64) as u8) as u128) << 64) | ((((x >> 56)
        as u8) as u128) << 56) | ((((x >> 48) as u8) as u128) << 48) | ((((x >> 40)
        as u8) as u128) << 40) | ((((x >> 32) as u8) as u128) << 32) | ((((x >> 24)
        as u8) as u128) << 24) | ((((x >> 16) as u8) as u128) << 16) | ((((x >> 8)
        as u8) as u128) << 8) | (((x as u8)) as u128) == x) by (bit_vector);
}

} // verus!
