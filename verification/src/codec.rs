//! The fixed binary layout of the escrow records.
//!
//! Funding payloads carry a serialized record; both escrows must agree on
//! the layout byte for byte, since the content hash is the only cross-ledger
//! correlation key.  Strings are a big-endian 32-bit byte length followed by
//! UTF-8 bytes; integers are fixed-width big-endian; the deadlines use their
//! canonical 56-byte image.  A record parses only when the whole input is
//! exactly one well-formed encoding.

use vstd::prelude::*;

verus! {

use vstd::utf8::{encode_utf8, decode_utf8, valid_utf8, encode_utf8_decode_utf8, encode_utf8_valid_utf8};
use vstd::slice::slice_subrange;
use crate::bytes_be::{
    lemma_u16_be_round_trip,
    lemma_u32_be_round_trip,
    lemma_u64_be_round_trip,
    lemma_u128_be_round_trip,
};
use crate::bytes_be::{
    spec_u16_be,
    spec_u32_be,
    spec_u64_be,
    spec_u128_be,
    spec_u16_from_be,
    spec_u32_from_be,
    spec_u64_from_be,
    spec_u128_from_be,
    u16_be_bytes,
    u32_be_bytes,
    u64_be_bytes,
    u128_be_bytes,
    u16_from_be,
    u32_from_be,
    u64_from_be,
    u128_from_be,
};
use crate::timelock::TimeLock;
use crate::immutables::{Immutables, ImmutablesV};
use crate::escrow_src::{MakerOrder, MakerOrderV};

/// Relies on `core::str::from_utf8`: it succeeds exactly on valid UTF-8, and
/// the resulting string has the input as its bytes.
#[verifier::external_body]
fn utf8_to_string(b: &[u8]) -> (r: Option<String>)
    ensures
        r is Some <==> valid_utf8(b@),
        r matches Some(s) ==> encode_utf8(s@) == b@,
{
    match core::str::from_utf8(b) {
        Ok(s) => Some(s.to_string()),
        Err(_) => None,
    }
}

/// The encoding of one string field.
pub open spec fn spec_encode_str(s: Seq<char>) -> Seq<u8>
    recommends
        spec_str_fits(s),
{
    spec_u32_be(encode_utf8(s).len() as u32) + encode_utf8(s)
}

/// Whether a string field's byte length fits its 32-bit length prefix.
pub open spec fn spec_str_fits(s: Seq<char>) -> bool {
    encode_utf8(s).len() <= u32::MAX
}

/// The encoding of a commitment record: every field in declaration order.
pub open spec fn spec_encode_immutables(v: ImmutablesV) -> Seq<u8> {
    spec_encode_str(v.salt) + spec_encode_str(v.order_root_hash) + spec_encode_str(v.hashlock)
        + spec_encode_str(v.making_token) + spec_encode_str(v.taking_token) + spec_u128_be(
        v.making_amount,
    ) + spec_u128_be(v.taking_amount) + spec_u128_be(v.src_safty_deposit) + spec_u128_be(
        v.dst_safty_deposit,
    ) + v.timelock.spec_combined() + spec_encode_str(v.maker) + spec_encode_str(v.taker)
}

/// Whether every string field of a commitment fits its length prefix.
pub open spec fn spec_immutables_encodable(v: ImmutablesV) -> bool {
    &&& spec_str_fits(v.salt)
    &&& spec_str_fits(v.order_root_hash)
    &&& spec_str_fits(v.hashlock)
    &&& spec_str_fits(v.making_token)
    &&& spec_str_fits(v.taking_token)
    &&& spec_str_fits(v.maker)
    &&& spec_str_fits(v.taker)
}

/// The encoding of a maker order record: every field in declaration order.
pub open spec fn spec_encode_maker_order(v: MakerOrderV) -> Seq<u8> {
    spec_encode_str(v.root_hash) + spec_encode_str(v.token) + spec_u128_be(v.total_amount)
        + spec_u16_be(v.parts) + spec_u128_be(v.filled_amount) + spec_u128_be(v.withdrawn_amount)
        + spec_encode_str(v.maker) + spec_u64_be(v.expiration)
}

/// Whether every string field of a maker order fits its length prefix.
pub open spec fn spec_maker_order_encodable(v: MakerOrderV) -> bool {
    &&& spec_str_fits(v.root_hash)
    &&& spec_str_fits(v.token)
    &&& spec_str_fits(v.maker)
}

/// Parses one string field at offset `i`: its value and the offset after it.
pub open spec fn spec_parse_str_at(b: Seq<u8>, i: int) -> Option<(Seq<char>, int)> {
    if i + 4 <= b.len() {
        let n = spec_u32_from_be(b.subrange(i, i + 4)) as int;
        if i + 4 + n <= b.len() && valid_utf8(b.subrange(i + 4, i + 4 + n)) {
            Some((decode_utf8(b.subrange(i + 4, i + 4 + n)), i + 4 + n))
        } else {
            None
        }
    } else {
        None
    }
}

/// Parses one 16-bit field at offset `i`.
pub open spec fn spec_parse_u16_at(b: Seq<u8>, i: int) -> Option<(u16, int)> {
    if i + 2 <= b.len() {
        Some((spec_u16_from_be(b.subrange(i, i + 2)), i + 2))
    } else {
        None
    }
}

/// Parses one 64-bit field at offset `i`.
pub open spec fn spec_parse_u64_at(b: Seq<u8>, i: int) -> Option<(u64, int)> {
    if i + 8 <= b.len() {
        Some((spec_u64_from_be(b.subrange(i, i + 8)), i + 8))
    } else {
        None
    }
}

/// Parses one 128-bit field at offset `i`.
pub open spec fn spec_parse_u128_at(b: Seq<u8>, i: int) -> Option<(u128, int)> {
    if i + 16 <= b.len() {
        Some((spec_u128_from_be(b.subrange(i, i + 16)), i + 16))
    } else {
        None
    }
}

/// Parses the 56-byte deadline block at offset `i`.
pub open spec fn spec_parse_timelock_at(b: Seq<u8>, i: int) -> Option<(TimeLock, int)> {
    if i + 56 <= b.len() {
        Some(
            (
                TimeLock {
                    src_withdrawal: spec_u64_from_be(b.subrange(i, i + 8)),
                    src_public_withdrawal: spec_u64_from_be(b.subrange(i + 8, i + 16)),
                    src_cancellation: spec_u64_from_be(b.subrange(i + 16, i + 24)),
                    src_public_cancellation: spec_u64_from_be(b.subrange(i + 24, i + 32)),
                    dst_withdrawal: spec_u64_from_be(b.subrange(i + 32, i + 40)),
                    dst_public_withdrawal: spec_u64_from_be(b.subrange(i + 40, i + 48)),
                    dst_cancellation: spec_u64_from_be(b.subrange(i + 48, i + 56)),
                },
                i + 56,
            ),
        )
    } else {
        None
    }
}

/// Parses a whole commitment record; the input must be exactly one encoding.
pub open spec fn spec_parse_immutables(b: Seq<u8>) -> Option<ImmutablesV> {
    match spec_parse_str_at(b, 0) {
        Some((salt, j1)) => match spec_parse_str_at(b, j1) {
            Some((order_root_hash, j2)) => match spec_parse_str_at(b, j2) {
                Some((hashlock, j3)) => match spec_parse_str_at(b, j3) {
                    Some((making_token, j4)) => match spec_parse_str_at(b, j4) {
                        Some((taking_token, j5)) => match spec_parse_u128_at(b, j5) {
                            Some((making_amount, j6)) => match spec_parse_u128_at(b, j6) {
                                Some((taking_amount, j7)) => match spec_parse_u128_at(b, j7) {
                                    Some((src_safty_deposit, j8)) => match spec_parse_u128_at(
                                        b,
                                        j8,
                                    ) {
                                        Some((dst_safty_deposit, j9)) => match spec_parse_timelock_at(
                                            b,
                                            j9,
                                        ) {
                                            Some((timelock, j10)) => match spec_parse_str_at(
                                                b,
                                                j10,
                                            ) {
                                                Some((maker, j11)) => match spec_parse_str_at(
                                                    b,
                                                    j11,
                                                ) {
                                                    Some((taker, j12)) => if j12 == b.len() {
                                                        Some(
                                                            ImmutablesV {
                                                                salt,
                                                                order_root_hash,
                                                                hashlock,
                                                                making_token,
                                                                taking_token,
                                                                making_amount,
                                                                taking_amount,
                                                                src_safty_deposit,
                                                                dst_safty_deposit,
                                                                timelock,
                                                                maker,
                                                                taker,
                                                            },
                                                        )
                                                    } else {
                                                        None
                                                    },
                                                    None => None,
                                                },
                                                None => None,
                                            },
                                            None => None,
                                        },
                                        None => None,
                                    },
                                    None => None,
                                },
                                None => None,
                            },
                            None => None,
                        },
                        None => None,
                    },
                    None => None,
                },
                None => None,
            },
            None => None,
        },
        None => None,
    }
}

/// Parses a whole maker order record; the input must be exactly one encoding.
pub open spec fn spec_parse_maker_order(b: Seq<u8>) -> Option<MakerOrderV> {
    match spec_parse_str_at(b, 0) {
        Some((root_hash, j1)) => match spec_parse_str_at(b, j1) {
            Some((token, j2)) => match spec_parse_u128_at(b, j2) {
                Some((total_amount, j3)) => match spec_parse_u16_at(b, j3) {
                    Some((parts, j4)) => match spec_parse_u128_at(b, j4) {
                        Some((filled_amount, j5)) => match spec_parse_u128_at(b, j5) {
                            Some((withdrawn_amount, j6)) => match spec_parse_str_at(b, j6) {
                                Some((maker, j7)) => match spec_parse_u64_at(b, j7) {
                                    Some((expiration, j8)) => if j8 == b.len() {
                                        Some(
                                            MakerOrderV {
                                                root_hash,
                                                token,
                                                total_amount,
                                                parts,
                                                filled_amount,
                                                withdrawn_amount,
                                                maker,
                                                expiration,
                                            },
                                        )
                                    } else {
                                        None
                                    },
                                    None => None,
                                },
                                None => None,
                            },
                            None => None,
                        },
                        None => None,
                    },
                    None => None,
                },
                None => None,
            },
            None => None,
        },
        None => None,
    }
}

fn read_str_at(b: &[u8], i: usize) -> (r: Option<(String, usize)>)
    requires
        i <= b@.len(),
    ensures
        match r {
            Some(p) => spec_parse_str_at(b@, i as int) == Some((p.0@, p.1 as int)) && i < p.1
                <= b@.len(),
            None => spec_parse_str_at(b@, i as int) is None,
        },
{
    if b.len() - i < 4 {
        return None;
    }
    let n32 = u32_from_be(b, i);
    let n = n32 as usize;
    if n > b.len() - (i + 4) {
        return None;
    }
    let sub = slice_subrange(b, i + 4, i + 4 + n);
    match utf8_to_string(sub) {
        Some(s) => {
            proof {
                encode_utf8_decode_utf8(s@);
            }
            Some((s, i + 4 + n))
        },
        None => None,
    }
}

fn read_u16_at(b: &[u8], i: usize) -> (r: Option<(u16, usize)>)
    requires
        i <= b@.len(),
    ensures
        match r {
            Some(p) => spec_parse_u16_at(b@, i as int) == Some((p.0, p.1 as int)) && i < p.1
                <= b@.len(),
            None => spec_parse_u16_at(b@, i as int) is None,
        },
{
    if b.len() - i < 2 {
        return None;
    }
    Some((u16_from_be(b, i), i + 2))
}

fn read_u64_at(b: &[u8], i: usize) -> (r: Option<(u64, usize)>)
    requires
        i <= b@.len(),
    ensures
        match r {
            Some(p) => spec_parse_u64_at(b@, i as int) == Some((p.0, p.1 as int)) && i < p.1
                <= b@.len(),
            None => spec_parse_u64_at(b@, i as int) is None,
        },
{
    if b.len() - i < 8 {
        return None;
    }
    Some((u64_from_be(b, i), i + 8))
}

fn read_u128_at(b: &[u8], i: usize) -> (r: Option<(u128, usize)>)
    requires
        i <= b@.len(),
    ensures
        match r {
            Some(p) => spec_parse_u128_at(b@, i as int) == Some((p.0, p.1 as int)) && i < p.1
                <= b@.len(),
            None => spec_parse_u128_at(b@, i as int) is None,
        },
{
    if b.len() - i < 16 {
        return None;
    }
    Some((u128_from_be(b, i), i + 16))
}

fn read_timelock_at(b: &[u8], i: usize) -> (r: Option<(TimeLock, usize)>)
    requires
        i <= b@.len(),
    ensures
        match r {
            Some(p) => spec_parse_timelock_at(b@, i as int) == Some((p.0, p.1 as int)) && i < p.1
                <= b@.len(),
            None => spec_parse_timelock_at(b@, i as int) is None,
        },
{
    if b.len() - i < 56 {
        return None;
    }
    let tl = TimeLock {
        src_withdrawal: u64_from_be(b, i),
        src_public_withdrawal: u64_from_be(b, i + 8),
        src_cancellation: u64_from_be(b, i + 16),
        src_public_cancellation: u64_from_be(b, i + 24),
        dst_withdrawal: u64_from_be(b, i + 32),
        dst_public_withdrawal: u64_from_be(b, i + 40),
        dst_cancellation: u64_from_be(b, i + 48),
    };
    Some((tl, i + 56))
}

/// Parses a commitment record, accepting exactly the well-formed encodings.
pub fn parse_immutables(b: &[u8]) -> (r: Option<Immutables>)
    ensures
        match r {
            Some(v) => spec_parse_immutables(b@) == Some(v@),
            None => spec_parse_immutables(b@) is None,
        },
{
    let (salt, j1) = match read_str_at(b, 0) {
        Some(p) => p,
        None => {
            return None;
        },
    };
    let (order_root_hash, j2) = match read_str_at(b, j1) {
        Some(p) => p,
        None => {
            return None;
        },
    };
    let (hashlock, j3) = match read_str_at(b, j2) {
        Some(p) => p,
        None => {
            return None;
        },
    };
    let (making_token, j4) = match read_str_at(b, j3) {
        Some(p) => p,
        None => {
            return None;
        },
    };
    let (taking_token, j5) = match read_str_at(b, j4) {
        Some(p) => p,
        None => {
            return None;
        },
    };
    let (making_amount, j6) = match read_u128_at(b, j5) {
        Some(p) => p,
        None => {
            return None;
        },
    };
    let (taking_amount, j7) = match read_u128_at(b, j6) {
        Some(p) => p,
        None => {
            return None;
        },
    };
    let (src_safty_deposit, j8) = match read_u128_at(b, j7) {
        Some(p) => p,
        None => {
            return None;
        },
    };
    let (dst_safty_deposit, j9) = match read_u128_at(b, j8) {
        Some(p) => p,
        None => {
            return None;
        },
    };
    let (timelock, j10) = match read_timelock_at(b, j9) {
        Some(p) => p,
        None => {
            return None;
        },
    };
    let (maker, j11) = match read_str_at(b, j10) {
        Some(p) => p,
        None => {
            return None;
        },
    };
    let (taker, j12) = match read_str_at(b, j11) {
        Some(p) => p,
        None => {
            return None;
        },
    };
    if j12 != b.len() {
        return None;
    }
    Some(
        Immutables {
            salt,
            order_root_hash,
            hashlock,
            making_token,
            taking_token,
            making_amount,
            taking_amount,
            src_safty_deposit,
            dst_safty_deposit,
            timelock,
            maker,
            taker,
        },
    )
}

/// Parses a maker order record, accepting exactly the well-formed encodings.
pub fn parse_maker_order(b: &[u8]) -> (r: Option<MakerOrder>)
    ensures
        match r {
            Some(v) => spec_parse_maker_order(b@) == Some(v@),
            None => spec_parse_maker_order(b@) is None,
        },
{
    let (root_hash, j1) = match read_str_at(b, 0) {
        Some(p) => p,
        None => {
            return None;
        },
    };
    let (token, j2) = match read_str_at(b, j1) {
        Some(p) => p,
        None => {
            return None;
        },
    };
    let (total_amount, j3) = match read_u128_at(b, j2) {
        Some(p) => p,
        None => {
            return None;
        },
    };
    let (parts, j4) = match read_u16_at(b, j3) {
        Some(p) => p,
        None => {
            return None;
        },
    };
    let (filled_amount, j5) = match read_u128_at(b, j4) {
        Some(p) => p,
        None => {
            return None;
        },
    };
    let (withdrawn_amount, j6) = match read_u128_at(b, j5) {
        Some(p) => p,
        None => {
            return None;
        },
    };
    let (maker, j7) = match read_str_at(b, j6) {
        Some(p) => p,
        None => {
            return None;
        },
    };
    let (expiration, j8) = match read_u64_at(b, j7) {
        Some(p) => p,
        None => {
            return None;
        },
    };
    if j8 != b.len() {
        return None;
    }
    Some(
        MakerOrder {
            root_hash,
            token,
            total_amount,
            parts,
            filled_amount,
            withdrawn_amount,
            maker,
            expiration,
        },
    )
}

proof fn lemma_parse_str_in_context(pre: Seq<u8>, s: Seq<char>, post: Seq<u8>)
    requires
        spec_str_fits(s),
    ensures
        spec_parse_str_at(pre + spec_encode_str(s) + post, pre.len() as int) == Some(
            (s, (pre.len() + 4 + encode_utf8(s).len()) as int),
        ),
{
    let b = pre + spec_encode_str(s) + post;
    let i = pre.len() as int;
    let n = encode_utf8(s).len() as int;
    assert(spec_encode_str(s).len() == 4 + n);
    assert(b.subrange(i, i + 4) =~= spec_u32_be(n as u32));
    lemma_u32_be_round_trip(n as u32);
    assert(b.subrange(i + 4, i + 4 + n) =~= encode_utf8(s));
    encode_utf8_valid_utf8(s);
    encode_utf8_decode_utf8(s);
}

proof fn lemma_parse_u16_in_context(pre: Seq<u8>, x: u16, post: Seq<u8>)
    ensures
        spec_parse_u16_at(pre + spec_u16_be(x) + post, pre.len() as int) == Some(
            (x, (pre.len() + 2) as int),
        ),
{
    let b = pre + spec_u16_be(x) + post;
    let i = pre.len() as int;
    assert(b.subrange(i, i + 2) =~= spec_u16_be(x));
    lemma_u16_be_round_trip(x);
}

proof fn lemma_parse_u64_in_context(pre: Seq<u8>, x: u64, post: Seq<u8>)
    ensures
        spec_parse_u64_at(pre + spec_u64_be(x) + post, pre.len() as int) == Some(
            (x, (pre.len() + 8) as int),
        ),
{
    let b = pre + spec_u64_be(x) + post;
    let i = pre.len() as int;
    assert(b.subrange(i, i + 8) =~= spec_u64_be(x));
    lemma_u64_be_round_trip(x);
}

proof fn lemma_parse_u128_in_context(pre: Seq<u8>, x: u128, post: Seq<u8>)
    ensures
        spec_parse_u128_at(pre + spec_u128_be(x) + post, pre.len() as int) == Some(
            (x, (pre.len() + 16) as int),
        ),
{
    let b = pre + spec_u128_be(x) + post;
    let i = pre.len() as int;
    assert(b.subrange(i, i + 16) =~= spec_u128_be(x));
    lemma_u128_be_round_trip(x);
}

proof fn lemma_parse_timelock_in_context(pre: Seq<u8>, tl: TimeLock, post: Seq<u8>)
    ensures
        spec_parse_timelock_at(pre + tl.spec_combined() + post, pre.len() as int) == Some(
            (tl, (pre.len() + 56) as int),
        ),
{
    let b = pre + tl.spec_combined() + post;
    let i = pre.len() as int;
    assert(tl.spec_combined().len() == 56);
    assert(b.subrange(i, i + 8) =~= spec_u64_be(tl.src_withdrawal));
    assert(b.subrange(i + 8, i + 16) =~= spec_u64_be(tl.src_public_withdrawal));
    assert(b.subrange(i + 16, i + 24) =~= spec_u64_be(tl.src_cancellation));
    assert(b.subrange(i + 24, i + 32) =~= spec_u64_be(tl.src_public_cancellation));
    assert(b.subrange(i + 32, i + 40) =~= spec_u64_be(tl.dst_withdrawal));
    assert(b.subrange(i + 40, i + 48) =~= spec_u64_be(tl.dst_public_withdrawal));
    assert(b.subrange(i + 48, i + 56) =~= spec_u64_be(tl.dst_cancellation));
    lemma_u64_be_round_trip(tl.src_withdrawal);
    lemma_u64_be_round_trip(tl.src_public_withdrawal);
    lemma_u64_be_round_trip(tl.src_cancellation);
    lemma_u64_be_round_trip(tl.src_public_cancellation);
    lemma_u64_be_round_trip(tl.dst_withdrawal);
    lemma_u64_be_round_trip(tl.dst_public_withdrawal);
    lemma_u64_be_round_trip(tl.dst_cancellation);
}

proof fn lemma_add_assoc(x: Seq<u8>, y: Seq<u8>, z: Seq<u8>)
    ensures
        (x + y) + z == x + (y + z),
{
    assert((x + y) + z =~= x + (y + z));
}

proof fn lemma_add_empty(x: Seq<u8>)
    ensures
        x + Seq::<u8>::empty() == x,
        Seq::<u8>::empty() + x == x,
{
    assert(x + Seq::<u8>::empty() =~= x);
    assert(Seq::<u8>::empty() + x =~= x);
}

#[verifier::opaque]
spec fn im_image(v: ImmutablesV) -> Seq<u8> {
    spec_encode_immutables(v)
}

spec fn im_off1(v: ImmutablesV) -> int {
    spec_encode_str(v.salt).len() as int
}

spec fn im_off2(v: ImmutablesV) -> int {
    im_off1(v) + spec_encode_str(v.order_root_hash).len()
}

spec fn im_off3(v: ImmutablesV) -> int {
    im_off2(v) + spec_encode_str(v.hashlock).len()
}

spec fn im_off4(v: ImmutablesV) -> int {
    im_off3(v) + spec_encode_str(v.making_token).len()
}

spec fn im_off5(v: ImmutablesV) -> int {
    im_off4(v) + spec_encode_str(v.taking_token).len()
}

spec fn im_off6(v: ImmutablesV) -> int {
    im_off5(v) + 16
}

spec fn im_off7(v: ImmutablesV) -> int {
    im_off6(v) + 16
}

spec fn im_off8(v: ImmutablesV) -> int {
    im_off7(v) + 16
}

spec fn im_off9(v: ImmutablesV) -> int {
    im_off8(v) + 16
}

spec fn im_off10(v: ImmutablesV) -> int {
    im_off9(v) + 56
}

spec fn im_off11(v: ImmutablesV) -> int {
    im_off10(v) + spec_encode_str(v.maker).len()
}

spec fn im_off12(v: ImmutablesV) -> int {
    im_off11(v) + spec_encode_str(v.taker).len()
}

#[verifier::rlimit(100)]
proof fn im_fact1(v: ImmutablesV)
    requires
        spec_immutables_encodable(v),
    ensures
        spec_parse_str_at(im_image(v), 0) == Some((v.salt, im_off1(v))),
{
    reveal(im_image);
    let b = spec_encode_immutables(v);
    let post = spec_encode_str(v.order_root_hash) + (spec_encode_str(v.hashlock) + (spec_encode_str(v.making_token) + (spec_encode_str(v.taking_token) + (spec_u128_be(v.making_amount) + (spec_u128_be(v.taking_amount) + (spec_u128_be(v.src_safty_deposit) + (spec_u128_be(v.dst_safty_deposit) + (v.timelock.spec_combined() + (spec_encode_str(v.maker) + (spec_encode_str(v.taker)))))))))));
    assert(b =~= Seq::<u8>::empty() + spec_encode_str(v.salt) + post);
    lemma_parse_str_in_context(Seq::<u8>::empty(), v.salt, post);
}

#[verifier::rlimit(100)]
proof fn im_fact2(v: ImmutablesV)
    requires
        spec_immutables_encodable(v),
    ensures
        spec_parse_str_at(im_image(v), im_off1(v)) == Some((v.order_root_hash, im_off2(v))),
{
    reveal(im_image);
    let b = spec_encode_immutables(v);
    let pre = spec_encode_str(v.salt);
    let post = spec_encode_str(v.hashlock) + (spec_encode_str(v.making_token) + (spec_encode_str(v.taking_token) + (spec_u128_be(v.making_amount) + (spec_u128_be(v.taking_amount) + (spec_u128_be(v.src_safty_deposit) + (spec_u128_be(v.dst_safty_deposit) + (v.timelock.spec_combined() + (spec_encode_str(v.maker) + (spec_encode_str(v.taker))))))))));
    assert(b =~= pre + spec_encode_str(v.order_root_hash) + post);
    lemma_parse_str_in_context(pre, v.order_root_hash, post);
}

#[verifier::rlimit(100)]
proof fn im_fact3(v: ImmutablesV)
    requires
        spec_immutables_encodable(v),
    ensures
        spec_parse_str_at(im_image(v), im_off2(v)) == Some((v.hashlock, im_off3(v))),
{
    reveal(im_image);
    let b = spec_encode_immutables(v);
    let pre = spec_encode_str(v.salt) + spec_encode_str(v.order_root_hash);
    let post = spec_encode_str(v.making_token) + (spec_encode_str(v.taking_token) + (spec_u128_be(v.making_amount) + (spec_u128_be(v.taking_amount) + (spec_u128_be(v.src_safty_deposit) + (spec_u128_be(v.dst_safty_deposit) + (v.timelock.spec_combined() + (spec_encode_str(v.maker) + (spec_encode_str(v.taker)))))))));
    assert(b =~= pre + spec_encode_str(v.hashlock) + post);
    lemma_parse_str_in_context(pre, v.hashlock, post);
}

#[verifier::rlimit(100)]
proof fn im_fact4(v: ImmutablesV)
    requires
        spec_immutables_encodable(v),
    ensures
        spec_parse_str_at(im_image(v), im_off3(v)) == Some((v.making_token, im_off4(v))),
{
    reveal(im_image);
    let b = spec_encode_immutables(v);
    let pre = spec_encode_str(v.salt) + spec_encode_str(v.order_root_hash) + spec_encode_str(v.hashlock);
    let post = spec_encode_str(v.taking_token) + (spec_u128_be(v.making_amount) + (spec_u128_be(v.taking_amount) + (spec_u128_be(v.src_safty_deposit) + (spec_u128_be(v.dst_safty_deposit) + (v.timelock.spec_combined() + (spec_encode_str(v.maker) + (spec_encode_str(v.taker))))))));
    assert(b =~= pre + spec_encode_str(v.making_token) + post);
    lemma_parse_str_in_context(pre, v.making_token, post);
}

#[verifier::rlimit(100)]
proof fn im_fact5(v: ImmutablesV)
    requires
        spec_immutables_encodable(v),
    ensures
        spec_parse_str_at(im_image(v), im_off4(v)) == Some((v.taking_token, im_off5(v))),
{
    reveal(im_image);
    let b = spec_encode_immutables(v);
    let pre = spec_encode_str(v.salt) + spec_encode_str(v.order_root_hash) + spec_encode_str(v.hashlock) + spec_encode_str(v.making_token);
    let post = spec_u128_be(v.making_amount) + (spec_u128_be(v.taking_amount) + (spec_u128_be(v.src_safty_deposit) + (spec_u128_be(v.dst_safty_deposit) + (v.timelock.spec_combined() + (spec_encode_str(v.maker) + (spec_encode_str(v.taker)))))));
    assert(b =~= pre + spec_encode_str(v.taking_token) + post);
    lemma_parse_str_in_context(pre, v.taking_token, post);
}

#[verifier::rlimit(100)]
proof fn im_fact6(v: ImmutablesV)
    requires
        spec_immutables_encodable(v),
    ensures
        spec_parse_u128_at(im_image(v), im_off5(v)) == Some((v.making_amount, im_off6(v))),
{
    reveal(im_image);
    let b = spec_encode_immutables(v);
    let pre = spec_encode_str(v.salt) + spec_encode_str(v.order_root_hash) + spec_encode_str(v.hashlock) + spec_encode_str(v.making_token) + spec_encode_str(v.taking_token);
    let post = spec_u128_be(v.taking_amount) + (spec_u128_be(v.src_safty_deposit) + (spec_u128_be(v.dst_safty_deposit) + (v.timelock.spec_combined() + (spec_encode_str(v.maker) + (spec_encode_str(v.taker))))));
    assert(b =~= pre + spec_u128_be(v.making_amount) + post);
    lemma_parse_u128_in_context(pre, v.making_amount, post);
}

#[verifier::rlimit(100)]
proof fn im_fact7(v: ImmutablesV)
    requires
        spec_immutables_encodable(v),
    ensures
        spec_parse_u128_at(im_image(v), im_off6(v)) == Some((v.taking_amount, im_off7(v))),
{
    reveal(im_image);
    let b = spec_encode_immutables(v);
    let pre = spec_encode_str(v.salt) + spec_encode_str(v.order_root_hash) + spec_encode_str(v.hashlock) + spec_encode_str(v.making_token) + spec_encode_str(v.taking_token) + spec_u128_be(v.making_amount);
    let post = spec_u128_be(v.src_safty_deposit) + (spec_u128_be(v.dst_safty_deposit) + (v.timelock.spec_combined() + (spec_encode_str(v.maker) + (spec_encode_str(v.taker)))));
    assert(b =~= pre + spec_u128_be(v.taking_amount) + post);
    lemma_parse_u128_in_context(pre, v.taking_amount, post);
}

#[verifier::rlimit(100)]
proof fn im_fact8(v: ImmutablesV)
    requires
        spec_immutables_encodable(v),
    ensures
        spec_parse_u128_at(im_image(v), im_off7(v)) == Some((v.src_safty_deposit, im_off8(v))),
{
    reveal(im_image);
    let b = spec_encode_immutables(v);
    let pre = spec_encode_str(v.salt) + spec_encode_str(v.order_root_hash) + spec_encode_str(v.hashlock) + spec_encode_str(v.making_token) + spec_encode_str(v.taking_token) + spec_u128_be(v.making_amount) + spec_u128_be(v.taking_amount);
    let post = spec_u128_be(v.dst_safty_deposit) + (v.timelock.spec_combined() + (spec_encode_str(v.maker) + (spec_encode_str(v.taker))));
    assert(b =~= pre + spec_u128_be(v.src_safty_deposit) + post);
    lemma_parse_u128_in_context(pre, v.src_safty_deposit, post);
}

#[verifier::rlimit(100)]
proof fn im_fact9(v: ImmutablesV)
    requires
        spec_immutables_encodable(v),
    ensures
        spec_parse_u128_at(im_image(v), im_off8(v)) == Some((v.dst_safty_deposit, im_off9(v))),
{
    reveal(im_image);
    let b = spec_encode_immutables(v);
    let pre = spec_encode_str(v.salt) + spec_encode_str(v.order_root_hash) + spec_encode_str(v.hashlock) + spec_encode_str(v.making_token) + spec_encode_str(v.taking_token) + spec_u128_be(v.making_amount) + spec_u128_be(v.taking_amount) + spec_u128_be(v.src_safty_deposit);
    let post = v.timelock.spec_combined() + (spec_encode_str(v.maker) + (spec_encode_str(v.taker)));
    assert(b =~= pre + spec_u128_be(v.dst_safty_deposit) + post);
    lemma_parse_u128_in_context(pre, v.dst_safty_deposit, post);
}

#[verifier::rlimit(100)]
proof fn im_fact10(v: ImmutablesV)
    requires
        spec_immutables_encodable(v),
    ensures
        spec_parse_timelock_at(im_image(v), im_off9(v)) == Some((v.timelock, im_off10(v))),
{
    reveal(im_image);
    let b = spec_encode_immutables(v);
    let pre = spec_encode_str(v.salt) + spec_encode_str(v.order_root_hash) + spec_encode_str(v.hashlock) + spec_encode_str(v.making_token) + spec_encode_str(v.taking_token) + spec_u128_be(v.making_amount) + spec_u128_be(v.taking_amount) + spec_u128_be(v.src_safty_deposit) + spec_u128_be(v.dst_safty_deposit);
    let post = spec_encode_str(v.maker) + (spec_encode_str(v.taker));
    assert(b =~= pre + v.timelock.spec_combined() + post);
    lemma_parse_timelock_in_context(pre, v.timelock, post);
}

#[verifier::rlimit(100)]
proof fn im_fact11(v: ImmutablesV)
    requires
        spec_immutables_encodable(v),
    ensures
        spec_parse_str_at(im_image(v), im_off10(v)) == Some((v.maker, im_off11(v))),
{
    reveal(im_image);
    let b = spec_encode_immutables(v);
    let pre = spec_encode_str(v.salt) + spec_encode_str(v.order_root_hash) + spec_encode_str(v.hashlock) + spec_encode_str(v.making_token) + spec_encode_str(v.taking_token) + spec_u128_be(v.making_amount) + spec_u128_be(v.taking_amount) + spec_u128_be(v.src_safty_deposit) + spec_u128_be(v.dst_safty_deposit) + v.timelock.spec_combined();
    let post = spec_encode_str(v.taker);
    assert(b =~= pre + spec_encode_str(v.maker) + post);
    lemma_parse_str_in_context(pre, v.maker, post);
}

#[verifier::rlimit(100)]
proof fn im_fact12(v: ImmutablesV)
    requires
        spec_immutables_encodable(v),
    ensures
        spec_parse_str_at(im_image(v), im_off11(v)) == Some((v.taker, im_off12(v))),
{
    reveal(im_image);
    let b = spec_encode_immutables(v);
    let pre = spec_encode_str(v.salt) + spec_encode_str(v.order_root_hash) + spec_encode_str(v.hashlock) + spec_encode_str(v.making_token) + spec_encode_str(v.taking_token) + spec_u128_be(v.making_amount) + spec_u128_be(v.taking_amount) + spec_u128_be(v.src_safty_deposit) + spec_u128_be(v.dst_safty_deposit) + v.timelock.spec_combined() + spec_encode_str(v.maker);
    let post = Seq::<u8>::empty();
    assert(b =~= pre + spec_encode_str(v.taker) + post);
    lemma_parse_str_in_context(pre, v.taker, post);
}

#[verifier::rlimit(100)]
proof fn lemma_immutables_parse_from_facts(b: Seq<u8>, v: ImmutablesV)
    requires
        spec_parse_str_at(b, 0) == Some((v.salt, im_off1(v))),
        spec_parse_str_at(b, im_off1(v)) == Some((v.order_root_hash, im_off2(v))),
        spec_parse_str_at(b, im_off2(v)) == Some((v.hashlock, im_off3(v))),
        spec_parse_str_at(b, im_off3(v)) == Some((v.making_token, im_off4(v))),
        spec_parse_str_at(b, im_off4(v)) == Some((v.taking_token, im_off5(v))),
        spec_parse_u128_at(b, im_off5(v)) == Some((v.making_amount, im_off6(v))),
        spec_parse_u128_at(b, im_off6(v)) == Some((v.taking_amount, im_off7(v))),
        spec_parse_u128_at(b, im_off7(v)) == Some((v.src_safty_deposit, im_off8(v))),
        spec_parse_u128_at(b, im_off8(v)) == Some((v.dst_safty_deposit, im_off9(v))),
        spec_parse_timelock_at(b, im_off9(v)) == Some((v.timelock, im_off10(v))),
        spec_parse_str_at(b, im_off10(v)) == Some((v.maker, im_off11(v))),
        spec_parse_str_at(b, im_off11(v)) == Some((v.taker, im_off12(v))),
        im_off12(v) == b.len(),
    ensures
        spec_parse_immutables(b) == Some(v),
{
}

#[verifier::rlimit(100)]
proof fn lemma_im_image_len(v: ImmutablesV)
    ensures
        im_off12(v) == im_image(v).len(),
{
    reveal(im_image);
}

proof fn lemma_im_image_is_encoding(v: ImmutablesV)
    ensures
        im_image(v) == spec_encode_immutables(v),
{
    reveal(im_image);
}

/// Parsing is the inverse of encoding: every encodable commitment record
/// parses back to exactly itself.
#[verifier::rlimit(100)]
pub proof fn lemma_immutables_codec_round_trip(v: ImmutablesV)
    requires
        spec_immutables_encodable(v),
    ensures
        spec_parse_immutables(spec_encode_immutables(v)) == Some(v),
{
    im_fact1(v);
    im_fact2(v);
    im_fact3(v);
    im_fact4(v);
    im_fact5(v);
    im_fact6(v);
    im_fact7(v);
    im_fact8(v);
    im_fact9(v);
    im_fact10(v);
    im_fact11(v);
    im_fact12(v);
    lemma_im_image_len(v);
    lemma_immutables_parse_from_facts(im_image(v), v);
    lemma_im_image_is_encoding(v);
}

spec fn mk_off1(v: MakerOrderV) -> int {
    spec_encode_str(v.root_hash).len() as int
}

spec fn mk_off2(v: MakerOrderV) -> int {
    mk_off1(v) + spec_encode_str(v.token).len()
}

spec fn mk_off3(v: MakerOrderV) -> int {
    mk_off2(v) + 16
}

spec fn mk_off4(v: MakerOrderV) -> int {
    mk_off3(v) + 2
}

spec fn mk_off5(v: MakerOrderV) -> int {
    mk_off4(v) + 16
}

spec fn mk_off6(v: MakerOrderV) -> int {
    mk_off5(v) + 16
}

spec fn mk_off7(v: MakerOrderV) -> int {
    mk_off6(v) + spec_encode_str(v.maker).len()
}

spec fn mk_off8(v: MakerOrderV) -> int {
    mk_off7(v) + 8
}

#[verifier::rlimit(100)]
proof fn mk_fact1(v: MakerOrderV)
    requires
        spec_maker_order_encodable(v),
    ensures
        spec_parse_str_at(spec_encode_maker_order(v), 0) == Some((v.root_hash, mk_off1(v))),
{
    let b = spec_encode_maker_order(v);
    let post = spec_encode_str(v.token) + (spec_u128_be(v.total_amount) + (spec_u16_be(v.parts) + (spec_u128_be(v.filled_amount) + (spec_u128_be(v.withdrawn_amount) + (spec_encode_str(v.maker) + (spec_u64_be(v.expiration)))))));
    assert(b =~= Seq::<u8>::empty() + spec_encode_str(v.root_hash) + post);
    lemma_parse_str_in_context(Seq::<u8>::empty(), v.root_hash, post);
}

#[verifier::rlimit(100)]
proof fn mk_fact2(v: MakerOrderV)
    requires
        spec_maker_order_encodable(v),
    ensures
        spec_parse_str_at(spec_encode_maker_order(v), mk_off1(v)) == Some((v.token, mk_off2(v))),
{
    let b = spec_encode_maker_order(v);
    let pre = spec_encode_str(v.root_hash);
    let post = spec_u128_be(v.total_amount) + (spec_u16_be(v.parts) + (spec_u128_be(v.filled_amount) + (spec_u128_be(v.withdrawn_amount) + (spec_encode_str(v.maker) + (spec_u64_be(v.expiration))))));
    assert(b =~= pre + spec_encode_str(v.token) + post);
    lemma_parse_str_in_context(pre, v.token, post);
}

#[verifier::rlimit(100)]
proof fn mk_fact3(v: MakerOrderV)
    requires
        spec_maker_order_encodable(v),
    ensures
        spec_parse_u128_at(spec_encode_maker_order(v), mk_off2(v)) == Some((v.total_amount, mk_off3(v))),
{
    let b = spec_encode_maker_order(v);
    let pre = spec_encode_str(v.root_hash) + spec_encode_str(v.token);
    let post = spec_u16_be(v.parts) + (spec_u128_be(v.filled_amount) + (spec_u128_be(v.withdrawn_amount) + (spec_encode_str(v.maker) + (spec_u64_be(v.expiration)))));
    assert(b =~= pre + spec_u128_be(v.total_amount) + post);
    lemma_parse_u128_in_context(pre, v.total_amount, post);
}

#[verifier::rlimit(100)]
proof fn mk_fact4(v: MakerOrderV)
    requires
        spec_maker_order_encodable(v),
    ensures
        spec_parse_u16_at(spec_encode_maker_order(v), mk_off3(v)) == Some((v.parts, mk_off4(v))),
{
    let b = spec_encode_maker_order(v);
    let pre = spec_encode_str(v.root_hash) + spec_encode_str(v.token) + spec_u128_be(v.total_amount);
    let post = spec_u128_be(v.filled_amount) + (spec_u128_be(v.withdrawn_amount) + (spec_encode_str(v.maker) + (spec_u64_be(v.expiration))));
    assert(b =~= pre + spec_u16_be(v.parts) + post);
    lemma_parse_u16_in_context(pre, v.parts, post);
}

#[verifier::rlimit(100)]
proof fn mk_fact5(v: MakerOrderV)
    requires
        spec_maker_order_encodable(v),
    ensures
        spec_parse_u128_at(spec_encode_maker_order(v), mk_off4(v)) == Some((v.filled_amount, mk_off5(v))),
{
    let b = spec_encode_maker_order(v);
    let pre = spec_encode_str(v.root_hash) + spec_encode_str(v.token) + spec_u128_be(v.total_amount) + spec_u16_be(v.parts);
    let post = spec_u128_be(v.withdrawn_amount) + (spec_encode_str(v.maker) + (spec_u64_be(v.expiration)));
    assert(b =~= pre + spec_u128_be(v.filled_amount) + post);
    lemma_parse_u128_in_context(pre, v.filled_amount, post);
}

#[verifier::rlimit(100)]
proof fn mk_fact6(v: MakerOrderV)
    requires
        spec_maker_order_encodable(v),
    ensures
        spec_parse_u128_at(spec_encode_maker_order(v), mk_off5(v)) == Some((v.withdrawn_amount, mk_off6(v))),
{
    let b = spec_encode_maker_order(v);
    let pre = spec_encode_str(v.root_hash) + spec_encode_str(v.token) + spec_u128_be(v.total_amount) + spec_u16_be(v.parts) + spec_u128_be(v.filled_amount);
    let post = spec_encode_str(v.maker) + (spec_u64_be(v.expiration));
    assert(b =~= pre + spec_u128_be(v.withdrawn_amount) + post);
    lemma_parse_u128_in_context(pre, v.withdrawn_amount, post);
}

#[verifier::rlimit(100)]
proof fn mk_fact7(v: MakerOrderV)
    requires
        spec_maker_order_encodable(v),
    ensures
        spec_parse_str_at(spec_encode_maker_order(v), mk_off6(v)) == Some((v.maker, mk_off7(v))),
{
    let b = spec_encode_maker_order(v);
    let pre = spec_encode_str(v.root_hash) + spec_encode_str(v.token) + spec_u128_be(v.total_amount) + spec_u16_be(v.parts) + spec_u128_be(v.filled_amount) + spec_u128_be(v.withdrawn_amount);
    let post = spec_u64_be(v.expiration);
    assert(b =~= pre + spec_encode_str(v.maker) + post);
    lemma_parse_str_in_context(pre, v.maker, post);
}

#[verifier::rlimit(100)]
proof fn mk_fact8(v: MakerOrderV)
    requires
        spec_maker_order_encodable(v),
    ensures
        spec_parse_u64_at(spec_encode_maker_order(v), mk_off7(v)) == Some((v.expiration, mk_off8(v))),
{
    let b = spec_encode_maker_order(v);
    let pre = spec_encode_str(v.root_hash) + spec_encode_str(v.token) + spec_u128_be(v.total_amount) + spec_u16_be(v.parts) + spec_u128_be(v.filled_amount) + spec_u128_be(v.withdrawn_amount) + spec_encode_str(v.maker);
    let post = Seq::<u8>::empty();
    assert(b =~= pre + spec_u64_be(v.expiration) + post);
    lemma_parse_u64_in_context(pre, v.expiration, post);
}

/// Parsing is the inverse of encoding: every encodable maker order record
/// parses back to exactly itself.
#[verifier::rlimit(100)]
pub proof fn lemma_maker_order_codec_round_trip(v: MakerOrderV)
    requires
        spec_maker_order_encodable(v),
    ensures
        spec_parse_maker_order(spec_encode_maker_order(v)) == Some(v),
{
    mk_fact1(v);
    mk_fact2(v);
    mk_fact3(v);
    mk_fact4(v);
    mk_fact5(v);
    mk_fact6(v);
    mk_fact7(v);
    mk_fact8(v);
    assert(mk_off8(v) == spec_encode_maker_order(v).len());
}


fn encode_str_into(out: &mut Vec<u8>, s: &str) -> (ok: bool)
    ensures
        ok ==> final(out)@ == old(out)@ + spec_encode_str(s@) && spec_str_fits(s@),
        !ok ==> final(out)@ == old(out)@ && !spec_str_fits(s@),
{
    let bytes = s.as_bytes();
    if bytes.len() > u32::MAX as usize {
        return false;
    }
    let len32 = bytes.len() as u32;
    let lb = u32_be_bytes(len32);
    out.extend_from_slice(lb.as_slice());
    out.extend_from_slice(bytes);
    true
}

/// Encodes a commitment record; `None` when a string field is too long for
/// its length prefix.
pub fn encode_immutables(v: &Immutables) -> (r: Option<Vec<u8>>)
    ensures
        r matches Some(out) ==> out@ == spec_encode_immutables(v@) && spec_immutables_encodable(
            v@,
        ),
        r is None ==> !spec_immutables_encodable(v@),
{
    let mut out: Vec<u8> = Vec::new();
    if !encode_str_into(&mut out, v.salt.as_str()) {
        return None;
    }
    proof {
        assert(Seq::<u8>::empty() + spec_encode_str(v.salt@) =~= spec_encode_str(v.salt@));
    }
    if !encode_str_into(&mut out, v.order_root_hash.as_str()) {
        return None;
    }
    if !encode_str_into(&mut out, v.hashlock.as_str()) {
        return None;
    }
    if !encode_str_into(&mut out, v.making_token.as_str()) {
        return None;
    }
    if !encode_str_into(&mut out, v.taking_token.as_str()) {
        return None;
    }
    let a0 = u128_be_bytes(v.making_amount);
    out.extend_from_slice(a0.as_slice());
    let a1 = u128_be_bytes(v.taking_amount);
    out.extend_from_slice(a1.as_slice());
    let a2 = u128_be_bytes(v.src_safty_deposit);
    out.extend_from_slice(a2.as_slice());
    let a3 = u128_be_bytes(v.dst_safty_deposit);
    out.extend_from_slice(a3.as_slice());
    let tl = v.timelock.get_combined();
    out.extend_from_slice(tl.as_slice());
    if !encode_str_into(&mut out, v.maker.as_str()) {
        return None;
    }
    if !encode_str_into(&mut out, v.taker.as_str()) {
        return None;
    }
    Some(out)
}

/// Encodes a maker order record; `None` when a string field is too long for
/// its length prefix.
pub fn encode_maker_order(v: &MakerOrder) -> (r: Option<Vec<u8>>)
    ensures
        r matches Some(out) ==> out@ == spec_encode_maker_order(v@) && spec_maker_order_encodable(
            v@,
        ),
        r is None ==> !spec_maker_order_encodable(v@),
{
    let mut out: Vec<u8> = Vec::new();
    if !encode_str_into(&mut out, v.root_hash.as_str()) {
        return None;
    }
    proof {
        assert(Seq::<u8>::empty() + spec_encode_str(v.root_hash@) =~= spec_encode_str(
            v.root_hash@,
        ));
    }
    if !encode_str_into(&mut out, v.token.as_str()) {
        return None;
    }
    let a0 = u128_be_bytes(v.total_amount);
    out.extend_from_slice(a0.as_slice());
    let p = u16_be_bytes(v.parts);
    out.extend_from_slice(p.as_slice());
    let a1 = u128_be_bytes(v.filled_amount);
    out.extend_from_slice(a1.as_slice());
    let a2 = u128_be_bytes(v.withdrawn_amount);
    out.extend_from_slice(a2.as_slice());
    if !encode_str_into(&mut out, v.maker.as_str()) {
        return None;
    }
    let e = u64_be_bytes(v.expiration);
    out.extend_from_slice(e.as_slice());
    Some(out)
}

} // verus!
