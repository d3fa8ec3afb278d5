//! Merkle membership proofs for partial-fill hashlocks.
//!
//! A multi-fill maker order commits to one root over per-segment hashlocks.
//! Each leaf binds a segment index to its hashlock, and a proof is folded
//! with sorted-pair hashing — at every step the lexicographically smaller
//! operand is hashed first — so verification needs no knowledge of which
//! side each sibling was on.

use vstd::prelude::*;

verus! {

use vstd::slice::slice_to_vec;
use vstd::arithmetic::div_mod::{
    lemma_fundamental_div_mod,
    lemma_mod_division_less_than_divisor,
    lemma_multiply_divide_lt,
};
use crate::bytes_be::{spec_u16_be, u16_be_bytes, bytes_eq};
use crate::hashing::{
    keccak_of,
    keccak256,
    spec_hex_of,
    spec_hex_str_bytes,
    hex_encode,
    hex_decode,
    spec_strip_0x,
    strip_0x,
};

/// Lexicographic order on byte strings: a strict prefix comes first.
pub open spec fn spec_lex_le(a: Seq<u8>, b: Seq<u8>) -> bool
    decreases a.len(),
{
    if a.len() == 0 {
        true
    } else if b.len() == 0 {
        false
    } else if a[0] < b[0] {
        true
    } else if a[0] > b[0] {
        false
    } else {
        spec_lex_le(a.drop_first(), b.drop_first())
    }
}

/// Compares two byte strings lexicographically.
pub fn lex_le(a: &[u8], b: &[u8]) -> (r: bool)
    ensures
        r == spec_lex_le(a@, b@),
{
    let mut i: usize = 0;
    proof {
        assert(a@.skip(0) =~= a@);
        assert(b@.skip(0) =~= b@);
    }
    loop
        invariant
            i <= a@.len(),
            i <= b@.len(),
            spec_lex_le(a@, b@) == spec_lex_le(a@.skip(i as int), b@.skip(i as int)),
        decreases a@.len() - i,
    {
        if i >= a.len() {
            return true;
        }
        if i >= b.len() {
            return false;
        }
        let x = a[i];
        let y = b[i];
        proof {
            assert(a@.skip(i as int)[0] == a@[i as int]);
            assert(b@.skip(i as int)[0] == b@[i as int]);
        }
        if x < y {
            return true;
        }
        if x > y {
            return false;
        }
        proof {
            assert(a@.skip(i as int).drop_first() =~= a@.skip(i as int + 1));
            assert(b@.skip(i as int).drop_first() =~= b@.skip(i as int + 1));
        }
        i = i + 1;
    }
}

/// Sorted-pair hash: the digest of the two operands concatenated in
/// lexicographic order.
pub open spec fn spec_hash_pair(a: Seq<u8>, b: Seq<u8>) -> Seq<u8> {
    if spec_lex_le(a, b) {
        keccak_of(a + b)
    } else {
        keccak_of(b + a)
    }
}

/// Hashes two sibling nodes, smaller operand first.
pub fn hash_pair(a: &[u8], b: &[u8]) -> (r: Vec<u8>)
    ensures
        r@ == spec_hash_pair(a@, b@),
        r@.len() == 32,
{
    let mut combined: Vec<u8> = Vec::new();
    if lex_le(a, b) {
        combined.extend_from_slice(a);
        combined.extend_from_slice(b);
        proof {
            assert(combined@ =~= a@ + b@);
        }
    } else {
        combined.extend_from_slice(b);
        combined.extend_from_slice(a);
        proof {
            assert(combined@ =~= b@ + a@);
        }
    }
    keccak256(combined.as_slice())
}

/// The value a proof folds to: the leaf combined with each sibling in turn.
pub open spec fn spec_fold_proof(leaf: Seq<u8>, proof: Seq<Seq<u8>>) -> Seq<u8>
    decreases proof.len(),
{
    if proof.len() == 0 {
        leaf
    } else {
        spec_fold_proof(spec_hash_pair(leaf, proof[0]), proof.drop_first())
    }
}

/// The views of a list of byte vectors.
pub open spec fn spec_byte_views(s: Seq<Vec<u8>>) -> Seq<Seq<u8>> {
    Seq::new(s.len(), |i: int| s[i]@)
}

/// The views of a list of strings.
pub open spec fn spec_str_views(s: Seq<String>) -> Seq<Seq<char>> {
    Seq::new(s.len(), |i: int| s[i]@)
}

/// Verifies a Merkle proof over raw bytes.  The leaf is already hashed once;
/// the proof lists the sibling hashes from the leaf up.
pub fn verify_proof(leaf: &[u8], proof: &[Vec<u8>], root: &[u8]) -> (r: bool)
    ensures
        r == (spec_fold_proof(leaf@, spec_byte_views(proof@)) == root@),
{
    let ghost dv = spec_byte_views(proof@);
    let mut computed: Vec<u8> = slice_to_vec(leaf);
    let n = proof.len();
    let mut i: usize = 0;
    proof {
        assert(dv.skip(0) =~= dv);
    }
    while i < n
        invariant
            n == proof@.len(),
            dv == spec_byte_views(proof@),
            i <= n,
            spec_fold_proof(leaf@, dv) == spec_fold_proof(computed@, dv.skip(i as int)),
        decreases n - i,
    {
        proof {
            assert(dv.skip(i as int)[0] == dv[i as int]);
            assert(dv[i as int] == proof@[i as int]@);
            assert(dv.skip(i as int).drop_first() =~= dv.skip(i as int + 1));
        }
        computed = hash_pair(computed.as_slice(), proof[i].as_slice());
        i = i + 1;
    }
    proof {
        assert(dv.skip(n as int) =~= Seq::<Seq<u8>>::empty());
    }
    bytes_eq(computed.as_slice(), root)
}

/// A hex string argument with an optional `0x` marker, decoded to bytes.
pub open spec fn spec_hex_item(s: Seq<char>) -> Option<Seq<u8>> {
    spec_hex_str_bytes(spec_strip_0x(s))
}

/// Whether every element of a list of hex string arguments decodes.
pub open spec fn spec_all_items_hex(elems: Seq<Seq<char>>) -> bool {
    forall|i: int| 0 <= i < elems.len() ==> (#[trigger] spec_hex_item(elems[i])) is Some
}

/// The decoded bytes of a list of hex string arguments.
pub open spec fn spec_decoded_items(elems: Seq<Seq<char>>) -> Seq<Seq<u8>> {
    Seq::new(elems.len(), |i: int| spec_hex_item(elems[i]).unwrap())
}

/// A leaf for one fill segment: the digest of the big-endian 16-bit segment
/// index followed by the hashlock bytes.  Binding the index makes every
/// segment's leaf distinct even when two segments share a hashlock.
pub open spec fn spec_indexed_leaf(index: u16, hashlock: Seq<u8>) -> Seq<u8> {
    keccak_of(spec_u16_be(index) + hashlock)
}

/// Merkle membership checking over hex string arguments.
pub struct MerkleVerifier;

impl MerkleVerifier {
    /// Verifies a Merkle proof given as hex strings, each with an optional
    /// `0x` marker.  Returns `None` when any argument is not valid hex.
    pub fn verify(leaf_hex: &str, proof_hex: Vec<String>, root_hex: &str) -> (r: Option<bool>)
        ensures
            r is Some <==> (spec_hex_item(leaf_hex@) is Some && spec_hex_item(root_hex@) is Some
                && spec_all_items_hex(spec_str_views(proof_hex@))),
            r matches Some(b) ==> b == (spec_fold_proof(
                spec_hex_item(leaf_hex@).unwrap(),
                spec_decoded_items(spec_str_views(proof_hex@)),
            ) == spec_hex_item(root_hex@).unwrap()),
    {
        let ghost dv = spec_str_views(proof_hex@);
        let leaf_stripped = strip_0x(leaf_hex);
        let leaf_bytes = match hex_decode(leaf_stripped.as_str().as_bytes()) {
            Some(v) => v,
            None => {
                return None;
            },
        };
        let root_stripped = strip_0x(root_hex);
        let root_bytes = match hex_decode(root_stripped.as_str().as_bytes()) {
            Some(v) => v,
            None => {
                return None;
            },
        };
        let n = proof_hex.len();
        let mut proof_bytes: Vec<Vec<u8>> = Vec::new();
        let mut k: usize = 0;
        while k < n
            invariant
                n == proof_hex@.len(),
                dv == spec_str_views(proof_hex@),
                k <= n,
                proof_bytes@.len() == k,
                forall|j: int| 0 <= j < k ==> (#[trigger] spec_hex_item(dv[j])) is Some,
                forall|j: int|
                    0 <= j < k ==> (#[trigger] proof_bytes@[j])@ == spec_hex_item(dv[j]).unwrap(),
            decreases n - k,
        {
            proof {
                assert(dv[k as int] == proof_hex@[k as int]@);
            }
            let stripped = strip_0x(proof_hex[k].as_str());
            match hex_decode(stripped.as_str().as_bytes()) {
                Some(v) => {
                    proof_bytes.push(v);
                },
                None => {
                    proof {
                        assert(spec_hex_item(dv[k as int]) is None);
                        assert(!spec_all_items_hex(dv));
                    }
                    return None;
                },
            }
            k = k + 1;
        }
        let ok = verify_proof(leaf_bytes.as_slice(), proof_bytes.as_slice(), root_bytes.as_slice());
        proof {
            assert(spec_byte_views(proof_bytes@) =~~= spec_decoded_items(dv));
        }
        Some(ok)
    }

    /// Builds the hex leaf for a fill segment from its index and hashlock
    /// (hex, optional `0x` marker).  Returns `None` when the hashlock is not
    /// valid hex.
    pub fn indexed_secret_hash_string(index: u16, hashed_secret: &str) -> (r: Option<String>)
        ensures
            r is Some <==> spec_hex_item(hashed_secret@) is Some,
            r matches Some(s) ==> s@ == spec_hex_of(
                spec_indexed_leaf(index, spec_hex_item(hashed_secret@).unwrap()),
            ),
    {
        let stripped = strip_0x(hashed_secret);
        let hash_bytes = match hex_decode(stripped.as_str().as_bytes()) {
            Some(v) => v,
            None => {
                return None;
            },
        };
        let mut combined = u16_be_bytes(index);
        combined.extend_from_slice(hash_bytes.as_slice());
        proof {
            assert(combined@ == spec_u16_be(index) + spec_hex_item(hashed_secret@).unwrap());
        }
        let digest = keccak256(combined.as_slice());
        Some(hex_encode(digest.as_slice()))
    }
}

proof fn lemma_lex_le_total(a: Seq<u8>, b: Seq<u8>)
    ensures
        spec_lex_le(a, b) || spec_lex_le(b, a),
    decreases a.len(),
{
    if a.len() == 0 {
    } else if b.len() == 0 {
    } else if a[0] == b[0] {
        lemma_lex_le_total(a.drop_first(), b.drop_first());
    }
}

proof fn lemma_lex_le_antisymmetric(a: Seq<u8>, b: Seq<u8>)
    requires
        spec_lex_le(a, b),
        spec_lex_le(b, a),
    ensures
        a == b,
    decreases a.len(),
{
    if a.len() == 0 {
        assert(b.len() == 0);
        assert(a =~= b);
    } else {
        assert(a[0] == b[0]);
        lemma_lex_le_antisymmetric(a.drop_first(), b.drop_first());
        assert(a.len() == b.len());
        assert(forall|i: int| 1 <= i < a.len() ==> a[i] == a.drop_first()[i - 1]);
        assert(forall|i: int| 1 <= i < b.len() ==> b[i] == b.drop_first()[i - 1]);
        assert(a =~= b);
    }
}

/// Sorted-pair hashing is order-independent: a sibling hashes to the same
/// parent whichever side of the tree it came from.
pub proof fn lemma_hash_pair_symmetric(a: Seq<u8>, b: Seq<u8>)
    ensures
        spec_hash_pair(a, b) == spec_hash_pair(b, a),
{
    lemma_lex_le_total(a, b);
    if spec_lex_le(a, b) && spec_lex_le(b, a) {
        lemma_lex_le_antisymmetric(a, b);
    }
}

/// Whether a node count is a power of two, the shape a full tree needs.
pub open spec fn spec_is_pow2(n: int) -> bool
    decreases n,
{
    if n <= 0 {
        false
    } else if n == 1 {
        true
    } else {
        n % 2 == 0 && spec_is_pow2(n / 2)
    }
}

/// One level up the tree: adjacent nodes combined pairwise with the
/// sorted-pair hash.
pub open spec fn spec_tree_level_up(level: Seq<Seq<u8>>) -> Seq<Seq<u8>> {
    Seq::new(level.len() / 2, |i: int| spec_hash_pair(level[2 * i], level[2 * i + 1]))
}

/// The root of the sorted-pair tree built over a level of nodes.
pub open spec fn spec_tree_root(level: Seq<Seq<u8>>) -> Seq<u8>
    recommends
        level.len() >= 1,
    decreases level.len(),
{
    if level.len() <= 1 {
        level[0]
    } else {
        spec_tree_root(spec_tree_level_up(level))
    }
}

/// The sibling path for the node at position `j`, from the bottom level up.
pub open spec fn spec_tree_proof(level: Seq<Seq<u8>>, j: int) -> Seq<Seq<u8>>
    recommends
        0 <= j < level.len(),
        spec_is_pow2(level.len() as int),
    decreases level.len(),
{
    if level.len() <= 1 {
        Seq::<Seq<u8>>::empty()
    } else {
        let sibling = if j % 2 == 0 {
            level[j + 1]
        } else {
            level[j - 1]
        };
        seq![sibling] + spec_tree_proof(spec_tree_level_up(level), j / 2)
    }
}

/// The whole-tree round trip: over a full (power-of-two) level of leaves,
/// every leaf's generated sibling path folds to the tree's root, so a
/// correctly generated proof always verifies against it.
pub proof fn lemma_tree_proof_verifies(level: Seq<Seq<u8>>, j: int)
    requires
        spec_is_pow2(level.len() as int),
        0 <= j < level.len(),
    ensures
        spec_fold_proof(level[j], spec_tree_proof(level, j)) == spec_tree_root(level),
    decreases level.len(),
{
    let n = level.len() as int;
    if n == 1 {
        assert(spec_tree_proof(level, j) =~= Seq::<Seq<u8>>::empty());
    } else {
        let up = spec_tree_level_up(level);
        let m = up.len() as int;
        let k = j / 2;
        lemma_fundamental_div_mod(n, 2);
        lemma_fundamental_div_mod(j, 2);
        lemma_mod_division_less_than_divisor(j, 2);
        assert(n == 2 * m);
        lemma_multiply_divide_lt(j, 2, m);
        let sibling = if j % 2 == 0 {
            level[j + 1]
        } else {
            level[j - 1]
        };
        let rest = spec_tree_proof(up, k);
        let path = seq![sibling] + rest;
        assert(path[0] == sibling);
        assert(path.drop_first() =~= rest);
        if j % 2 == 0 {
            assert(j == 2 * k);
            assert(up[k] == spec_hash_pair(level[j], sibling));
        } else {
            assert(j == 2 * k + 1);
            assert(up[k] == spec_hash_pair(sibling, level[j]));
            lemma_hash_pair_symmetric(sibling, level[j]);
        }
        lemma_tree_proof_verifies(up, k);
        assert(spec_fold_proof(level[j], path) == spec_fold_proof(spec_hash_pair(level[j], sibling), rest));
    }
}

} // verus!
