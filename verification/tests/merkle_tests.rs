use atomic_escrow::merkle::{hash_pair, lex_le, verify_proof, MerkleVerifier};
use sha3::{Digest, Keccak256};

fn keccak(bytes: &[u8]) -> Vec<u8> {
    Keccak256::digest(bytes).to_vec()
}

fn keccak_hex(bytes: &[u8]) -> String {
    hex::encode(keccak(bytes))
}

/// Builds a sorted-pair tree over the given leaves (a power of two of them)
/// and returns the root together with each leaf's proof.
fn build_tree(leaves: &[Vec<u8>]) -> (Vec<u8>, Vec<Vec<Vec<u8>>>) {
    assert!(leaves.len().is_power_of_two());
    let mut proofs: Vec<Vec<Vec<u8>>> = vec![Vec::new(); leaves.len()];
    let mut level: Vec<Vec<u8>> = leaves.to_vec();
    // Which leaves sit under each node of the current level.
    let mut groups: Vec<Vec<usize>> = (0..leaves.len()).map(|i| vec![i]).collect();
    while level.len() > 1 {
        let mut next_level = Vec::new();
        let mut next_groups = Vec::new();
        for pair in 0..level.len() / 2 {
            let left = &level[2 * pair];
            let right = &level[2 * pair + 1];
            for &leaf in &groups[2 * pair] {
                proofs[leaf].push(right.clone());
            }
            for &leaf in &groups[2 * pair + 1] {
                proofs[leaf].push(left.clone());
            }
            next_level.push(hash_pair(left, right));
            let mut merged = groups[2 * pair].clone();
            merged.extend_from_slice(&groups[2 * pair + 1]);
            next_groups.push(merged);
        }
        level = next_level;
        groups = next_groups;
    }
    (level.pop().unwrap(), proofs)
}

#[test]
fn lex_le_orders_byte_strings() {
    assert!(lex_le(b"", b""));
    assert!(lex_le(b"", b"a"));
    assert!(!lex_le(b"a", b""));
    assert!(lex_le(b"ab", b"b"));
    assert!(lex_le(b"ab", b"abc"));
    assert!(!lex_le(b"abc", b"ab"));
    assert!(lex_le(b"abc", b"abc"));
}

#[test]
fn hash_pair_is_order_independent() {
    let a = keccak(b"a");
    let b = keccak(b"b");
    assert_eq!(hash_pair(&a, &b), hash_pair(&b, &a));
    // The digest is over the lexicographically smaller operand first.
    let expected = if lex_le(&a, &b) {
        keccak(&[a.clone(), b.clone()].concat())
    } else {
        keccak(&[b.clone(), a.clone()].concat())
    };
    assert_eq!(hash_pair(&a, &b), expected);
}

#[test]
fn every_generated_proof_verifies_and_any_flipped_bit_fails() {
    // Leaves bind each segment index to its hashlock.
    let hashlocks: Vec<String> = (0..8u16).map(|i| keccak_hex(format!("secret-{i}").as_bytes())).collect();
    let leaves: Vec<Vec<u8>> = (0..8u16)
        .map(|i| {
            let leaf_hex = MerkleVerifier::indexed_secret_hash_string(i, &hashlocks[i as usize])
                .unwrap();
            hex::decode(leaf_hex).unwrap()
        })
        .collect();
    let (root, proofs) = build_tree(&leaves);

    for i in 0..8usize {
        assert!(verify_proof(&leaves[i], &proofs[i], &root));

        // A flipped bit in the leaf fails.
        let mut bad_leaf = leaves[i].clone();
        bad_leaf[0] ^= 1;
        assert!(!verify_proof(&bad_leaf, &proofs[i], &root));

        // A flipped bit in any proof element fails.
        for k in 0..proofs[i].len() {
            let mut bad_proof = proofs[i].clone();
            bad_proof[k][5] ^= 0x80;
            assert!(!verify_proof(&leaves[i], &bad_proof, &root));
        }

        // A flipped bit in the root fails.
        let mut bad_root = root.clone();
        bad_root[31] ^= 1;
        assert!(!verify_proof(&leaves[i], &proofs[i], &bad_root));
    }
}

#[test]
fn hex_interface_verifies_with_and_without_0x_markers() {
    let hashlocks: Vec<String> = (0..4u16).map(|i| keccak_hex(format!("s{i}").as_bytes())).collect();
    let leaves: Vec<Vec<u8>> = (0..4u16)
        .map(|i| {
            hex::decode(
                MerkleVerifier::indexed_secret_hash_string(i, &hashlocks[i as usize]).unwrap(),
            )
            .unwrap()
        })
        .collect();
    let (root, proofs) = build_tree(&leaves);

    let leaf_hex = hex::encode(&leaves[2]);
    let proof_hex: Vec<String> = proofs[2].iter().map(hex::encode).collect();
    let root_hex = hex::encode(&root);

    assert_eq!(
        MerkleVerifier::verify(&leaf_hex, proof_hex.clone(), &root_hex),
        Some(true)
    );
    // Markers are accepted on every argument.
    let marked_proof: Vec<String> = proof_hex.iter().map(|p| format!("0x{p}")).collect();
    assert_eq!(
        MerkleVerifier::verify(&format!("0x{leaf_hex}"), marked_proof, &format!("0x{root_hex}")),
        Some(true)
    );
    // A wrong root is rejected.
    let other_root = keccak_hex(b"nonsense");
    assert_eq!(MerkleVerifier::verify(&leaf_hex, proof_hex.clone(), &other_root), Some(false));
    // Malformed hex is reported as such, not as a failed proof.
    assert_eq!(MerkleVerifier::verify("xyz", proof_hex.clone(), &root_hex), None);
    assert_eq!(MerkleVerifier::verify(&leaf_hex, proof_hex, "abc"), None);
}

#[test]
fn indexed_leaf_binds_the_index() {
    let hashlock = keccak_hex(b"shared");
    let l0 = MerkleVerifier::indexed_secret_hash_string(0, &hashlock).unwrap();
    let l1 = MerkleVerifier::indexed_secret_hash_string(1, &hashlock).unwrap();
    assert_ne!(l0, l1);
    // The leaf is the digest of the big-endian index followed by the
    // hashlock bytes.
    let mut combined = 1u16.to_be_bytes().to_vec();
    combined.extend_from_slice(&hex::decode(&hashlock).unwrap());
    assert_eq!(l1, keccak_hex(&combined));
    // The 0x marker on the hashlock is ignored; malformed hex is rejected.
    assert_eq!(
        MerkleVerifier::indexed_secret_hash_string(1, &format!("0x{hashlock}")).unwrap(),
        l1
    );
    assert_eq!(MerkleVerifier::indexed_secret_hash_string(1, "zz"), None);
}
