use burn_to_vote::commands::{generate_proof, generate_tree, whitelist_proof};
use burn_to_vote::field::{poseidon, Fr};
use burn_to_vote::merkle::{is_power_of_two, MerkleTree};

fn leaves(n: u64) -> Vec<Fr> {
    (0..n).map(Fr::from_u64).collect()
}

fn hash2(a: Fr, b: Fr) -> Fr {
    poseidon(vec![a, b])
}

fn fold(leaf: Fr, path: &[Fr], indices: &[usize]) -> Fr {
    let mut cur = leaf;
    for (e, i) in path.iter().zip(indices.iter()) {
        cur = if *i == 0 { hash2(cur, *e) } else { hash2(*e, cur) };
    }
    cur
}

#[test]
fn powers_of_two_are_recognised() {
    assert!(is_power_of_two(1));
    assert!(is_power_of_two(2));
    assert!(is_power_of_two(4));
    assert!(is_power_of_two(1024));
    assert!(!is_power_of_two(0));
    assert!(!is_power_of_two(3));
    assert!(!is_power_of_two(6));
    assert!(!is_power_of_two(1023));
}

#[test]
fn root_of_four_leaves_hashes_pairs() {
    let l = leaves(4);
    let tree = generate_tree(&mut l.clone());
    let proof = generate_proof(&tree, 2);
    let node0 = hash2(l[0], l[1]);
    let node1 = hash2(l[2], l[3]);
    assert_eq!(proof.root, hash2(node0, node1));
    assert_eq!(proof.leaf, l[2]);
    assert_eq!(proof.pathElements, vec![l[3], node0]);
    assert_eq!(proof.pathIndices, vec![0, 1]);
}

#[test]
fn every_proof_recomputes_the_root() {
    let l = leaves(4);
    let tree = generate_tree(&mut l.clone());
    let root = generate_proof(&tree, 0).root;
    for i in 0..4 {
        let p = generate_proof(&tree, i);
        assert_eq!(p.root, root);
        assert_eq!(p.leaf, l[i]);
        assert_eq!(p.pathElements.len(), 2);
        assert_eq!(fold(p.leaf, &p.pathElements, &p.pathIndices), root);
    }
}

#[test]
fn proof_indices_are_the_index_bits() {
    let tree = generate_tree(&mut leaves(8));
    let p = generate_proof(&tree, 5);
    assert_eq!(p.pathIndices, vec![1, 0, 1]);
}

#[test]
fn tree_built_by_hand_matches_generate_tree() {
    let l = leaves(4);
    let mut tree = MerkleTree::new(l.clone());
    tree.build_tree();
    let a = tree.generate_proof(1);
    let b = generate_proof(&generate_tree(&mut l.clone()), 1);
    assert_eq!(a.root, b.root);
    assert_eq!(a.pathElements, b.pathElements);
}

#[test]
fn allow_list_proof_is_for_the_last_voter() {
    let list = vec![0u64, 0, 0, 0];
    let p = whitelist_proof(&list);
    let zero = Fr::from_u64(0);
    let pair = hash2(zero, zero);
    assert_eq!(p.leaf, zero);
    assert_eq!(p.root, hash2(pair, pair));
    assert_eq!(p.pathIndices, vec![1, 1]);
    assert_eq!(p.pathElements, vec![zero, pair]);
}

#[test]
fn test() {
    let mut addr: Vec<Fr> = [Fr::from_u64(0), Fr::from_u64(1), Fr::from_u64(2)].to_vec();
    let tree = generate_tree(&mut addr);
    let proof = generate_proof(&tree, 2);
    let root = proof.root;
    let node0 = hash2(addr[0], addr[1]);
    let node1 = hash2(addr[2], addr[3]);
    let expected_root = hash2(node0, node1);
    assert_eq!(root, expected_root);
}

#[test]
fn short_lists_are_padded_with_zero_leaves() {
    let mut l = leaves(5);
    let _ = generate_tree(&mut l);
    assert_eq!(l.len(), 8);
    assert_eq!(l[..5].to_vec(), leaves(5));
    assert!(l[5..].iter().all(|x| *x == Fr::zero()));
}

#[test]
fn allow_list_of_three_is_padded() {
    let p = whitelist_proof(&vec![1u64, 2, 3]);
    assert_eq!(p.leaf, Fr::from_u64(3));
    assert_eq!(p.pathElements[0], Fr::zero());
    assert_eq!(p.pathIndices, vec![0, 1]);
}
