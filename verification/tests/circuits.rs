use burn_to_vote::circuits::{BurnAddressCircuit, CircuitIdentifier, MptCircuit, MtCircuit, NullifierCircuit};
use burn_to_vote::commands::{generate_proof, generate_tree};
use burn_to_vote::field::Fr;
use burn_to_vote::uint::U256;

#[test]
fn burn_address_inputs_text() {
    let c = BurnAddressCircuit::new("0x1f".to_string(), U256::from_u64(255), 7, 123, 7, 1);
    assert_eq!(c.identifier.circuit_name, "burnAddress");
    let expected = "{ \"address\": \"31\",
            \"privateKey\": \"255\",
            \"blinding_factor\": \"7\",
            \"ceremonyID\": \"123\",
            \"personalID\": \"7\",
            \"vote\": \"1\" }";
    assert_eq!(c.format_inputs(), expected);
}

#[test]
fn nullifier_inputs_text() {
    let c = NullifierCircuit::new(U256::from_u64(10), 3, 9, "0x00ff".to_string());
    assert_eq!(c.identifier.circuit_name, "nullifier");
    let expected = "{\"privateKey\": \"10\",
            \"blindingFactor\": \"3\",
            \"ceremonyID\": \"9\",
            \"nullifier\": \"255\" }";
    assert_eq!(c.format_inputs(), expected);
}

#[test]
fn circuit_names() {
    let tree = generate_tree(&mut (0..4).map(Fr::from_u64).collect());
    assert_eq!(MtCircuit::new(generate_proof(&tree, 0)).identifier.circuit_name, "merkleTree");
    let m = MptCircuit::new(
        vec![],
        0,
        U256::zero(),
        [0; 32],
        [0; 32],
        vec![],
        vec![],
        0,
        vec![],
        0,
        vec![],
        0,
    );
    assert_eq!(m.identifier.circuit_name, "mpt");
}

#[test]
fn snarkjs_commands() {
    let id = CircuitIdentifier { circuit_name: "vote" };
    assert_eq!(id.input_file_path(), "circuits/inputs/vote.json");
    assert_eq!(
        id.witness_command(),
        "snarkjs wtns calculate circuits/vote/vote_js/vote.wasm circuits/inputs/vote.json circuits/vote/witness.wtns"
    );
    assert_eq!(
        id.export_witness_command(),
        "snarkjs wtns export json circuits/vote/witness.wtns circuits/vote/witness.json"
    );
    assert_eq!(
        id.setup_zkey_command(),
        "snarkjs groth16 setup circuits/vote/vote.r1cs circuits/setup/pot_final.ptau circuits/vote/vote_0000.zkey"
    );
    assert_eq!(
        id.setup_vkey_command(),
        "snarkjs zkey export verificationkey circuits/vote/vote_0000.zkey circuits/vote/verification_key.json"
    );
    assert_eq!(
        id.proof_command(),
        "snarkjs groth16 prove circuits/vote/vote_0000.zkey circuits/vote/witness.wtns circuits/proofs/vote_proof.json circuits/proofs/vote_public.json"
    );
    assert_eq!(
        id.verify_command(),
        "snarkjs groth16 verify circuits/vote/verification_key.json circuits/proofs/vote_public.json circuits/proofs/vote_proof.json"
    );
    assert_eq!(
        id.verifier_command(),
        "snarkjs zkey export solidityverifier circuits/vote/vote_0000.zkey circuits/vote/vote_verifier.sol"
    );
}

use burn_to_vote::circuits::VoteCircuit;
use serde_json::Value;

fn object(fields: Vec<(&str, Value)>) -> String {
    let mut m = serde_json::Map::new();
    for (k, v) in fields {
        m.insert(k.to_string(), v);
    }
    Value::Object(m).to_string()
}

fn v<T: serde::Serialize>(x: T) -> Value {
    serde_json::to_value(x).unwrap()
}

fn frs(v: &[Fr]) -> Vec<String> {
    v.iter().map(|f| f.to_repr_string()).collect()
}

#[test]
fn merkle_inputs_are_the_json_object() {
    let tree = generate_tree(&mut (0..4).map(Fr::from_u64).collect());
    let p = generate_proof(&tree, 1);
    let expected = object(vec![
        ("root", v(p.root.to_repr_string())),
        ("leaf", v(p.leaf.to_repr_string())),
        ("pathElements", v(frs(&p.pathElements))),
        ("pathIndices", v(p.pathIndices.clone())),
    ]);
    let c = MtCircuit::new(p);
    assert_eq!(c.format_inputs(), expected);
}

fn sample_mpt() -> MptCircuit {
    MptCircuit::new(
        vec![0x12, 0xab],
        0x1f,
        U256 { limbs: [0, 0x10, 0, 0] },
        [7; 32],
        [0; 32],
        vec![1, 2, 3],
        vec![15, 0],
        2,
        vec![vec![1, 2], vec![], vec![0; 3]],
        3,
        vec![4, 0, 6],
        2,
    )
}

#[test]
fn account_proof_inputs_are_the_json_object() {
    let c = sample_mpt();
    let expected = object(vec![
        ("address", v(c.address.clone())),
        ("nonce", v(ethers::types::U64::from(c.nonce))),
        ("balance", v(ethers::types::U256(c.balance.limbs))),
        ("code_hash", v(c.code_hash)),
        ("storage_hash", v(c.storage_hash)),
        ("state_root", v(c.state_root.clone())),
        ("account_rlp", v(c.account_rlp.clone())),
        ("account_rlp_len", v(c.account_rlp_len)),
        ("account_proof", v(c.account_proof.clone())),
        ("account_proof_length", v(c.account_proof_length)),
        ("node_length", v(c.node_length.clone())),
        ("leaf_nibbles", v(c.leaf_nibbles)),
    ]);
    assert_eq!(c.format_inputs(), expected);
    assert!(c.format_inputs().contains("\"nonce\":\"0x1f\""));
    assert!(c.format_inputs().contains("\"balance\":\"0x100000000000000000\""));
}

#[test]
fn vote_inputs_are_the_json_object() {
    let m = sample_mpt();
    let path = vec![Fr::from_u64(5), Fr::from_u64(6)];
    let c = VoteCircuit::new(
        "0xabc".to_string(),
        U256::from_u64(255),
        7,
        123,
        7,
        1,
        0,
        "0x0def".to_string(),
        0,
        U256::zero(),
        m.code_hash,
        m.storage_hash,
        m.state_root.clone(),
        m.account_rlp.clone(),
        m.account_rlp_len,
        m.account_proof.clone(),
        m.account_proof_length,
        m.node_length.clone(),
        m.leaf_nibbles,
        Fr::from_u64(9),
        Fr::from_u64(10),
        path.clone(),
        vec![1, 0],
    );
    let expected = object(vec![
        ("address", v(c.address.clone())),
        ("secret", v(c.secret.to_string())),
        ("blinding_factor", v(c.blinding_factor.to_string())),
        ("ceremonyID", v(c.ceremony_id.to_string())),
        ("random_secret", v(c.random_secret.to_string())),
        ("vote", v(c.vote.to_string())),
        ("revote", v(c.revote)),
        ("nullifier", v(c.nullifier.clone())),
        ("nonce", v(ethers::types::U64::from(c.nonce))),
        ("balance", v(ethers::types::U256(c.balance.limbs))),
        ("code_hash", v(c.code_hash)),
        ("storage_hash", v(c.storage_hash)),
        ("state_root", v(c.state_root.clone())),
        ("account_rlp", v(c.account_rlp.clone())),
        ("account_rlp_len", v(c.account_rlp_len)),
        ("account_proof", v(c.account_proof.clone())),
        ("account_proof_length", v(c.account_proof_length)),
        ("node_length", v(c.node_length.clone())),
        ("leaf_nibbles", v(c.leaf_nibbles)),
        ("mt_root", v(c.mt_root.to_repr_string())),
        ("mt_leaf", v(c.mt_leaf.to_repr_string())),
        ("mt_pathElements", v(frs(&path))),
        ("mt_pathIndices", v(c.mt_pathIndices.clone())),
    ]);
    assert_eq!(c.format_inputs(), expected);
}
