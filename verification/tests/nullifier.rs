use burn_to_vote::commands::{burn_address, generate_nullifier};
use burn_to_vote::config::Config;
use burn_to_vote::field::{fr_repr_to_bytes, poseidon, u256_to_fp, Fr};
use burn_to_vote::uint::U256;

#[test]
fn test_nullifier_generation() {
    let mock_config = Config::mock_config();
    let blinding_factor = rand::random::<u64>();
    let pk = rand::random::<u64>().to_string();
    let nullifier = generate_nullifier(mock_config.clone(), blinding_factor, pk.clone());
    let nullifier_clone = generate_nullifier(mock_config, blinding_factor, pk);

    assert_eq!(nullifier, nullifier_clone);
}

#[test]
fn nullifier_hashes_key_ceremony_and_blinding_factor() {
    let config = Config::mock_config();
    let n = generate_nullifier(config, 7, "ff".to_string());
    let expected = poseidon(vec![Fr::from_u64(255), Fr::from_u64(123), Fr::from_u64(7)]);
    assert_eq!(n, expected.to_repr_string());
    assert!(n.starts_with("0x"));
    assert_eq!(n.len(), 66);
}

#[test]
fn nullifier_reads_the_key_as_hexadecimal() {
    let config = Config::mock_config();
    assert_eq!(
        generate_nullifier(config.clone(), 1, "10".to_string()),
        generate_nullifier(config.clone(), 1, "0x10".to_string())
    );
    assert_ne!(
        generate_nullifier(config.clone(), 1, "10".to_string()),
        generate_nullifier(config, 2, "10".to_string())
    );
}

#[test]
fn burn_address_is_the_tail_of_the_commitment() {
    let config = Config::mock_config();
    let block_hash = U256::from_u64(99);
    let (circuit, address, hash_text) =
        burn_address(config.clone(), "abc".to_string(), 5, block_hash, 1);
    // H(secret, ceremony id, vote, blinding factor)
    let h = poseidon(vec![
        u256_to_fp(U256::from_u64(0xabc)),
        Fr::from_u64(123),
        Fr::from_u64(1),
        Fr::from_u64(5),
    ]);
    let bytes = fr_repr_to_bytes(&h);
    assert_eq!(address, bytes[12..].to_vec());
    assert_eq!(address.len(), 20);
    assert_eq!(circuit.address, h.to_repr_string());
    assert_eq!(circuit.ceremony_id, 123);
    assert_eq!(circuit.random_secret, 5);
    assert_eq!(circuit.vote, 1);
    assert_eq!(hash_text, "99");
    let (_, again, _) = burn_address(config.clone(), "abc".to_string(), 5, block_hash, 1);
    assert_eq!(address, again);
    let (_, other_block, _) = burn_address(config.clone(), "abc".to_string(), 5, U256::from_u64(7), 1);
    assert_eq!(address, other_block);
    let (_, other_vote, _) = burn_address(config, "abc".to_string(), 5, block_hash, 0);
    assert_ne!(address, other_vote);
}
