use burn_to_vote::mpt::{get_account_rlp, hex_nibbles, mpt_circuit, pad_with_zeros, prepare_mpt_data, MptError};
use burn_to_vote::uint::U256;

fn hex_bytes(s: &str) -> Vec<u8> {
    (0..s.len()).step_by(2).map(|i| u8::from_str_radix(&s[i..i + 2], 16).unwrap()).collect()
}

const EMPTY_ROOT: &str = "56e81f171bcc55a6ff8345e692c0f86e5b48e01b996cadc001622fb5e363b421";
const EMPTY_CODE: &str = "c5d2460186f7233c927e7db2dcc703c0e500b653ca82273b7bfad8045d85a470";

fn arr(s: &str) -> [u8; 32] {
    hex_bytes(s).try_into().unwrap()
}

#[test]
fn nibbles_of_bytes() {
    assert_eq!(hex_nibbles(&vec![0xab, 0x01, 0x00]), vec![10, 11, 0, 1, 0, 0]);
    assert_eq!(hex_nibbles(&vec![]), Vec::<u8>::new());
}

#[test]
fn padding_with_zeros() {
    assert_eq!(pad_with_zeros(vec![1, 2], 4), vec![1, 2, 0, 0]);
    assert_eq!(pad_with_zeros(vec![1, 2, 3], 2), vec![1, 2, 3]);
}

#[test]
fn empty_account_encoding() {
    let enc = get_account_rlp(0, U256::zero(), arr(EMPTY_ROOT), arr(EMPTY_CODE));
    let expected = hex_bytes(&format!("f8448080a0{}a0{}", EMPTY_ROOT, EMPTY_CODE));
    assert_eq!(enc, expected);
}

#[test]
fn account_encoding_with_nonce_and_balance() {
    let enc = get_account_rlp(1, U256::from_u64(0x0de0b6b3a7640000), arr(EMPTY_ROOT), arr(EMPTY_CODE));
    let expected = hex_bytes(&format!("f84c01880de0b6b3a7640000a0{}a0{}", EMPTY_ROOT, EMPTY_CODE));
    assert_eq!(enc, expected);
    let small = get_account_rlp(0x7f, U256::from_u64(0x80), arr(EMPTY_ROOT), arr(EMPTY_CODE));
    assert_eq!(&small[..5], &[0xf8, 0x45, 0x7f, 0x81, 0x80]);
}

// A leaf node: the key path 0x20 0x0f and the value 0x05.
fn leaf() -> Vec<u8> {
    vec![0xc4, 0x82, 0x20, 0x0f, 0x05]
}

#[test]
fn proof_inputs_from_one_leaf() {
    let address = vec![0x12u8; 20];
    let root = vec![0xaau8; 32];
    let c = prepare_mpt_data(&address, 1, U256::from_u64(7), arr(EMPTY_CODE), arr(EMPTY_ROOT), &root, &vec![leaf()])
        .unwrap();
    assert_eq!(c.identifier.circuit_name, "mpt");
    assert_eq!(c.address.len(), 40);
    assert_eq!(&c.address[..2], &[1, 2]);
    assert_eq!(c.state_root, vec![10u8; 64]);
    assert_eq!(c.nonce, 1);
    assert_eq!(c.balance, U256::from_u64(7));
    let enc = get_account_rlp(1, U256::from_u64(7), arr(EMPTY_ROOT), arr(EMPTY_CODE));
    assert_eq!(c.account_rlp_len, 2 * enc.len());
    assert_eq!(c.account_rlp.len(), 164);
    assert_eq!(c.account_rlp[..c.account_rlp_len].to_vec(), hex_nibbles(&enc));
    assert!(c.account_rlp[c.account_rlp_len..].iter().all(|d| *d == 0));
    assert_eq!(c.account_proof.len(), 8);
    assert_eq!(c.account_proof[0].len(), 1064);
    assert_eq!(c.account_proof[0][..10].to_vec(), vec![12, 4, 8, 2, 2, 0, 0, 15, 0, 5]);
    assert!(c.account_proof[1].iter().all(|d| *d == 0));
    assert_eq!(c.account_proof_length, 1);
    assert_eq!(c.node_length, vec![10, 0, 0, 0, 0, 0, 0, 0]);
    assert_eq!(c.leaf_nibbles, 2);
}

#[test]
fn branch_nodes_have_no_key_path() {
    // A list of three strings is neither a leaf nor an extension.
    let branch = vec![0xc3, 0x01, 0x02, 0x03];
    let c = prepare_mpt_data(&vec![0u8; 20], 0, U256::zero(), [0; 32], [0; 32], &vec![0u8; 32], &vec![leaf(), branch])
        .unwrap();
    assert_eq!(c.account_proof_length, 2);
    assert_eq!(c.node_length, vec![10, 8, 0, 0, 0, 0, 0, 0]);
    assert_eq!(c.leaf_nibbles, 0);
}

#[test]
fn a_node_with_a_nested_list_is_malformed() {
    let nested = vec![0xc2, 0xc1, 0x80];
    let r = prepare_mpt_data(&vec![0u8; 20], 0, U256::zero(), [0; 32], [0; 32], &vec![0u8; 32], &vec![leaf(), nested]);
    assert_eq!(r.err(), Some(MptError::MalformedNode));
}

#[test]
fn an_empty_key_path_is_refused() {
    let node = vec![0xc2, 0x80, 0x01];
    let r = prepare_mpt_data(&vec![0u8; 20], 0, U256::zero(), [0; 32], [0; 32], &vec![0u8; 32], &vec![node]);
    assert_eq!(r.err(), Some(MptError::EmptyKeyPath));
}

#[test]
fn inputs_from_decoded_nodes() {
    let decoded = vec![vec![vec![0x31u8, 0x22, 0x33], vec![0x05]]];
    let c = mpt_circuit(&vec![0u8; 20], 0, U256::zero(), [0; 32], [0; 32], &vec![0u8; 32], &vec![vec![0xc5, 0x83, 0x31, 0x22, 0x33, 0x05]], &decoded);
    assert_eq!(c.leaf_nibbles, 4);
    assert_eq!(c.node_length[0], 12);
}
