use burn_to_vote::onchain::{
    decode_revert, deploy_command, get_contract_address, get_token_contract_address, parse_u256_vec,
    proof_data, public_data, warp_command, BroadcastTx,
};
use burn_to_vote::uint::U256;

fn strings(v: &[&str]) -> Vec<String> {
    v.iter().map(|s| s.to_string()).collect()
}

fn word(n: u64) -> Vec<u8> {
    let mut w = vec![0u8; 24];
    w.extend_from_slice(&n.to_be_bytes());
    w
}

fn revert_data(msg: &str) -> Vec<u8> {
    let mut d = vec![0x08, 0xc3, 0x79, 0xa0];
    d.extend(word(32));
    d.extend(word(msg.len() as u64));
    let mut body = msg.as_bytes().to_vec();
    while body.len() % 32 != 0 {
        body.push(0);
    }
    d.extend(body);
    d
}

#[test]
fn revert_messages_are_decoded() {
    assert_eq!(decode_revert(&revert_data("Voting closed")), Some("Voting closed".to_string()));
    assert_eq!(decode_revert(&revert_data("")), Some(String::new()));
    let text = "Abstimmung geschlossen \u{2013} \u{2713} \u{1f5f3}";
    assert_eq!(decode_revert(&revert_data(text)), Some(text.to_string()));
}

#[test]
fn other_data_is_no_revert_message() {
    let mut d = revert_data("x");
    d[0] = 0x09;
    assert_eq!(decode_revert(&d), None);
    assert_eq!(decode_revert(&vec![0x08, 0xc3, 0x79]), None);
    assert_eq!(decode_revert(&vec![0x08, 0xc3, 0x79, 0xa0]), None);
}

#[test]
fn malformed_messages_are_not_decoded() {
    let mut high_offset = revert_data("x");
    high_offset[4] = 1;
    assert_eq!(decode_revert(&high_offset), None);
    let mut too_long = revert_data("x");
    too_long[4 + 63] = 200;
    assert_eq!(decode_revert(&too_long), None);
}

#[test]
fn decimal_lists() {
    let v = parse_u256_vec(&strings(&["0", "42", "18446744073709551616"]));
    assert_eq!(v[0], U256::zero());
    assert_eq!(v[1], U256::from_u64(42));
    assert_eq!(v[2].limbs, [0, 1, 0, 0]);
}

#[test]
fn proof_pairs_are_swapped() {
    let a = strings(&["1", "2", "1"]);
    let b = vec![strings(&["3", "4"]), strings(&["5", "6"]), strings(&["1", "0"])];
    let c = strings(&["7", "8", "1"]);
    let p = proof_data(&a, &b, &c);
    assert_eq!(p.pi_a, [U256::from_u64(1), U256::from_u64(2)]);
    assert_eq!(p.pi_b, [[U256::from_u64(4), U256::from_u64(3)], [U256::from_u64(6), U256::from_u64(5)]]);
    assert_eq!(p.pi_c, [U256::from_u64(7), U256::from_u64(8)]);
}

#[test]
fn public_signals_and_deploy_command() {
    let p = public_data(&strings(&["10", "11", "12", "13", "14", "15"]));
    assert_eq!(p.data[3], U256::from_u64(13));
    assert_eq!(
        deploy_command(1005, 1010, &p),
        "cd contracts && forge script VotingScript --rpc-url http://127.0.0.1:8545 --broadcast --sig 'run(uint256,uint256,uint256,uint256,uint256)' 1005 1010 12 15 10 && cd .."
    );
}

#[test]
fn warp_command_text() {
    assert_eq!(warp_command(11), "cd contracts && cast rpc evm_increaseTime 11 && cast rpc evm_mine && cd ..");
}

fn tx(function: Option<&str>, first: Option<Option<&str>>, created: Option<Option<&str>>) -> BroadcastTx {
    BroadcastTx {
        function: function.map(|s| s.to_string()),
        first_additional_address: first.map(|o| o.map(|s| s.to_string())),
        contract_address: created.map(|o| o.map(|s| s.to_string())),
    }
}

const DEPLOY: &str = "deployVotingContract(bytes32,uint8,address,uint256,uint256,uint256,uint256,uint256)";

#[test]
fn the_last_voting_deployment_gives_the_address() {
    let txs = vec![
        tx(Some(DEPLOY), Some(Some("0xaaa")), None),
        tx(Some("other()"), Some(Some("0xbbb")), None),
        tx(Some(DEPLOY), Some(Some("0xccc")), None),
        tx(Some(DEPLOY), None, None),
        tx(None, Some(Some("0xddd")), None),
    ];
    assert_eq!(get_contract_address(&txs), "0xccc");
    assert_eq!(get_contract_address(&vec![tx(Some("x()"), Some(Some("0x1")), None)]), "");
    assert_eq!(get_contract_address(&vec![]), "");
}

#[test]
fn the_last_created_contract_is_the_token() {
    let txs = vec![
        tx(None, None, Some(Some("0x111"))),
        tx(None, None, None),
        tx(None, None, Some(Some("0x222"))),
        tx(None, None, None),
    ];
    assert_eq!(get_token_contract_address(&txs), "0x222");
    assert_eq!(get_token_contract_address(&vec![tx(None, None, None)]), "");
}
