use burn_to_vote::commands::{
    burn_address, burn_credited, demo_vote, generate_nullifier, onchain_schedule, vote_circuit, DemoData, Vote,
};
use burn_to_vote::config::{Config, VoteError};
use burn_to_vote::mpt::prepare_mpt_data;
use burn_to_vote::uint::U256;

fn vote(v: u64) -> Vote {
    Vote {
        ceremony_id: Some(123),
        voting_block: 0,
        amount: U256::from_u64(1),
        vote: v,
        revote: 0,
        private_key: "1234".to_string(),
    }
}

#[test]
fn onchain_schedule_times() {
    assert_eq!(onchain_schedule(1000), (1005, 1010, 11));
}

#[test]
fn demo_votes_yes() {
    let v = demo_vote(DemoData { ceremony_id: Some(9), pk: "ab".to_string() }, 3);
    assert_eq!(v.vote, 1);
    assert_eq!(v.revote, 0);
    assert_eq!(v.amount, U256::from_u64(1));
    assert_eq!(v.ceremony_id, Some(9));
    assert_eq!(v.private_key, "ab");
    assert_eq!(v.voting_block, 3);
}

fn circuit_parts(config: &Config, v: &Vote) -> (burn_to_vote::circuits::BurnAddressCircuit, String, burn_to_vote::circuits::MptCircuit) {
    let (burn, _, _) = burn_address(config.clone(), v.private_key.clone(), 5, U256::zero(), v.vote);
    let nullifier = generate_nullifier(config.clone(), 5, v.private_key.clone());
    let mpt = prepare_mpt_data(
        &vec![0u8; 20],
        0,
        U256::zero(),
        [0; 32],
        [0; 32],
        &vec![0u8; 32],
        &vec![vec![0xc4, 0x82, 0x20, 0x0f, 0x05]],
    )
    .unwrap();
    (burn, nullifier, mpt)
}

#[test]
fn a_yes_vote_makes_the_circuit_and_is_counted() {
    let mut config = Config::mock_config();
    let v = vote(1);
    let (burn, nullifier, mpt) = circuit_parts(&config, &v);
    let c = vote_circuit(&mut config, &v, 5, &burn, nullifier.clone(), mpt).unwrap();
    assert_eq!(config.yesVotes, Some(4));
    assert_eq!(config.noVotes, None);
    assert_eq!(c.identifier.circuit_name, "vote");
    assert_eq!(c.address, burn.address);
    assert_eq!(c.secret, U256::from_u64(0x1234));
    assert_eq!(c.nullifier, nullifier);
    assert_eq!(c.vote, 1);
    assert_eq!(c.leaf_nibbles, 2);
    assert_eq!(c.mt_pathIndices, vec![1, 1]);
}

#[test]
fn an_invalid_vote_is_refused_and_not_counted() {
    let mut config = Config::mock_config();
    let v = vote(3);
    let (burn, nullifier, mpt) = circuit_parts(&config, &v);
    let r = vote_circuit(&mut config, &v, 5, &burn, nullifier, mpt);
    assert_eq!(r.err(), Some(VoteError::InvalidVote));
    assert_eq!(config.yesVotes, Some(3));
    assert_eq!(config.noVotes, None);
}

#[test]
fn a_burn_is_credited_when_the_balance_grows_by_the_amount() {
    let pre = U256 { limbs: [u64::MAX, 0, 0, 0] };
    let amount = U256::from_u64(1);
    let post = U256 { limbs: [0, 1, 0, 0] };
    assert!(burn_credited(&pre, &amount, &post));
    assert!(!burn_credited(&pre, &amount, &pre));
    assert!(!burn_credited(&pre, &U256::from_u64(2), &post));
}

#[test]
fn sums_of_256_bit_numbers() {
    let max = U256 { limbs: [u64::MAX; 4] };
    assert_eq!(max.checked_add(&U256::zero()), Some(max));
    assert_eq!(max.checked_add(&U256::from_u64(1)), None);
    let a = U256 { limbs: [u64::MAX, u64::MAX, 0, 7] };
    assert_eq!(a.checked_add(&U256::from_u64(1)), Some(U256 { limbs: [0, 0, 1, 7] }));
}
