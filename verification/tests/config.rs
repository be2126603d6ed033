use burn_to_vote::config::{
    ceremony_key, record_vote, tally, Config, Network, TallyError, VoteError, VotingResult,
};

fn fresh() -> Config {
    let mut c = Config::mock_config();
    c.yesVotes = None;
    c.noVotes = None;
    c.result = None;
    c.finilized = false;
    c
}

#[test]
fn networks_parse_in_any_case() {
    assert_eq!(Network::parse("ganache"), Ok(Network::Ganache));
    assert_eq!(Network::parse("Ethereum"), Ok(Network::Ethereum));
    assert_eq!(Network::parse("SEPOLIA"), Ok(Network::Sepolia));
    assert_eq!("sepolia".parse::<Network>(), Ok(Network::Sepolia));
    assert_eq!(Network::parse("mainnet"), Err("Invalid network: mainnet".to_string()));
}

#[test]
fn network_urls() {
    assert_eq!(Network::Ganache.url(), "http://127.0.0.1:8545");
    assert_eq!(Network::Ethereum.url(), "https://ethereum-rpc.publicnode.com");
    assert_eq!(Network::Sepolia.url(), "https://ethereum-sepolia-rpc.publicnode.com");
}

#[test]
fn voting_results_parse_in_any_case() {
    assert_eq!(VotingResult::parse("Accepted"), Ok(VotingResult::Accepted));
    assert_eq!("rejected".parse::<VotingResult>(), Ok(VotingResult::Rejected));
    assert_eq!(VotingResult::parse("maybe"), Err("Invalid voting result: maybe".to_string()));
}

#[test]
fn mock_config_fields() {
    let c = Config::mock_config();
    assert_eq!(c.network, Network::Ganache);
    assert_eq!(c.ceremony_id, Some(123));
    assert_eq!(c.chain_id, Some(123));
    assert_eq!(c.votingDeadline.as_deref(), Some("123"));
    assert_eq!(c.tallyDeadline.as_deref(), Some("123"));
    assert_eq!(c.stateRoot.as_deref(), Some("root"));
    assert_eq!(c.result, Some(VotingResult::Accepted));
    assert_eq!(c.white_list, vec![0, 0, 0, 0]);
    assert_eq!(c.yesVotes, Some(3));
    assert_eq!(c.noVotes, None);
    assert!(c.finilized);
}

#[test]
fn votes_are_counted() {
    let mut c = fresh();
    assert_eq!(record_vote(&mut c, 1), Ok(()));
    assert_eq!(c.yesVotes, Some(1));
    assert_eq!(c.noVotes, None);
    assert_eq!(record_vote(&mut c, 0), Ok(()));
    assert_eq!(record_vote(&mut c, 0), Ok(()));
    assert_eq!(c.noVotes, Some(2));
    assert_eq!(c.yesVotes, Some(1));
}

#[test]
fn other_votes_are_refused() {
    let mut c = fresh();
    assert_eq!(record_vote(&mut c, 2), Err(VoteError::InvalidVote));
    assert_eq!(c.yesVotes, None);
    assert_eq!(c.noVotes, None);
}

#[test]
fn tally_after_the_deadline_decides() {
    let mut c = Config::mock_config();
    c.finilized = false;
    c.result = None;
    assert_eq!(tally(&mut c, 124), Ok(()));
    assert!(c.finilized);
    assert_eq!(c.result, Some(VotingResult::Accepted));
}

#[test]
fn tally_before_the_deadline_is_refused() {
    let mut c = fresh();
    assert_eq!(tally(&mut c, 123), Err(TallyError::PeriodNotOver));
    assert!(!c.finilized);
    assert_eq!(c.result, None);
}

#[test]
fn tally_with_an_unreadable_deadline_is_refused() {
    let mut c = fresh();
    c.tallyDeadline = Some("soon".to_string());
    assert_eq!(tally(&mut c, 1000), Err(TallyError::InvalidDeadline));
    assert!(!c.finilized);
}

#[test]
fn tally_follows_the_votes() {
    let runs: Vec<(Vec<u64>, VotingResult)> = vec![
        (vec![], VotingResult::Rejected),
        (vec![1], VotingResult::Accepted),
        (vec![0], VotingResult::Rejected),
        (vec![1, 0], VotingResult::Rejected),
        (vec![1, 0, 1], VotingResult::Accepted),
        (vec![0, 7, 1, 0], VotingResult::Rejected),
        (vec![1, 1, 5, 0], VotingResult::Accepted),
    ];
    for (votes, expected) in runs {
        let mut c = fresh();
        for v in &votes {
            let _ = record_vote(&mut c, *v);
        }
        let ones = votes.iter().filter(|v| **v == 1).count() as u64;
        let zeros = votes.iter().filter(|v| **v == 0).count() as u64;
        assert_eq!(c.yesVotes.unwrap_or(0), ones);
        assert_eq!(c.noVotes.unwrap_or(0), zeros);
        assert_eq!(tally(&mut c, 200), Ok(()));
        assert_eq!(c.result, Some(expected));
    }
}

#[test]
fn initiating_a_ceremony() {
    let mut c = fresh();
    c.white_list = vec![];
    c.initiate_ceremony(42, 1337, 1_700_000_000);
    assert_eq!(c.ceremony_id, Some(42));
    assert_eq!(c.chain_id, Some(1337));
    assert_eq!(c.white_list, vec![0, 0, 0, 0]);
    assert_eq!(c.votingDeadline.as_deref(), Some("1700000000"));
    assert_eq!(c.tallyDeadline.as_deref(), Some("1700000000"));
    assert_eq!(c.network, Network::Ganache);
}

#[test]
fn ceremony_keys() {
    assert_eq!(ceremony_key(Some(0x0102030405060708)), vec![1, 2, 3, 4, 5, 6, 7, 8]);
    assert_eq!(ceremony_key(Some(42)), 42u64.to_be_bytes().to_vec());
    assert_eq!(ceremony_key(None), b"currect".to_vec());
    assert_ne!(ceremony_key(Some(1)), ceremony_key(Some(2)));
    assert_ne!(ceremony_key(Some(1)), ceremony_key(None));
}
