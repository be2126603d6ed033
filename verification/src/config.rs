//! A voting ceremony's configuration, the networks it can run on, and the two
//! decisions taken on it: counting a vote and tallying the result.
use vstd::prelude::*;

use crate::arith::{be_value, lemma_u64_le_bytes, push_u64_le, reversed, u64_le_bytes};
use crate::uint::{dec_string, dec_value, is_dec_u256, U256};

verus! {

/// The chain a ceremony runs on.
#[derive(Clone, Copy, Debug, PartialEq, Eq, Structural)]
pub enum Network {
    Ganache,
    Ethereum,
    Sepolia,
}

/// The outcome of a tallied ceremony.
#[derive(Clone, Copy, Debug, PartialEq, Eq, Structural)]
pub enum VotingResult {
    Accepted,
    Rejected,
}

/// A voting ceremony.
#[allow(non_snake_case)]
#[derive(Clone, Debug)]
pub struct Config {
    pub network: Network,
    pub ceremony_id: Option<u64>,
    pub chain_id: Option<u64>,
    pub votingDeadline: Option<String>,
    pub tallyDeadline: Option<String>,
    pub stateRoot: Option<String>,
    pub result: Option<VotingResult>,
    pub white_list: Vec<u64>,
    pub yesVotes: Option<u64>,
    pub noVotes: Option<u64>,
    pub finilized: bool,
}

/// The RPC endpoint of each network.
pub open spec fn network_url(n: Network) -> Seq<char> {
    match n {
        Network::Ganache => "http://127.0.0.1:8545"@,
        Network::Ethereum => "https://ethereum-rpc.publicnode.com"@,
        Network::Sepolia => "https://ethereum-sepolia-rpc.publicnode.com"@,
    }
}

/// `c`, lowered if it is an ASCII capital.
pub open spec fn ascii_lower_char(c: char) -> char {
    if 'A' <= c && c <= 'Z' {
        ((c as nat) + 32) as char
    } else {
        c
    }
}

/// `s` with its ASCII capitals lowered.
pub open spec fn ascii_lower(s: Seq<char>) -> Seq<char> {
    s.map_values(|c: char| ascii_lower_char(c))
}

/// The network that a name denotes, whatever its case.
pub open spec fn parse_network(s: Seq<char>) -> Option<Network> {
    if ascii_lower(s) == "ganache"@ {
        Some(Network::Ganache)
    } else if ascii_lower(s) == "ethereum"@ {
        Some(Network::Ethereum)
    } else if ascii_lower(s) == "sepolia"@ {
        Some(Network::Sepolia)
    } else {
        None
    }
}

/// The result that a name denotes, whatever its case.
pub open spec fn parse_voting_result(s: Seq<char>) -> Option<VotingResult> {
    if ascii_lower(s) == "accepted"@ {
        Some(VotingResult::Accepted)
    } else if ascii_lower(s) == "rejected"@ {
        Some(VotingResult::Rejected)
    } else {
        None
    }
}

/// Whether `s`, with its ASCII capitals lowered, is `word`.
fn eq_lowered(s: &str, word: &str) -> (r: bool)
    ensures
        r == (ascii_lower(s@) == word@),
{
    let n = s.unicode_len();
    let m = word.unicode_len();
    if n != m {
        assert(ascii_lower(s@).len() != word@.len());
        return false;
    }
    let mut i: usize = 0;
    while i < n
        invariant
            n == s@.len(),
            n == word@.len(),
            i <= n,
            forall|k: int| 0 <= k < i ==> ascii_lower_char(#[trigger] s@[k]) == word@[k],
        decreases n - i,
    {
        let c = s.get_char(i);
        let w = word.get_char(i);
        let same = if 'A' <= c && c <= 'Z' {
            (c as u32) + 32 == (w as u32)
        } else {
            c == w
        };
        if !same {
            assert(ascii_lower(s@)[i as int] != word@[i as int]);
            return false;
        }
        i = i + 1;
    }
    assert(ascii_lower(s@) =~= word@);
    true
}

impl Network {
    /// The RPC endpoint of the network.
    pub fn url(&self) -> (r: &'static str)
        ensures
            r@ == network_url(*self),
    {
        match self {
            Network::Ganache => "http://127.0.0.1:8545",
            Network::Ethereum => "https://ethereum-rpc.publicnode.com",
            Network::Sepolia => "https://ethereum-sepolia-rpc.publicnode.com",
        }
    }

    /// Reads a network name in any case; the error is `Invalid network: ` and the text.
    pub fn parse(s: &str) -> (r: Result<Network, String>)
        ensures
            match r {
                Ok(n) => parse_network(s@) == Some(n),
                Err(e) => parse_network(s@) is None && e@ == "Invalid network: "@ + s@,
            },
    {
        if eq_lowered(s, "ganache") {
            Ok(Network::Ganache)
        } else if eq_lowered(s, "ethereum") {
            Ok(Network::Ethereum)
        } else if eq_lowered(s, "sepolia") {
            Ok(Network::Sepolia)
        } else {
            let mut e = String::from_str("Invalid network: ");
            e.append(s);
            Err(e)
        }
    }
}

impl std::str::FromStr for Network {
    type Err = String;

    fn from_str(s: &str) -> (r: Result<Network, String>)
        ensures
            match r {
                Ok(n) => parse_network(s@) == Some(n),
                Err(e) => parse_network(s@) is None && e@ == "Invalid network: "@ + s@,
            },
    {
        Network::parse(s)
    }
}

impl VotingResult {
    /// Reads a result name in any case; the error is `Invalid voting result: ` and
    /// the text.
    pub fn parse(s: &str) -> (r: Result<VotingResult, String>)
        ensures
            match r {
                Ok(v) => parse_voting_result(s@) == Some(v),
                Err(e) => parse_voting_result(s@) is None && e@ == "Invalid voting result: "@ + s@,
            },
    {
        if eq_lowered(s, "accepted") {
            Ok(VotingResult::Accepted)
        } else if eq_lowered(s, "rejected") {
            Ok(VotingResult::Rejected)
        } else {
            let mut e = String::from_str("Invalid voting result: ");
            e.append(s);
            Err(e)
        }
    }
}

impl std::str::FromStr for VotingResult {
    type Err = String;

    fn from_str(s: &str) -> (r: Result<VotingResult, String>)
        ensures
            match r {
                Ok(v) => parse_voting_result(s@) == Some(v),
                Err(e) => parse_voting_result(s@) is None && e@ == "Invalid voting result: "@ + s@,
            },
    {
        VotingResult::parse(s)
    }
}

/// A vote count that has not been started counts zero.
pub open spec fn count(c: Option<u64>) -> nat {
    match c {
        Some(n) => n as nat,
        None => 0,
    }
}

/// Whether the yes count beats the no count, an unstarted count being below any
/// started one.
pub open spec fn yes_beats_no(yes: Option<u64>, no: Option<u64>) -> bool {
    match (yes, no) {
        (Some(y), Some(n)) => y > n,
        (Some(_), None) => true,
        (None, _) => false,
    }
}

/// The outcome of a tally.
pub open spec fn outcome(yes: Option<u64>, no: Option<u64>) -> VotingResult {
    if yes_beats_no(yes, no) {
        VotingResult::Accepted
    } else {
        VotingResult::Rejected
    }
}

/// Why a vote was not counted.
#[derive(Clone, Copy, Debug, PartialEq, Eq, Structural)]
pub enum VoteError {
    /// The vote is neither 1 (yes) nor 0 (no).
    InvalidVote,
}

/// Why a tally was refused.
#[derive(Clone, Copy, Debug, PartialEq, Eq, Structural)]
pub enum TallyError {
    /// The tally deadline is not a decimal number of at most 256 bits.
    InvalidDeadline,
    /// The tally deadline has not passed.
    PeriodNotOver,
}

impl Config {
    /// A fixed configuration for trials.
    pub fn mock_config() -> (r: Config)
        ensures
            r.network == Network::Ganache,
            r.ceremony_id == Some(123u64),
            r.chain_id == Some(123u64),
            r.votingDeadline matches Some(s) && s@ == "123"@,
            r.tallyDeadline matches Some(s) && s@ == "123"@,
            r.stateRoot matches Some(s) && s@ == "root"@,
            r.result == Some(VotingResult::Accepted),
            r.white_list@ == seq![0u64, 0u64, 0u64, 0u64],
            r.yesVotes == Some(3u64),
            r.noVotes is None,
            r.finilized,
    {
        let white_list = vec![0u64, 0u64, 0u64, 0u64];
        Config {
            network: Network::Ganache,
            ceremony_id: Some(123),
            chain_id: Some(123),
            votingDeadline: Some(String::from_str("123")),
            tallyDeadline: Some(String::from_str("123")),
            stateRoot: Some(String::from_str("root")),
            result: Some(VotingResult::Accepted),
            white_list,
            yesVotes: Some(3),
            noVotes: None,
            finilized: true,
        }
    }
}

/// The ceremony after a vote: 1 adds one to the yes count, 0 to the no count (an
/// unstarted count starts at zero); any other vote changes nothing.
pub open spec fn after_vote(c: Config, vote: u64) -> Config {
    if vote == 1 {
        Config { yesVotes: Some((count(c.yesVotes) + 1) as u64), ..c }
    } else if vote == 0 {
        Config { noVotes: Some((count(c.noVotes) + 1) as u64), ..c }
    } else {
        c
    }
}

/// The ceremony after the votes `votes`, in order.
pub open spec fn after_votes(c: Config, votes: Seq<u64>) -> Config
    decreases votes.len(),
{
    if votes.len() == 0 {
        c
    } else {
        after_vote(after_votes(c, votes.drop_last()), votes.last())
    }
}

/// How many of `votes` are `v`.
pub open spec fn occurrences(votes: Seq<u64>, v: u64) -> nat
    decreases votes.len(),
{
    if votes.len() == 0 {
        0
    } else {
        occurrences(votes.drop_last(), v) + if votes.last() == v {
            1nat
        } else {
            0nat
        }
    }
}

/// Counts a vote: 1 adds one to the yes count, 0 to the no count (an unstarted count
/// starts at zero); any other vote is refused and changes nothing.
pub fn record_vote(config: &mut Config, vote: u64) -> (r: Result<(), VoteError>)
    requires
        vote == 1 ==> count(old(config).yesVotes) < u64::MAX,
        vote == 0 ==> count(old(config).noVotes) < u64::MAX,
    ensures
        *final(config) == after_vote(*old(config), vote),
        vote == 0 || vote == 1 ==> r is Ok,
        vote != 0 && vote != 1 ==> r == Err::<(), VoteError>(VoteError::InvalidVote),
{
    if vote == 1 {
        let y = match config.yesVotes {
            Some(n) => n,
            None => 0,
        };
        config.yesVotes = Some(y + 1);
        Ok(())
    } else if vote == 0 {
        let n = match config.noVotes {
            Some(n) => n,
            None => 0,
        };
        config.noVotes = Some(n + 1);
        Ok(())
    } else {
        Err(VoteError::InvalidVote)
    }
}

/// Tallies a ceremony at time `now`: once `now` is past the tally deadline the
/// ceremony is finalised and accepted when the yes count beats the no count,
/// rejected otherwise; before that, or when the deadline does not parse, nothing
/// changes.
pub fn tally(config: &mut Config, now: u64) -> (r: Result<(), TallyError>)
    requires
        old(config).tallyDeadline is Some,
    ensures
        ({
            let d = old(config).tallyDeadline.unwrap()@;
            &&& !is_dec_u256(d) ==> r == Err::<(), TallyError>(TallyError::InvalidDeadline)
                && *final(config) == *old(config)
            &&& is_dec_u256(d) && now > dec_value(d) ==> r is Ok && *final(config) == (Config {
                finilized: true,
                result: Some(outcome(old(config).yesVotes, old(config).noVotes)),
                ..*old(config)
            })
            &&& is_dec_u256(d) && now <= dec_value(d) ==> r == Err::<(), TallyError>(
                TallyError::PeriodNotOver,
            ) && *final(config) == *old(config)
        }),
{
    let deadline = match &config.tallyDeadline {
        Some(d) => U256::from_dec_str(d.as_str()),
        None => None,
    };
    let deadline = match deadline {
        Some(v) => v,
        None => {
            return Err(TallyError::InvalidDeadline);
        },
    };
    if deadline.lt_u64(now) {
        let accepted = match (config.yesVotes, config.noVotes) {
            (Some(y), Some(n)) => y > n,
            (Some(_), None) => true,
            (None, _) => false,
        };
        config.finilized = true;
        if accepted {
            config.result = Some(VotingResult::Accepted);
        } else {
            config.result = Some(VotingResult::Rejected);
        }
        Ok(())
    } else {
        Err(TallyError::PeriodNotOver)
    }
}

/// Counting: starting from a ceremony with no votes, the counts after a run of
/// votes are the numbers of ones and of zeros among them, nothing else in the
/// ceremony changes, and the tally accepts exactly when the ones outnumber the zeros.
pub proof fn lemma_tally_follows_votes(c: Config, votes: Seq<u64>)
    requires
        c.yesVotes is None,
        c.noVotes is None,
        votes.len() <= u64::MAX,
    ensures
        count(after_votes(c, votes).yesVotes) == occurrences(votes, 1),
        count(after_votes(c, votes).noVotes) == occurrences(votes, 0),
        after_votes(c, votes) == (Config {
            yesVotes: after_votes(c, votes).yesVotes,
            noVotes: after_votes(c, votes).noVotes,
            ..c
        }),
        outcome(after_votes(c, votes).yesVotes, after_votes(c, votes).noVotes) == if occurrences(
            votes,
            1,
        ) > occurrences(votes, 0) {
            VotingResult::Accepted
        } else {
            VotingResult::Rejected
        },
{
    lemma_counts_follow_votes(c, votes);
}

proof fn lemma_counts_follow_votes(c: Config, votes: Seq<u64>)
    requires
        c.yesVotes is None,
        c.noVotes is None,
        votes.len() <= u64::MAX,
    ensures
        count(after_votes(c, votes).yesVotes) == occurrences(votes, 1),
        count(after_votes(c, votes).noVotes) == occurrences(votes, 0),
        after_votes(c, votes).yesVotes is Some <==> occurrences(votes, 1) > 0,
        after_votes(c, votes).noVotes is Some <==> occurrences(votes, 0) > 0,
        occurrences(votes, 1) + occurrences(votes, 0) <= votes.len(),
        after_votes(c, votes) == (Config {
            yesVotes: after_votes(c, votes).yesVotes,
            noVotes: after_votes(c, votes).noVotes,
            ..c
        }),
    decreases votes.len(),
{
    if votes.len() > 0 {
        lemma_counts_follow_votes(c, votes.drop_last());
    }
}

impl Config {
    /// Opens a ceremony: its id and chain, an allow-list of four zero entries, and both
    /// deadlines at the given time.
    pub fn initiate_ceremony(&mut self, ceremony_id: u64, chain_id: u64, now: u64)
        ensures
            final(self).ceremony_id == Some(ceremony_id),
            final(self).chain_id == Some(chain_id),
            final(self).white_list@ == seq![0u64, 0u64, 0u64, 0u64],
            final(self).votingDeadline matches Some(d) && d@ == dec_string(now as nat),
            final(self).tallyDeadline matches Some(d) && d@ == dec_string(now as nat),
            final(self).network == old(self).network,
            final(self).stateRoot == old(self).stateRoot,
            final(self).result == old(self).result,
            final(self).yesVotes == old(self).yesVotes,
            final(self).noVotes == old(self).noVotes,
            final(self).finilized == old(self).finilized,
    {
        self.ceremony_id = Some(ceremony_id);
        self.chain_id = Some(chain_id);
        self.white_list = vec![0u64, 0u64, 0u64, 0u64];
        let t = U256::from_u64(now);
        self.votingDeadline = Some(t.to_string());
        self.tallyDeadline = Some(t.to_string());
    }
}

/// The bytes of the key under which the current ceremony is kept as well.
pub open spec fn current_ceremony_key() -> Seq<u8> {
    seq![0x63u8, 0x75u8, 0x72u8, 0x72u8, 0x65u8, 0x63u8, 0x74u8]
}

/// The database key of a ceremony: the eight big-endian bytes of its id, or where no
/// id is given the key of the current ceremony, `currect`.
pub fn ceremony_key(id: Option<u64>) -> (r: Vec<u8>)
    ensures
        match id {
            Some(i) => r@ == u64_le_bytes(i).reverse() && be_value(r@) == i,
            None => r@ == current_ceremony_key(),
        },
{
    match id {
        Some(i) => {
            let mut le: Vec<u8> = Vec::new();
            push_u64_le(&mut le, i);
            proof {
                lemma_u64_le_bytes(i);
                assert(le@ =~= u64_le_bytes(i));
            }
            let r = reversed(&le);
            assert(r@.reverse() =~= le@);
            r
        },
        None => vec![0x63u8, 0x75u8, 0x72u8, 0x72u8, 0x65u8, 0x63u8, 0x74u8],
    }
}

/// Keys: distinct ceremonies are stored under distinct keys, and none of them is
/// the key of the current ceremony.
pub proof fn lemma_ceremony_keys_distinct(a: u64, b: u64)
    requires
        a != b,
    ensures
        u64_le_bytes(a).reverse() != u64_le_bytes(b).reverse(),
        u64_le_bytes(a).reverse() != current_ceremony_key(),
{
    lemma_u64_le_bytes(a);
    lemma_u64_le_bytes(b);
    let ka = u64_le_bytes(a).reverse();
    let kb = u64_le_bytes(b).reverse();
    assert(ka.len() == 8);
    if ka == kb {
        assert(ka.reverse() =~= u64_le_bytes(a));
        assert(kb.reverse() =~= u64_le_bytes(b));
    }
}

} // verus!
