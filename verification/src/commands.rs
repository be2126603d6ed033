//! The protocol's steps that compute: the voter's nullifier and burn address, the
//! check that a burn was credited, the allow-list tree and its membership proofs,
//! the vote circuit's inputs, and the demos' votes and schedule.
use vstd::prelude::*;

use crate::arith::{lemma_limbs_value_injective, limbs_le_bytes, two_256};
use crate::circuits::{BurnAddressCircuit, MptCircuit, VoteCircuit};
use crate::config::{after_vote, count, record_vote, Config, VoteError};
use crate::field::{fr_of, fr_repr_to_bytes, modulus, poseidon, poseidon_hash, repr_hex, u256_to_fp, Fr};
use crate::merkle::{is_pow2, merkle_root, proof_indices, proof_path, two_pow, MerkleTree, Proof};
use crate::uint::{dec_string, hex_value, is_hex_u256, strip_0x, U256};

verus! {

/// The inputs of a burn-address computation.
#[allow(non_snake_case)]
#[derive(Clone, Debug)]
pub struct BurnAddress {
    pub private_key: String,
    pub ceremony_id: u64,
    pub blinding_factor: u64,
    pub votingBlock: u64,
    pub action_value: u64,
}

/// The inputs of a nullifier computation.
#[derive(Clone, Debug)]
pub struct Nullifier {
    pub private_key: String,
    pub ceremony_id: u64,
    pub blinding_factor: u64,
}

/// A request to tally a ceremony: the one with this id, or the latest one where no id
/// is given (see `ceremony_key`).
#[derive(Clone, Debug)]
pub struct Tally {
    pub ceremoni_id: Option<u64>,
}

/// A request to run the off-chain demo.
#[derive(Clone, Debug)]
pub struct DemoData {
    pub ceremony_id: Option<u64>,
    pub pk: String,
}

/// A request to run the on-chain demo.
#[derive(Clone, Debug)]
pub struct OnchainDemoData {
    pub pk: String,
}

/// The position of a voter on the allow-list.
#[derive(Clone, Copy, Debug)]
pub struct UserIndex {
    pub index: usize,
}

/// A vote: burn `amount` to commit to `vote` in a ceremony.
#[derive(Clone, Debug)]
pub struct Vote {
    pub ceremony_id: Option<u64>,
    pub voting_block: u64,
    pub amount: U256,
    pub vote: u64,
    pub revote: u64,
    pub private_key: String,
}

/// The number that a private key's hexadecimal text denotes.
pub open spec fn key_value(private_key: Seq<char>) -> nat {
    hex_value(strip_0x(private_key))
}

/// The nullifier: the Poseidon hash of the key, the ceremony and the blinding
/// factor, each as a field element.
pub open spec fn nullifier_of(key: nat, ceremony_id: u64, blinding_factor: u64) -> Fr {
    poseidon_hash(
        seq![fr_of(key % modulus()), fr_of(ceremony_id as nat), fr_of(blinding_factor as nat)],
    )
}

/// The burn commitment: the Poseidon hash of the secret key, the ceremony, the vote
/// and the blinding factor, each as a field element.
pub open spec fn burn_hash_of(key: nat, ceremony_id: u64, vote: u64, blinding_factor: u64) -> Fr {
    poseidon_hash(
        seq![
            fr_of(key % modulus()),
            fr_of(ceremony_id as nat),
            fr_of(vote as nat),
            fr_of(blinding_factor as nat),
        ],
    )
}

/// The burn address: the last 20 of the 32 big-endian bytes of the commitment.
pub open spec fn address_of(h: Fr) -> Seq<u8> {
    limbs_le_bytes(h.limbs@).reverse().subrange(12, 32)
}

/// The hexadecimal text of a voter's nullifier in a ceremony.
pub fn generate_nullifier(data: Config, blinding_factor: u64, private_key: String) -> (r: String)
    requires
        data.ceremony_id is Some,
        is_hex_u256(private_key@),
    ensures
        r@ == repr_hex(
            nullifier_of(key_value(private_key@), data.ceremony_id.unwrap(), blinding_factor).limbs@,
        ),
{
    let key = match U256::from_hex_str(private_key.as_str()) {
        Some(k) => k,
        None => U256::zero(),
    };
    let private_key_fp = u256_to_fp(key);
    let blinding_factor_fp = Fr::from_u64(blinding_factor);
    let ceremony_id = match data.ceremony_id {
        Some(c) => c,
        None => 0,
    };
    let ceremony_id_fp = Fr::from_u64(ceremony_id);
    let input = vec![private_key_fp, ceremony_id_fp, blinding_factor_fp];
    assert(input@ =~= seq![private_key_fp, ceremony_id_fp, blinding_factor_fp]);
    let hash = poseidon(input);
    hash.to_repr_string()
}

/// Computes a voter's burn address: the commitment to the secret key, the ceremony,
/// the vote (`action_value`) and the blinding factor; returns the burn-address
/// circuit's inputs (with the commitment's hexadecimal text as address), the 20-byte
/// address, and the decimal text of the voting block's hash.
pub fn burn_address(
    config: Config,
    private_key: String,
    blinding_factor: u64,
    block_hash: U256,
    action_value: u64,
) -> (r: (BurnAddressCircuit, Vec<u8>, String))
    requires
        config.ceremony_id is Some,
        is_hex_u256(private_key@),
    ensures
        ({
            let h = burn_hash_of(
                key_value(private_key@),
                config.ceremony_id.unwrap(),
                action_value,
                blinding_factor,
            );
            &&& r.0.identifier.circuit_name@ == "burnAddress"@
            &&& r.0.address@ == repr_hex(h.limbs@)
            &&& r.0.private_key.value() == key_value(private_key@)
            &&& r.0.blinding_factor == blinding_factor
            &&& r.0.ceremony_id == config.ceremony_id.unwrap()
            &&& r.0.random_secret == blinding_factor
            &&& r.0.vote == action_value
            &&& r.1@ == address_of(h)
            &&& r.2@ == dec_string(block_hash.value())
        }),
{
    let key = match U256::from_hex_str(private_key.as_str()) {
        Some(k) => k,
        None => U256::zero(),
    };
    let private_key_fp = u256_to_fp(key);
    let ceremony_id = match config.ceremony_id {
        Some(c) => c,
        None => 0,
    };
    let ceremony_id_fp = Fr::from_u64(ceremony_id);
    let action_fp = Fr::from_u64(action_value);
    let blinding_factor_fp = Fr::from_u64(blinding_factor);
    let input = vec![private_key_fp, ceremony_id_fp, action_fp, blinding_factor_fp];
    assert(input@ =~= seq![private_key_fp, ceremony_id_fp, action_fp, blinding_factor_fp]);
    let hash = poseidon(input);
    let rep_str = hash.to_repr_string();
    let bytes = fr_repr_to_bytes(&hash);
    let mut address: Vec<u8> = Vec::new();
    let mut i: usize = 12;
    while i < 32
        invariant
            12 <= i <= 32,
            bytes@.len() == 32,
            address@ =~= bytes@.subrange(12, i as int),
        decreases 32 - i,
    {
        address.push(bytes[i]);
        i = i + 1;
    }
    let circuit = BurnAddressCircuit::new(
        rep_str,
        key,
        blinding_factor,
        ceremony_id,
        blinding_factor,
        action_value,
    );
    (circuit, address, block_hash.to_string())
}

/// Whether `h` is the height of the tree over `n` entries: `2^h` is the least power
/// of two that is at least `n`.
pub open spec fn fits_height(n: nat, h: nat) -> bool {
    n <= two_pow(h) && two_pow(h) < 2 * n
}

/// The height of the tree over `n` entries.
pub open spec fn padded_height(n: nat) -> nat {
    choose|h: nat| fits_height(n, h)
}

/// `k` zero leaves.
pub open spec fn zero_leaves(k: nat) -> Seq<Fr> {
    Seq::new(k, |i: int| fr_of(0))
}

/// `leaves` followed by zero leaves up to the size of their tree.
pub open spec fn padded_leaves(leaves: Seq<Fr>) -> Seq<Fr> {
    leaves + zero_leaves((two_pow(padded_height(leaves.len())) - leaves.len()) as nat)
}

/// A larger height gives at least twice the leaves.
proof fn lemma_two_pow_doubles(a: nat, b: nat)
    requires
        a < b,
    ensures
        2 * two_pow(a) <= two_pow(b),
    decreases b,
{
    if a + 1 < b {
        lemma_two_pow_doubles(a, (b - 1) as nat);
        crate::merkle::lemma_two_pow_pos((b - 1) as nat);
    }
}

/// Only one height fits a number of entries.
proof fn lemma_fits_height_unique(n: nat, h: nat)
    requires
        fits_height(n, h),
    ensures
        padded_height(n) == h,
{
    let g = padded_height(n);
    assert(fits_height(n, g));
    if g < h {
        lemma_two_pow_doubles(g, h);
    } else if h < g {
        lemma_two_pow_doubles(h, g);
    }
}

/// Pads an allow-list of at least three leaves with zero leaves up to the next power
/// of two, and builds the tree over it.
pub fn generate_tree(whitelist: &mut Vec<Fr>) -> (r: MerkleTree)
    requires
        3 <= old(whitelist)@.len() <= usize::MAX / 2,
        forall|i: int| 0 <= i < old(whitelist)@.len() ==> (#[trigger] old(whitelist)@[i]).wf(),
    ensures
        final(whitelist)@ == padded_leaves(old(whitelist)@),
        r.wf(),
        r.is_built(),
        r.leaf_values() == final(whitelist)@,
        r.tree_height() == padded_height(old(whitelist)@.len()),
        two_pow(r.tree_height()) == final(whitelist)@.len(),
{
    let ghost orig = whitelist@;
    let n = whitelist.len();
    let mut m: usize = 1;
    let ghost mut k: nat = 0;
    while m < n
        invariant
            n == orig.len(),
            3 <= n <= usize::MAX / 2,
            1 <= m,
            m == two_pow(k),
            m < 2 * n,
        decreases 2 * n - m,
    {
        m = m * 2;
        proof {
            k = k + 1;
        }
    }
    proof {
        assert(fits_height(n as nat, k));
        lemma_fits_height_unique(n as nat, k);
    }
    while whitelist.len() < m
        invariant
            orig.len() <= whitelist@.len() <= m,
            whitelist@ =~= orig + zero_leaves((whitelist@.len() - orig.len()) as nat),
            forall|i: int| 0 <= i < orig.len() ==> (#[trigger] orig[i]).wf(),
            forall|i: int| 0 <= i < whitelist@.len() ==> (#[trigger] whitelist@[i]).wf(),
        decreases m - whitelist.len(),
    {
        whitelist.push(Fr::zero());
    }
    assert(whitelist@ =~= padded_leaves(orig));
    let mut leaves: Vec<Fr> = Vec::new();
    let mut i: usize = 0;
    while i < whitelist.len()
        invariant
            i <= whitelist@.len(),
            leaves@ =~= whitelist@.take(i as int),
        decreases whitelist@.len() - i,
    {
        leaves.push(whitelist[i]);
        i = i + 1;
    }
    assert(leaves@ =~= whitelist@);
    proof {
        assert(is_pow2(m as nat));
    }
    let mut tree = MerkleTree::new(leaves);
    proof {
        crate::commands::lemma_two_pow_injective(tree.tree_height(), k);
        if k < 2 {
            if k == 0 {
                assert(two_pow(0) == 1);
            } else {
                reveal_with_fuel(two_pow, 2);
                assert(two_pow(1) == 2);
            }
        }
    }
    tree.build_tree();
    tree
}

/// The membership proof of the leaf at `index` in a built tree.
pub fn generate_proof(tree: &MerkleTree, index: usize) -> (r: Proof)
    requires
        tree.wf(),
        tree.is_built(),
        index < tree.leaf_values().len(),
    ensures
        r.root == merkle_root(tree.leaf_values(), tree.tree_height()),
        r.leaf == tree.leaf_values()[index as int],
        r.pathElements@ == proof_path(tree.leaf_values(), tree.tree_height(), index as nat),
        r.pathIndices@ == proof_indices(tree.tree_height(), index as nat),
{
    tree.generate_proof(index)
}

/// The allow-list as field elements.
pub open spec fn whitelist_leaves(white_list: Seq<u64>) -> Seq<Fr> {
    white_list.map_values(|x: u64| fr_of(x as nat))
}

/// The membership proof of the last voter of an allow-list of at least three
/// entries, in the tree over the list padded with zero leaves.
pub fn whitelist_proof(white_list: &Vec<u64>) -> (r: Proof)
    requires
        3 <= white_list@.len() <= usize::MAX / 2,
    ensures
        ({
            let leaves = padded_leaves(whitelist_leaves(white_list@));
            let h = padded_height(white_list@.len());
            let index = (white_list@.len() - 1) as nat;
            &&& r.root == merkle_root(leaves, h)
            &&& r.leaf == leaves[index as int]
            &&& r.pathElements@ == proof_path(leaves, h, index)
            &&& r.pathIndices@ == proof_indices(h, index)
        }),
{
    let n = white_list.len();
    let mut leaves: Vec<Fr> = Vec::new();
    let mut i: usize = 0;
    while i < n
        invariant
            n == white_list@.len(),
            i <= n,
            leaves@ =~= whitelist_leaves(white_list@).take(i as int),
            forall|k: int| 0 <= k < leaves@.len() ==> (#[trigger] leaves@[k]).wf(),
        decreases n - i,
    {
        leaves.push(Fr::from_u64(white_list[i]));
        i = i + 1;
    }
    assert(leaves@ =~= whitelist_leaves(white_list@));
    let tree = generate_tree(&mut leaves);
    generate_proof(&tree, n - 1)
}

proof fn lemma_two_pow_injective(a: nat, b: nat)
    requires
        two_pow(a) == two_pow(b),
    ensures
        a == b,
    decreases a + b,
{
    if a > 0 && b > 0 {
        lemma_two_pow_injective((a - 1) as nat, (b - 1) as nat);
    } else if a > 0 {
        crate::merkle::lemma_two_pow_pos((a - 1) as nat);
    } else if b > 0 {
        crate::merkle::lemma_two_pow_pos((b - 1) as nat);
    }
}

/// The on-chain demo's schedule from the current time: voting closes five seconds
/// later, tallying opens ten seconds later, and the clock is moved past that by
/// `tally - now + 1` seconds.
pub fn onchain_schedule(current_timestamp: u64) -> (r: (u64, u64, u64))
    requires
        current_timestamp + 10 <= u64::MAX,
    ensures
        r.0 == current_timestamp + 5,
        r.1 == current_timestamp + 10,
        r.2 == r.1 - current_timestamp + 1,
{
    let voting_time = current_timestamp + 5;
    let tally_time = current_timestamp + 10;
    (voting_time, tally_time, tally_time - current_timestamp + 1)
}

/// The vote circuit's inputs from a vote's burn-address inputs, its nullifier and its
/// account proof, with the membership proof of the allow-list's last voter; and the
/// vote counted in the ceremony. A vote other than 1 or 0 is refused, and the
/// ceremony is left as it was.
pub fn vote_circuit(
    config: &mut Config,
    vote: &Vote,
    blinding_factor: u64,
    burn: &BurnAddressCircuit,
    nullifier: String,
    mpt: MptCircuit,
) -> (r: Result<VoteCircuit, VoteError>)
    requires
        is_hex_u256(vote.private_key@),
        3 <= old(config).white_list@.len() <= usize::MAX / 2,
        vote.vote == 1 ==> count(old(config).yesVotes) < u64::MAX,
        vote.vote == 0 ==> count(old(config).noVotes) < u64::MAX,
    ensures
        *final(config) == after_vote(*old(config), vote.vote),
        match r {
            Ok(c) => {
                let leaves = padded_leaves(whitelist_leaves(old(config).white_list@));
                let h = padded_height(old(config).white_list@.len());
                let index = (old(config).white_list@.len() - 1) as nat;
                &&& vote.vote == 0 || vote.vote == 1
                &&& c.identifier.circuit_name@ == "vote"@
                &&& c.address == burn.address
                &&& c.secret.value() == key_value(vote.private_key@)
                &&& c.blinding_factor == blinding_factor
                &&& c.ceremony_id == burn.ceremony_id
                &&& c.random_secret == burn.random_secret
                &&& c.vote == burn.vote
                &&& c.revote == vote.revote
                &&& c.nullifier == nullifier
                &&& c.nonce == mpt.nonce
                &&& c.balance == mpt.balance
                &&& c.code_hash == mpt.code_hash
                &&& c.storage_hash == mpt.storage_hash
                &&& c.state_root == mpt.state_root
                &&& c.account_rlp == mpt.account_rlp
                &&& c.account_rlp_len == mpt.account_rlp_len
                &&& c.account_proof == mpt.account_proof
                &&& c.account_proof_length == mpt.account_proof_length
                &&& c.node_length == mpt.node_length
                &&& c.leaf_nibbles == mpt.leaf_nibbles
                &&& c.mt_root == merkle_root(leaves, h)
                &&& c.mt_leaf == leaves[index as int]
                &&& c.mt_pathElements@ == proof_path(leaves, h, index)
                &&& c.mt_pathIndices@ == proof_indices(h, index)
            },
            Err(e) => e == VoteError::InvalidVote && vote.vote != 0 && vote.vote != 1,
        },
{
    let secret = match U256::from_hex_str(vote.private_key.as_str()) {
        Some(k) => k,
        None => U256::zero(),
    };
    let proof = whitelist_proof(&config.white_list);
    let circuit = VoteCircuit::new(
        burn.address.clone(),
        secret,
        blinding_factor,
        burn.ceremony_id,
        burn.random_secret,
        burn.vote,
        vote.revote,
        nullifier,
        mpt.nonce,
        mpt.balance,
        mpt.code_hash,
        mpt.storage_hash,
        mpt.state_root,
        mpt.account_rlp,
        mpt.account_rlp_len,
        mpt.account_proof,
        mpt.account_proof_length,
        mpt.node_length,
        mpt.leaf_nibbles,
        proof.root,
        proof.leaf,
        proof.pathElements,
        proof.pathIndices,
    );
    match record_vote(config, vote.vote) {
        Ok(()) => Ok(circuit),
        Err(e) => Err(e),
    }
}

/// The demo's vote: yes, no revote, burning one unit, in the demo's ceremony with
/// the demo's key.
pub fn demo_vote(demo_data: DemoData, voting_block: u64) -> (r: Vote)
    ensures
        r.ceremony_id == demo_data.ceremony_id,
        r.private_key == demo_data.pk,
        r.voting_block == voting_block,
        r.vote == 1,
        r.revote == 0,
        r.amount.value() == 1,
{
    Vote {
        ceremony_id: demo_data.ceremony_id,
        voting_block,
        amount: U256::from_u64(1),
        vote: 1,
        revote: 0,
        private_key: demo_data.pk,
    }
}

/// The nullifier and the burn address are functions of the key's value: a key
/// written with a leading `0x` gives the same ones as without it, so the same voter,
/// ceremony and blinding factor always give the same nullifier and, for the same
/// vote, the same burn address.
pub proof fn lemma_key_prefix_is_immaterial(
    key: Seq<char>,
    ceremony_id: u64,
    blinding_factor: u64,
    vote: u64,
)
    requires
        !(key.len() >= 2 && key[0] == '0' && key[1] == 'x'),
    ensures
        key_value("0x"@ + key) == key_value(key),
        nullifier_of(key_value("0x"@ + key), ceremony_id, blinding_factor) == nullifier_of(
            key_value(key),
            ceremony_id,
            blinding_factor,
        ),
        address_of(
            burn_hash_of(key_value("0x"@ + key), ceremony_id, vote, blinding_factor),
        ) == address_of(
            burn_hash_of(key_value(key), ceremony_id, vote, blinding_factor),
        ),
{
    reveal_strlit("0x");
    let prefixed = "0x"@ + key;
    assert(prefixed[0] == '0' && prefixed[1] == 'x');
    assert(prefixed.skip(2) =~= key);
}

/// Whether a burn was credited: the burn address's balance after the transaction is
/// its balance before plus the amount sent, which must fit in 128 bits.
pub fn burn_credited(pre_balance: &U256, amount: &U256, post_balance: &U256) -> (r: bool)
    requires
        amount.value() < 0x1_0000_0000_0000_0000_0000_0000_0000_0000,
        pre_balance.value() + amount.value() < two_256(),
    ensures
        r == (pre_balance.value() + amount.value() == post_balance.value()),
{
    match pre_balance.checked_add(amount) {
        Some(sum) => {
            let same = sum.limbs[0] == post_balance.limbs[0] && sum.limbs[1] == post_balance.limbs[1]
                && sum.limbs[2] == post_balance.limbs[2] && sum.limbs[3] == post_balance.limbs[3];
            proof {
                if same {
                    assert(sum.limbs@ =~= post_balance.limbs@);
                }
                if sum.value() == post_balance.value() {
                    lemma_limbs_value_injective(sum.limbs@, post_balance.limbs@);
                }
            }
            same
        },
        None => false,
    }
}

/// The burn commitment takes each input as it is: the burn address is the last 20
/// big-endian bytes of the Poseidon hash of the key reduced modulo the field order,
/// the ceremony, the vote and the blinding factor, in that order, each 64-bit input
/// entering as the field element of the same number. So commitments to different
/// ceremonies, votes or blinding factors always hash different inputs.
pub proof fn lemma_burn_commitment_inputs(key: nat, c: u64, v: u64, b: u64, c2: u64, v2: u64, b2: u64)
    ensures
        address_of(burn_hash_of(key, c, v, b)) == limbs_le_bytes(
            poseidon_hash(
                seq![fr_of(key % modulus()), fr_of(c as nat), fr_of(v as nat), fr_of(b as nat)],
            ).limbs@,
        ).reverse().subrange(12, 32),
        fr_of(c as nat).value() == c,
        fr_of(v as nat).value() == v,
        fr_of(b as nat).value() == b,
        (c != c2 || v != v2 || b != b2) ==> seq![
            fr_of(key % modulus()),
            fr_of(c as nat),
            fr_of(v as nat),
            fr_of(b as nat),
        ] != seq![fr_of(key % modulus()), fr_of(c2 as nat), fr_of(v2 as nat), fr_of(b2 as nat)],
{
    lemma_u64_element(c);
    lemma_u64_element(v);
    lemma_u64_element(b);
    lemma_u64_element(c2);
    lemma_u64_element(v2);
    lemma_u64_element(b2);
    let s1 = seq![fr_of(key % modulus()), fr_of(c as nat), fr_of(v as nat), fr_of(b as nat)];
    let s2 = seq![fr_of(key % modulus()), fr_of(c2 as nat), fr_of(v2 as nat), fr_of(b2 as nat)];
    if s1 == s2 {
        assert(s1[1] == s2[1] && s1[2] == s2[2] && s1[3] == s2[3]);
    }
}

/// The nullifier takes each input as it is: the Poseidon hash of the key reduced
/// modulo the field order, the ceremony and the blinding factor, in that order, each
/// 64-bit input entering as the field element of the same number; different
/// ceremonies or blinding factors are hashed from different inputs.
pub proof fn lemma_nullifier_inputs(key: nat, c: u64, b: u64, c2: u64, b2: u64)
    ensures
        nullifier_of(key, c, b) == poseidon_hash(
            seq![fr_of(key % modulus()), fr_of(c as nat), fr_of(b as nat)],
        ),
        (c != c2 || b != b2) ==> seq![fr_of(key % modulus()), fr_of(c as nat), fr_of(b as nat)]
            != seq![fr_of(key % modulus()), fr_of(c2 as nat), fr_of(b2 as nat)],
{
    lemma_u64_element(c);
    lemma_u64_element(b);
    lemma_u64_element(c2);
    lemma_u64_element(b2);
    let s1 = seq![fr_of(key % modulus()), fr_of(c as nat), fr_of(b as nat)];
    let s2 = seq![fr_of(key % modulus()), fr_of(c2 as nat), fr_of(b2 as nat)];
    if s1 == s2 {
        assert(s1[1] == s2[1] && s1[2] == s2[2]);
    }
}

/// A 64-bit number is the value of its field element.
proof fn lemma_u64_element(x: u64)
    ensures
        fr_of(x as nat).value() == x,
        fr_of(x as nat).limbs[0] == x,
{
    let f = fr_of(x as nat);
    assert(f.limbs[0] == x && f.limbs[1] == 0 && f.limbs[2] == 0 && f.limbs[3] == 0);
    crate::arith::lemma_limbs4(f.limbs@);
}

} // verus!
