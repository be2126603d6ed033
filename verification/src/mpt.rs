//! The inputs of the account-proof circuit: an account's RLP encoding and the
//! nodes of its Merkle Patricia proof, written as hexadecimal digits and padded
//! with zeros to the circuit's fixed sizes.
use vstd::prelude::*;

use crate::arith::{limbs_value, zero_extended, zeros};
use crate::circuits::MptCircuit;
use crate::uint::U256;

verus! {

/// The most proof nodes that the circuit takes.
pub const MAX_PROOF_NODES: usize = 8;

/// The digits that the circuit reserves for the account's encoding.
pub const ACCOUNT_RLP_DIGITS: usize = 164;

/// The digits that the circuit reserves for each proof node.
pub const NODE_DIGITS: usize = 1064;

/// The hexadecimal digits of `b`, two per byte, the high one first.
pub open spec fn nibbles(b: Seq<u8>) -> Seq<u8> {
    Seq::new(2 * b.len(), |i: int| if i % 2 == 0 { b[i / 2] / 16 } else { b[i / 2] % 16 })
}

/// `s` followed by zeros up to length `n`; `s` itself where it is that long already.
pub open spec fn zero_padded(s: Seq<u8>, n: nat) -> Seq<u8> {
    if s.len() < n {
        s + zeros((n - s.len()) as nat)
    } else {
        s
    }
}

/// The big-endian bytes of `n` without leading zeros (none for zero).
pub open spec fn be_minimal(n: nat) -> Seq<u8>
    decreases n,
{
    if n == 0 {
        Seq::empty()
    } else {
        be_minimal(n / 256).push((n % 256) as u8)
    }
}

/// The RLP encoding of the byte string `b`.
pub open spec fn rlp_string(b: Seq<u8>) -> Seq<u8> {
    if b.len() == 1 && b[0] < 0x80 {
        b
    } else if b.len() <= 55 {
        seq![(0x80 + b.len()) as u8] + b
    } else {
        seq![(0xb7 + be_minimal(b.len()).len()) as u8] + be_minimal(b.len()) + b
    }
}

/// The RLP encoding of a list whose encoded items are `payload`.
pub open spec fn rlp_list(payload: Seq<u8>) -> Seq<u8> {
    if payload.len() <= 55 {
        seq![(0xc0 + payload.len()) as u8] + payload
    } else {
        seq![(0xf7 + be_minimal(payload.len()).len()) as u8] + be_minimal(payload.len()) + payload
    }
}

/// The RLP encoding of an account: its nonce and balance as integers, then its
/// storage root and code hash as 32-byte strings.
pub open spec fn account_rlp(
    nonce: u64,
    balance: nat,
    storage_hash: Seq<u8>,
    code_hash: Seq<u8>,
) -> Seq<u8> {
    rlp_list(
        rlp_string(be_minimal(nonce as nat)) + rlp_string(be_minimal(balance)) + rlp_string(
            storage_hash,
        ) + rlp_string(code_hash),
    )
}

/// The length in digits of the key path that a proof node holds: for a node of two
/// items (a leaf or an extension), the digits of its first item less its one-byte
/// prefix; none for a branch.
pub open spec fn key_path_digits(items: Seq<Seq<u8>>) -> int {
    if items.len() == 2 {
        (items[0].len() - 1) * 2
    } else {
        0
    }
}

/// The hexadecimal digits of `bytes`.
pub fn hex_nibbles(bytes: &Vec<u8>) -> (r: Vec<u8>)
    ensures
        r@ == nibbles(bytes@),
{
    let n = bytes.len();
    let mut r: Vec<u8> = Vec::new();
    let mut i: usize = 0;
    while i < n
        invariant
            n == bytes@.len(),
            i <= n,
            r@.len() == 2 * i,
            forall|k: int| 0 <= k < 2 * i ==> r@[k] == #[trigger] nibbles(bytes@)[k],
        decreases n - i,
    {
        let b = bytes[i];
        r.push(b / 16);
        r.push(b % 16);
        proof {
            assert((2 * i) / 2 == i && (2 * i) % 2 == 0);
            assert((2 * i + 1) / 2 == i && (2 * i + 1) % 2 == 1);
        }
        i = i + 1;
    }
    assert(r@ =~= nibbles(bytes@));
    r
}

/// `s` followed by zeros up to length `n`, unchanged where it is that long already.
pub fn pad_with_zeros(s: Vec<u8>, n: usize) -> (r: Vec<u8>)
    ensures
        r@ == zero_padded(s@, n as nat),
{
    if s.len() < n {
        zero_extended(&s, n)
    } else {
        s
    }
}

/// The proof nodes as the circuit takes them: each node's digits padded to
/// `NODE_DIGITS`, then all-zero nodes up to `MAX_PROOF_NODES`.
pub open spec fn proof_digits(nodes: Seq<Seq<u8>>) -> Seq<Seq<u8>> {
    Seq::new(
        MAX_PROOF_NODES as nat,
        |i: int|
            if i < nodes.len() {
                zero_padded(nibbles(nodes[i]), NODE_DIGITS as nat)
            } else {
                zeros(NODE_DIGITS as nat)
            },
    )
}

/// The number of digits of each proof node, then zeros up to `MAX_PROOF_NODES`.
pub open spec fn node_digit_counts(nodes: Seq<Seq<u8>>) -> Seq<usize> {
    Seq::new(
        MAX_PROOF_NODES as nat,
        |i: int|
            if i < nodes.len() {
                (2 * nodes[i].len()) as usize
            } else {
                0usize
            },
    )
}

/// Whether every leaf or extension node among `decoded` has a nonempty key path.
pub open spec fn key_paths_nonempty(decoded: Seq<Seq<Seq<u8>>>) -> bool {
    forall|i: int| 0 <= i < decoded.len() && #[trigger] decoded[i].len() == 2 ==> decoded[i][0].len() >= 1
}

/// Whether `c` holds the account-proof circuit's inputs for the account at
/// `address` with the given fields, the state root `state_root`, the proof
/// `nodes`, and `leaf` the items of the proof's last node.
pub open spec fn mpt_inputs_match(
    c: MptCircuit,
    address: Seq<u8>,
    nonce: u64,
    balance: U256,
    code_hash: [u8; 32],
    storage_hash: [u8; 32],
    state_root: Seq<u8>,
    nodes: Seq<Seq<u8>>,
    leaf: Seq<Seq<u8>>,
) -> bool {
    let encoded = account_rlp(nonce, balance.value(), storage_hash@, code_hash@);
    &&& c.identifier.circuit_name@ == "mpt"@
    &&& c.address@ == nibbles(address)
    &&& c.nonce == nonce
    &&& c.balance == balance
    &&& c.code_hash == code_hash
    &&& c.storage_hash == storage_hash
    &&& c.state_root@ == nibbles(state_root)
    &&& c.account_rlp@ == zero_padded(nibbles(encoded), ACCOUNT_RLP_DIGITS as nat)
    &&& c.account_rlp_len == 2 * encoded.len()
    &&& c.account_proof@.len() == MAX_PROOF_NODES
    &&& forall|i: int| 0 <= i < MAX_PROOF_NODES ==> #[trigger] c.account_proof@[i]@ == proof_digits(nodes)[i]
    &&& c.account_proof_length == nodes.len()
    &&& c.node_length@ == node_digit_counts(nodes)
    &&& c.leaf_nibbles == key_path_digits(leaf)
}

/// Whether the digits `d` begin with the hexadecimal digits of the bytes `b`, high
/// digit first: each pair of digits below 16 recombines to its byte.
pub open spec fn digits_of(d: Seq<u8>, b: Seq<u8>) -> bool {
    &&& d.len() >= 2 * b.len()
    &&& forall|j: int|
        0 <= j < b.len() ==> #[trigger] d[2 * j] < 16 && d[2 * j + 1] < 16 && 16 * d[2 * j] + d[2
            * j + 1] == b[j]
}

/// Whether every digit of `d` from position `from` on is zero.
pub open spec fn zero_from(d: Seq<u8>, from: int) -> bool {
    forall|j: int| from <= j < d.len() ==> #[trigger] d[j] == 0
}

proof fn lemma_nibbles_digits(b: Seq<u8>)
    ensures
        nibbles(b).len() == 2 * b.len(),
        digits_of(nibbles(b), b),
{
    assert forall|j: int| 0 <= j < b.len() implies #[trigger] nibbles(b)[2 * j] < 16 && nibbles(
        b,
    )[2 * j + 1] < 16 && 16 * nibbles(b)[2 * j] + nibbles(b)[2 * j + 1] == b[j] by {
        assert((2 * j) / 2 == j && (2 * j) % 2 == 0);
        assert((2 * j + 1) / 2 == j && (2 * j + 1) % 2 == 1);
        let x = b[j];
        assert(16 * (x / 16) + x % 16 == x);
    }
}

proof fn lemma_padded_digits(b: Seq<u8>, n: nat)
    ensures
        zero_padded(nibbles(b), n).len() >= n,
        zero_padded(nibbles(b), n).len() >= 2 * b.len(),
        digits_of(zero_padded(nibbles(b), n), b),
        zero_from(zero_padded(nibbles(b), n), 2 * b.len() as int),
{
    lemma_nibbles_digits(b);
    let d = zero_padded(nibbles(b), n);
    assert forall|j: int| 0 <= j < b.len() implies #[trigger] d[2 * j] < 16 && d[2 * j + 1] < 16
        && 16 * d[2 * j] + d[2 * j + 1] == b[j] by {
        assert(d[2 * j] == nibbles(b)[2 * j]);
        assert(d[2 * j + 1] == nibbles(b)[2 * j + 1]);
    }
}

/// The account-proof circuit's inputs hold the data they are made from, digit for
/// digit: the digits of the address, the state root, the account's RLP encoding and
/// each proof node recombine, pair by pair, to their bytes, and only zeros follow;
/// the lengths count those digits; the unused node slots are all zeros; and the leaf
/// count is the digits of the last node's key path, less its prefix byte.
pub proof fn lemma_mpt_inputs_digits(
    c: MptCircuit,
    address: Seq<u8>,
    nonce: u64,
    balance: U256,
    code_hash: [u8; 32],
    storage_hash: [u8; 32],
    state_root: Seq<u8>,
    nodes: Seq<Seq<u8>>,
    leaf: Seq<Seq<u8>>,
)
    requires
        mpt_inputs_match(c, address, nonce, balance, code_hash, storage_hash, state_root, nodes, leaf),
        nodes.len() <= MAX_PROOF_NODES,
        forall|i: int| 0 <= i < nodes.len() ==> 2 * (#[trigger] nodes[i]).len() <= usize::MAX,
    ensures
        c.address@.len() == 2 * address.len() && digits_of(c.address@, address),
        c.state_root@.len() == 2 * state_root.len() && digits_of(c.state_root@, state_root),
        c.account_rlp_len == 2 * account_rlp(nonce, balance.value(), storage_hash@, code_hash@).len(),
        digits_of(c.account_rlp@, account_rlp(nonce, balance.value(), storage_hash@, code_hash@)),
        zero_from(c.account_rlp@, c.account_rlp_len as int),
        c.account_rlp@.len() >= ACCOUNT_RLP_DIGITS,
        c.account_proof_length == nodes.len(),
        c.account_proof@.len() == MAX_PROOF_NODES,
        c.node_length@.len() == MAX_PROOF_NODES,
        forall|i: int|
            0 <= i < nodes.len() ==> c.node_length@[i] == 2 * nodes[i].len() && digits_of(
                #[trigger] c.account_proof@[i]@,
                nodes[i],
            ) && zero_from(c.account_proof@[i]@, c.node_length@[i] as int) && c.account_proof@[i]@.len()
                >= NODE_DIGITS,
        forall|i: int|
            nodes.len() <= i < MAX_PROOF_NODES ==> c.node_length@[i] == 0 && #[trigger] c.account_proof@[i]@
                == Seq::new(NODE_DIGITS as nat, |j: int| 0u8),
        leaf.len() == 2 ==> c.leaf_nibbles + 2 == 2 * leaf[0].len(),
        leaf.len() != 2 ==> c.leaf_nibbles == 0,
{
    lemma_nibbles_digits(address);
    lemma_nibbles_digits(state_root);
    let enc = account_rlp(nonce, balance.value(), storage_hash@, code_hash@);
    lemma_padded_digits(enc, ACCOUNT_RLP_DIGITS as nat);
    assert forall|i: int| 0 <= i < nodes.len() implies c.node_length@[i] == 2 * nodes[i].len()
        && digits_of(#[trigger] c.account_proof@[i]@, nodes[i]) && zero_from(
        c.account_proof@[i]@,
        c.node_length@[i] as int,
    ) && c.account_proof@[i]@.len() >= NODE_DIGITS by {
        assert(c.account_proof@[i]@ == proof_digits(nodes)[i]);
        assert(c.node_length@[i] == node_digit_counts(nodes)[i]);
        lemma_padded_digits(nodes[i], NODE_DIGITS as nat);
    }
    assert forall|i: int| nodes.len() <= i < MAX_PROOF_NODES implies c.node_length@[i] == 0
        && #[trigger] c.account_proof@[i]@ == Seq::new(NODE_DIGITS as nat, |j: int| 0u8) by {
        assert(c.account_proof@[i]@ == proof_digits(nodes)[i]);
        assert(c.node_length@[i] == node_digit_counts(nodes)[i]);
        assert(zeros(NODE_DIGITS as nat) =~= Seq::new(NODE_DIGITS as nat, |j: int| 0u8));
    }
}

/// Why a proof cannot be turned into the circuit's inputs.
#[derive(Clone, Copy, Debug, PartialEq, Eq, Structural)]
pub enum MptError {
    /// The RLP decoder reports an error on a proof node (such as an item that is
    /// itself a list); data that is not a list decodes to no items instead.
    MalformedNode,
    /// A leaf or extension node has an empty key path.
    EmptyKeyPath,
}

/// The items of an RLP list of byte strings as `rlp::Rlp::as_list::<Vec<u8>>`
/// (re-exported as `ethers::utils::rlp`) decodes them; `None` where it reports an error.
pub uninterp spec fn rlp_list_items(node: Seq<u8>) -> Option<Seq<Seq<u8>>>;

/// Decodes a proof node with `ethers::utils::rlp::Rlp::new(node).as_list::<Vec<u8>>()`,
/// which reports malformed input as an error. Claimed: the result is `rlp_list_items`
/// of the node. Not stated: which nodes decode, and into what.
#[verifier::external_body]
fn rlp_decode_items(node: &Vec<u8>) -> (r: Option<Vec<Vec<u8>>>)
    ensures
        match r {
            Some(items) => rlp_list_items(node@) == Some(items.deep_view()),
            None => rlp_list_items(node@) is None,
        },
{
    ethers::utils::rlp::Rlp::new(node.as_slice()).as_list::<Vec<u8>>().ok()
}

/// `ethers::utils::rlp::encode` of an `ethers::types::U64`: impl-rlp writes the
/// integer's big-endian bytes without leading zeros as an RLP string.
#[verifier::external_body]
fn rlp_encode_u64(n: u64) -> (r: Vec<u8>)
    ensures
        r@ == rlp_string(be_minimal(n as nat)),
{
    ethers::utils::rlp::encode(&ethers::types::U64([n])).to_vec()
}

/// `ethers::utils::rlp::encode` of an `ethers::types::U256`: impl-rlp writes the
/// integer's big-endian bytes without leading zeros as an RLP string.
#[verifier::external_body]
fn rlp_encode_u256(limbs: [u64; 4]) -> (r: Vec<u8>)
    ensures
        r@ == rlp_string(be_minimal(limbs_value(limbs@))),
{
    ethers::utils::rlp::encode(&ethers::types::U256(limbs)).to_vec()
}

/// `ethers::utils::rlp::encode` of an `ethers::types::H256`: impl-rlp writes its 32
/// bytes as an RLP string.
#[verifier::external_body]
fn rlp_encode_h256(hash: [u8; 32]) -> (r: Vec<u8>)
    ensures
        r@ == rlp_string(hash@),
{
    ethers::utils::rlp::encode(&ethers::types::H256(hash)).to_vec()
}

/// An `ethers::utils::rlp::RlpStream` list around already encoded items: the stream
/// opens an unbounded list, takes the items as raw bytes, and finalising it writes
/// the list's header before them. The header's length goes through a `u32`.
#[verifier::external_body]
fn rlp_list_frame(payload: &Vec<u8>) -> (r: Vec<u8>)
    requires
        payload@.len() <= u32::MAX,
    ensures
        r@ == rlp_list(payload@),
{
    let mut stream = ethers::utils::rlp::RlpStream::new();
    stream.begin_unbounded_list();
    stream.append_raw(payload.as_slice(), 1);
    stream.finalize_unbounded_list();
    stream.out().to_vec()
}

/// The account's RLP encoding: a list of the nonce, the balance, the storage root
/// and the code hash, in that order.
pub fn get_account_rlp(
    nonce: u64,
    balance: U256,
    storage_hash: [u8; 32],
    code_hash: [u8; 32],
) -> (r: Vec<u8>)
    ensures
        r@ == account_rlp(nonce, balance.value(), storage_hash@, code_hash@),
{
    let mut payload = rlp_encode_u64(nonce);
    let mut b = rlp_encode_u256(balance.limbs);
    let mut s = rlp_encode_h256(storage_hash);
    let mut c = rlp_encode_h256(code_hash);
    proof {
        crate::arith::lemma_pow256_8();
        crate::arith::lemma_pow256_32();
        lemma_be_minimal_len(nonce as nat, 8);
        crate::arith::lemma_limbs4(balance.limbs@);
        lemma_be_minimal_len(balance.value(), 32);
    }
    payload.append(&mut b);
    payload.append(&mut s);
    payload.append(&mut c);
    rlp_list_frame(&payload)
}

/// `n` below `256^k` has at most `k` minimal big-endian bytes.
proof fn lemma_be_minimal_len(n: nat, k: nat)
    requires
        n < crate::arith::pow256(k),
    ensures
        be_minimal(n).len() <= k,
    decreases k,
{
    if n > 0 {
        if k == 0 {
            assert(false);
        } else {
            lemma_be_minimal_len(n / 256, (k - 1) as nat);
        }
    }
}

/// The circuit's inputs from an account, the state root, the proof nodes, and the
/// nodes' decoded items.
pub fn mpt_circuit(
    address: &Vec<u8>,
    nonce: u64,
    balance: U256,
    code_hash: [u8; 32],
    storage_hash: [u8; 32],
    state_root: &Vec<u8>,
    account_proof: &Vec<Vec<u8>>,
    decoded: &Vec<Vec<Vec<u8>>>,
) -> (r: MptCircuit)
    requires
        1 <= account_proof@.len() <= MAX_PROOF_NODES,
        decoded@.len() == account_proof@.len(),
        key_paths_nonempty(decoded.deep_view()),
    ensures
        mpt_inputs_match(
            r,
            address@,
            nonce,
            balance,
            code_hash,
            storage_hash,
            state_root@,
            account_proof.deep_view(),
            decoded.deep_view()[account_proof@.len() - 1],
        ),
{
    let encoded = get_account_rlp(nonce, balance, storage_hash, code_hash);
    let rlp_digits = hex_nibbles(&encoded);
    let rlp_len = rlp_digits.len();
    let rlp_padded = pad_with_zeros(rlp_digits, ACCOUNT_RLP_DIGITS);
    let ghost nodes = account_proof.deep_view();
    let n = account_proof.len();
    let mut proof: Vec<Vec<u8>> = Vec::new();
    let mut lens: Vec<usize> = Vec::new();
    let mut i: usize = 0;
    while i < MAX_PROOF_NODES
        invariant
            n == account_proof@.len() == nodes.len(),
            nodes == account_proof.deep_view(),
            i <= MAX_PROOF_NODES,
            proof@.len() == i,
            lens@.len() == i,
            forall|k: int| 0 <= k < i ==> #[trigger] proof@[k]@ == proof_digits(nodes)[k],
            forall|k: int| 0 <= k < i ==> #[trigger] lens@[k] == node_digit_counts(nodes)[k],
        decreases MAX_PROOF_NODES - i,
    {
        if i < n {
            let digits = hex_nibbles(&account_proof[i]);
            assert(account_proof@[i as int]@ =~= nodes[i as int]);
            lens.push(digits.len());
            proof.push(pad_with_zeros(digits, NODE_DIGITS));
        } else {
            lens.push(0);
            proof.push(zero_extended(&Vec::new(), NODE_DIGITS));
        }
        i = i + 1;
    }
    assert(lens@ =~= node_digit_counts(nodes));
    let last = &decoded[n - 1];
    let leaf_nibbles: usize = if last.len() == 2 {
        let ghost dv = decoded.deep_view();
        assert(dv[n - 1].len() == 2);
        assert(dv[n - 1][0] =~= last@[0]@);
        // The digits of the key path less those of its prefix byte.
        hex_nibbles(&last[0]).len() - 2
    } else {
        0
    };
    MptCircuit::new(
        hex_nibbles(address),
        nonce,
        balance,
        code_hash,
        storage_hash,
        hex_nibbles(state_root),
        rlp_padded,
        rlp_len,
        proof,
        n,
        lens,
        leaf_nibbles,
    )
}

/// Whether every node decodes as an RLP list of byte strings.
pub open spec fn all_nodes_decode(nodes: Seq<Seq<u8>>) -> bool {
    forall|i: int| 0 <= i < nodes.len() ==> #[trigger] rlp_list_items(nodes[i]) is Some
}

/// The decoded items of each node.
pub open spec fn decoded_nodes(nodes: Seq<Seq<u8>>) -> Seq<Seq<Seq<u8>>> {
    Seq::new(nodes.len(), |i: int| rlp_list_items(nodes[i])->0)
}

/// The account-proof circuit's inputs from an account, the state root and the
/// account's proof: the nodes are decoded first, and the first that is not an RLP
/// list of byte strings fails the whole.
pub fn prepare_mpt_data(
    address: &Vec<u8>,
    nonce: u64,
    balance: U256,
    code_hash: [u8; 32],
    storage_hash: [u8; 32],
    state_root: &Vec<u8>,
    account_proof: &Vec<Vec<u8>>,
) -> (r: Result<MptCircuit, MptError>)
    requires
        1 <= account_proof@.len() <= MAX_PROOF_NODES,
    ensures
        ({
            let nodes = account_proof.deep_view();
            match r {
                Err(MptError::MalformedNode) => !all_nodes_decode(nodes),
                Err(MptError::EmptyKeyPath) => all_nodes_decode(nodes) && !key_paths_nonempty(
                    decoded_nodes(nodes),
                ),
                Ok(c) => {
                    &&& all_nodes_decode(nodes)
                    &&& key_paths_nonempty(decoded_nodes(nodes))
                    &&& mpt_inputs_match(
                        c,
                        address@,
                        nonce,
                        balance,
                        code_hash,
                        storage_hash,
                        state_root@,
                        nodes,
                        decoded_nodes(nodes)[nodes.len() - 1],
                    )
                },
            }
        }),
{
    let ghost nodes = account_proof.deep_view();
    let n = account_proof.len();
    let mut decoded: Vec<Vec<Vec<u8>>> = Vec::new();
    let mut i: usize = 0;
    while i < n
        invariant
            n == account_proof@.len() == nodes.len(),
            nodes == account_proof.deep_view(),
            i <= n,
            decoded@.len() == i,
            forall|k: int| 0 <= k < i ==> #[trigger] rlp_list_items(nodes[k]) is Some,
            forall|k: int| 0 <= k < i ==> #[trigger] decoded.deep_view()[k] == decoded_nodes(nodes)[k],
        decreases n - i,
    {
        assert(account_proof@[i as int]@ =~= nodes[i as int]);
        match rlp_decode_items(&account_proof[i]) {
            Some(items) => {
                let ghost before = decoded.deep_view();
                decoded.push(items);
                assert forall|k: int| 0 <= k < i + 1 implies #[trigger] decoded.deep_view()[k]
                    == decoded_nodes(nodes)[k] by {
                    if k < i {
                        assert(decoded.deep_view()[k] == before[k]);
                    }
                }
            },
            None => {
                return Err(MptError::MalformedNode);
            },
        }
        i = i + 1;
    }
    assert(decoded.deep_view() =~= decoded_nodes(nodes));
    assert(all_nodes_decode(nodes));
    let mut j: usize = 0;
    while j < n
        invariant
            n == decoded@.len() == nodes.len(),
            decoded.deep_view() == decoded_nodes(nodes),
            all_nodes_decode(nodes),
            nodes == account_proof.deep_view(),
            j <= n,
            forall|k: int| 0 <= k < j && #[trigger] decoded_nodes(nodes)[k].len() == 2
                ==> decoded_nodes(nodes)[k][0].len() >= 1,
        decreases n - j,
    {
        assert(decoded.deep_view()[j as int] =~= decoded_nodes(nodes)[j as int]);
        if decoded[j].len() == 2 && decoded[j][0].len() == 0 {
            assert(decoded_nodes(nodes)[j as int][0].len() == 0);
            assert(decoded_nodes(nodes)[j as int].len() == 2);
            assert(!key_paths_nonempty(decoded_nodes(nodes)));
            return Err(MptError::EmptyKeyPath);
        }
        j = j + 1;
    }
    Ok(mpt_circuit(
        address,
        nonce,
        balance,
        code_hash,
        storage_hash,
        state_root,
        account_proof,
        &decoded,
    ))
}

} // verus!
