//! The inputs of the protocol's circuits, and the input files that the circuits
//! read them from.
use vstd::prelude::*;

use crate::arith::limbs_value;
use crate::field::{hex_char, repr_hex, Fr};
use crate::uint::{dec_string, display_u64, hex_value, is_hex_u256, json_u64, strip_0x, U256};

verus! {

/// The name under which a circuit's files are kept.
#[derive(Clone, Copy, Debug)]
pub struct CircuitIdentifier<'a> {
    pub circuit_name: &'a str,
}

/// The inputs of the burn-address circuit.
#[derive(Clone, Debug)]
pub struct BurnAddressCircuit {
    pub identifier: CircuitIdentifier<'static>,
    pub address: String,
    pub private_key: U256,
    pub blinding_factor: u64,
    pub ceremony_id: u64,
    pub random_secret: u64,
    pub vote: u64,
}

/// The inputs of the nullifier circuit.
#[derive(Clone, Debug)]
pub struct NullifierCircuit {
    pub identifier: CircuitIdentifier<'static>,
    pub private_key: U256,
    pub blinding_factor: u64,
    pub ceremony_id: u64,
    pub nullifier: String,
}

/// The inputs of the Merkle-membership circuit.
#[derive(Clone, Debug)]
pub struct MtCircuit {
    pub identifier: CircuitIdentifier<'static>,
    pub node: crate::merkle::Proof,
}

/// The inputs of the account-proof (Merkle Patricia trie) circuit.
#[derive(Clone, Debug)]
pub struct MptCircuit {
    pub identifier: CircuitIdentifier<'static>,
    pub address: Vec<u8>,
    pub nonce: u64,
    pub balance: U256,
    pub code_hash: [u8; 32],
    pub storage_hash: [u8; 32],
    pub state_root: Vec<u8>,
    pub account_rlp: Vec<u8>,
    pub account_rlp_len: usize,
    pub account_proof: Vec<Vec<u8>>,
    pub account_proof_length: usize,
    pub node_length: Vec<usize>,
    pub leaf_nibbles: usize,
}

/// The inputs of the vote circuit.
#[allow(non_snake_case)]
#[derive(Clone, Debug)]
pub struct VoteCircuit {
    pub identifier: CircuitIdentifier<'static>,
    pub address: String,
    pub secret: U256,
    pub blinding_factor: u64,
    pub ceremony_id: u64,
    pub random_secret: u64,
    pub vote: u64,
    pub revote: u64,
    pub nullifier: String,
    pub nonce: u64,
    pub balance: U256,
    pub code_hash: [u8; 32],
    pub storage_hash: [u8; 32],
    pub state_root: Vec<u8>,
    pub account_rlp: Vec<u8>,
    pub account_rlp_len: usize,
    pub account_proof: Vec<Vec<u8>>,
    pub account_proof_length: usize,
    pub node_length: Vec<usize>,
    pub leaf_nibbles: usize,
    pub mt_root: Fr,
    pub mt_leaf: Fr,
    pub mt_pathElements: Vec<Fr>,
    pub mt_pathIndices: Vec<usize>,
}

impl<'a> CircuitIdentifier<'a> {
    /// The file that holds the circuit's inputs.
    pub fn input_file_path(&self) -> (r: String)
        ensures
            r@ == "circuits/inputs/"@ + self.circuit_name@ + ".json"@,
    {
        let mut r = String::from_str("circuits/inputs/");
        r.append(self.circuit_name);
        r.append(".json");
        r
    }

    /// The command that computes the witness from the inputs.
    pub fn witness_command(&self) -> (r: String)
        ensures
            r@ == "snarkjs wtns calculate circuits/"@ + self.circuit_name@ + "/"@
                + self.circuit_name@ + "_js/"@ + self.circuit_name@ + ".wasm circuits/inputs/"@
                + self.circuit_name@ + ".json circuits/"@ + self.circuit_name@
                + "/witness.wtns"@,
    {
        let mut r = String::from_str("snarkjs wtns calculate circuits/");
        r.append(self.circuit_name);
        r.append("/");
        r.append(self.circuit_name);
        r.append("_js/");
        r.append(self.circuit_name);
        r.append(".wasm circuits/inputs/");
        r.append(self.circuit_name);
        r.append(".json circuits/");
        r.append(self.circuit_name);
        r.append("/witness.wtns");
        r
    }

    /// The command that writes the witness out as JSON.
    pub fn export_witness_command(&self) -> (r: String)
        ensures
            r@ == "snarkjs wtns export json circuits/"@ + self.circuit_name@
                + "/witness.wtns circuits/"@ + self.circuit_name@ + "/witness.json"@,
    {
        let mut r = String::from_str("snarkjs wtns export json circuits/");
        r.append(self.circuit_name);
        r.append("/witness.wtns circuits/");
        r.append(self.circuit_name);
        r.append("/witness.json");
        r
    }

    /// The command that sets up the proving key.
    pub fn setup_zkey_command(&self) -> (r: String)
        ensures
            r@ == "snarkjs groth16 setup circuits/"@ + self.circuit_name@ + "/"@
                + self.circuit_name@ + ".r1cs circuits/setup/pot_final.ptau circuits/"@
                + self.circuit_name@ + "/"@ + self.circuit_name@ + "_0000.zkey"@,
    {
        let mut r = String::from_str("snarkjs groth16 setup circuits/");
        r.append(self.circuit_name);
        r.append("/");
        r.append(self.circuit_name);
        r.append(".r1cs circuits/setup/pot_final.ptau circuits/");
        r.append(self.circuit_name);
        r.append("/");
        r.append(self.circuit_name);
        r.append("_0000.zkey");
        r
    }

    /// The command that exports the verification key.
    pub fn setup_vkey_command(&self) -> (r: String)
        ensures
            r@ == "snarkjs zkey export verificationkey circuits/"@ + self.circuit_name@ + "/"@
                + self.circuit_name@ + "_0000.zkey circuits/"@ + self.circuit_name@
                + "/verification_key.json"@,
    {
        let mut r = String::from_str("snarkjs zkey export verificationkey circuits/");
        r.append(self.circuit_name);
        r.append("/");
        r.append(self.circuit_name);
        r.append("_0000.zkey circuits/");
        r.append(self.circuit_name);
        r.append("/verification_key.json");
        r
    }

    /// The command that proves the witness.
    pub fn proof_command(&self) -> (r: String)
        ensures
            r@ == "snarkjs groth16 prove circuits/"@ + self.circuit_name@ + "/"@
                + self.circuit_name@ + "_0000.zkey circuits/"@ + self.circuit_name@
                + "/witness.wtns circuits/proofs/"@ + self.circuit_name@
                + "_proof.json circuits/proofs/"@ + self.circuit_name@ + "_public.json"@,
    {
        let mut r = String::from_str("snarkjs groth16 prove circuits/");
        r.append(self.circuit_name);
        r.append("/");
        r.append(self.circuit_name);
        r.append("_0000.zkey circuits/");
        r.append(self.circuit_name);
        r.append("/witness.wtns circuits/proofs/");
        r.append(self.circuit_name);
        r.append("_proof.json circuits/proofs/");
        r.append(self.circuit_name);
        r.append("_public.json");
        r
    }

    /// The command that checks the proof.
    pub fn verify_command(&self) -> (r: String)
        ensures
            r@ == "snarkjs groth16 verify circuits/"@ + self.circuit_name@
                + "/verification_key.json circuits/proofs/"@ + self.circuit_name@
                + "_public.json circuits/proofs/"@ + self.circuit_name@ + "_proof.json"@,
    {
        let mut r = String::from_str("snarkjs groth16 verify circuits/");
        r.append(self.circuit_name);
        r.append("/verification_key.json circuits/proofs/");
        r.append(self.circuit_name);
        r.append("_public.json circuits/proofs/");
        r.append(self.circuit_name);
        r.append("_proof.json");
        r
    }

    /// The command that exports the Solidity verifier.
    pub fn verifier_command(&self) -> (r: String)
        ensures
            r@ == "snarkjs zkey export solidityverifier circuits/"@ + self.circuit_name@ + "/"@
                + self.circuit_name@ + "_0000.zkey circuits/"@ + self.circuit_name@ + "/"@
                + self.circuit_name@ + "_verifier.sol"@,
    {
        let mut r = String::from_str("snarkjs zkey export solidityverifier circuits/");
        r.append(self.circuit_name);
        r.append("/");
        r.append(self.circuit_name);
        r.append("_0000.zkey circuits/");
        r.append(self.circuit_name);
        r.append("/");
        r.append(self.circuit_name);
        r.append("_verifier.sol");
        r
    }
}

/// The texts `items` separated by commas.
pub open spec fn json_join(items: Seq<Seq<char>>) -> Seq<char>
    decreases items.len(),
{
    if items.len() == 0 {
        Seq::empty()
    } else if items.len() == 1 {
        items[0]
    } else {
        json_join(items.drop_last()) + ","@ + items.last()
    }
}

/// A compact JSON array of the already written `items`.
pub open spec fn json_array(items: Seq<Seq<char>>) -> Seq<char> {
    "["@ + json_join(items) + "]"@
}

/// A compact JSON object of the already written `fields`.
pub open spec fn json_object(fields: Seq<Seq<char>>) -> Seq<char> {
    "{"@ + json_join(fields) + "}"@
}

/// A JSON string of text that needs no escaping.
pub open spec fn json_str(s: Seq<char>) -> Seq<char> {
    "\""@ + s + "\""@
}

/// Whether a JSON writer leaves `s` as it is inside a string: no quote, no
/// backslash, no control character.
pub open spec fn json_plain(s: Seq<char>) -> bool {
    forall|i: int| 0 <= i < s.len() ==> s[i] != '"' && s[i] != '\\' && (s[i] as nat) >= 0x20
}

/// One member of a JSON object.
pub open spec fn json_field(key: Seq<char>, value: Seq<char>) -> Seq<char> {
    json_str(key) + ":"@ + value
}

/// A JSON array of byte values.
pub open spec fn json_bytes(v: Seq<u8>) -> Seq<char> {
    json_array(Seq::new(v.len(), |i: int| dec_string(v[i] as nat)))
}

/// A JSON array of `usize` values.
pub open spec fn json_usizes(v: Seq<usize>) -> Seq<char> {
    json_array(Seq::new(v.len(), |i: int| dec_string(v[i] as nat)))
}

/// A JSON array of arrays of byte values.
pub open spec fn json_byte_lists(v: Seq<Seq<u8>>) -> Seq<char> {
    json_array(Seq::new(v.len(), |i: int| json_bytes(v[i])))
}

/// A JSON string of a field element's representation text.
pub open spec fn json_fr(f: Fr) -> Seq<char> {
    json_str(repr_hex(f.limbs@))
}

/// A JSON array of field elements' representation texts.
pub open spec fn json_frs(v: Seq<Fr>) -> Seq<char> {
    json_array(Seq::new(v.len(), |i: int| json_fr(v[i])))
}

/// The lowercase hexadecimal digits of `n` without leading zeros (`0` for zero).
pub open spec fn hex_minimal(n: nat) -> Seq<char>
    decreases n,
{
    if n < 16 {
        seq![hex_char(n)]
    } else {
        hex_minimal(n / 16).push(hex_char(n % 16))
    }
}

/// A JSON string of a number as ethers serialises its integers: `0x` and the
/// minimal lowercase hexadecimal digits.
pub open spec fn json_quantity(n: nat) -> Seq<char> {
    json_str("0x"@ + hex_minimal(n))
}

/// `serde_json::to_string` of an `ethers::types::U256`: impl-serde's `serialize_uint`
/// writes `0x` and the big-endian hexadecimal digits without leading zeros (`0x0`
/// for zero), which serde_json puts between quotes; none of them needs escaping.
#[verifier::external_body]
fn json_u256_quantity(limbs: [u64; 4]) -> (r: String)
    ensures
        r@ == json_quantity(limbs_value(limbs@)),
{
    serde_json::to_string(&ethers::types::U256(limbs)).unwrap()
}

/// `serde_json::to_string` of an `ethers::types::U64`, written as for `U256`.
#[verifier::external_body]
fn json_u64_quantity(n: u64) -> (r: String)
    ensures
        r@ == json_quantity(n as nat),
{
    serde_json::to_string(&ethers::types::U64([n])).unwrap()
}

/// The texts `items` separated by commas.
fn join_json(items: &Vec<String>) -> (r: String)
    ensures
        r@ == json_join(items.deep_view()),
{
    let ghost s = items.deep_view();
    let mut r = String::new();
    let mut i: usize = 0;
    while i < items.len()
        invariant
            i <= items@.len(),
            s == items.deep_view(),
            r@ == json_join(s.take(i as int)),
        decreases items@.len() - i,
    {
        if i > 0 {
            r.append(",");
        }
        r.append(items[i].as_str());
        proof {
            assert(s.take(i + 1).drop_last() =~= s.take(i as int));
            assert(s.take(i + 1).last() == items@[i as int]@);
            if i == 0 {
                assert(r@ =~= s.take(1)[0]);
            }
        }
        i = i + 1;
    }
    assert(s.take(items@.len() as int) =~= s);
    r
}

/// A compact JSON array of the already written `items`.
fn array_json(items: &Vec<String>) -> (r: String)
    ensures
        r@ == json_array(items.deep_view()),
{
    let mut r = String::from_str("[");
    let body = join_json(items);
    r.append(body.as_str());
    r.append("]");
    r
}

/// A compact JSON object of the already written `fields`.
fn object_json(fields: &Vec<String>) -> (r: String)
    ensures
        r@ == json_object(fields.deep_view()),
{
    let mut r = String::from_str("{");
    let body = join_json(fields);
    r.append(body.as_str());
    r.append("}");
    r
}

/// A JSON string of `s`, written as it is.
fn str_json(s: &str) -> (r: String)
    ensures
        r@ == json_str(s@),
{
    let mut r = String::from_str("\"");
    r.append(s);
    r.append("\"");
    r
}

/// One member of a JSON object.
fn field_json(key: &str, value: String) -> (r: String)
    ensures
        r@ == json_field(key@, value@),
{
    let mut r = str_json(key);
    r.append(":");
    r.append(value.as_str());
    r
}

/// A JSON array of byte values.
fn bytes_json(v: &[u8]) -> (r: String)
    ensures
        r@ == json_bytes(v@),
{
    let mut items: Vec<String> = Vec::new();
    let mut i: usize = 0;
    while i < v.len()
        invariant
            i <= v@.len(),
            items@.len() == i,
            forall|k: int| 0 <= k < i ==> (#[trigger] items@[k])@ == dec_string(v@[k] as nat),
        decreases v@.len() - i,
    {
        items.push(json_u64(v[i] as u64));
        i = i + 1;
    }
    assert(items.deep_view() =~= Seq::new(v@.len(), |k: int| dec_string(v@[k] as nat)));
    array_json(&items)
}

/// A JSON array of `usize` values.
fn usizes_json(v: &Vec<usize>) -> (r: String)
    ensures
        r@ == json_usizes(v@),
{
    let mut items: Vec<String> = Vec::new();
    let mut i: usize = 0;
    while i < v.len()
        invariant
            i <= v@.len(),
            items@.len() == i,
            forall|k: int| 0 <= k < i ==> (#[trigger] items@[k])@ == dec_string(v@[k] as nat),
        decreases v@.len() - i,
    {
        items.push(json_u64(v[i] as u64));
        i = i + 1;
    }
    assert(items.deep_view() =~= Seq::new(v@.len(), |k: int| dec_string(v@[k] as nat)));
    array_json(&items)
}

/// A JSON array of arrays of byte values.
fn byte_lists_json(v: &Vec<Vec<u8>>) -> (r: String)
    ensures
        r@ == json_byte_lists(v.deep_view()),
{
    let mut items: Vec<String> = Vec::new();
    let mut i: usize = 0;
    while i < v.len()
        invariant
            i <= v@.len(),
            items@.len() == i,
            forall|k: int| 0 <= k < i ==> (#[trigger] items@[k])@ == json_bytes(v@[k]@),
        decreases v@.len() - i,
    {
        items.push(bytes_json(v[i].as_slice()));
        i = i + 1;
    }
    assert forall|k: int| 0 <= k < v@.len() implies v.deep_view()[k] == v@[k]@ by {
        assert(v.deep_view()[k] =~= v@[k]@);
    }
    assert(items.deep_view() =~= Seq::new(v.deep_view().len(), |k: int| json_bytes(v.deep_view()[k])));
    array_json(&items)
}

/// A JSON array of field elements' representation texts.
fn frs_json(v: &Vec<Fr>) -> (r: String)
    ensures
        r@ == json_frs(v@),
{
    let mut items: Vec<String> = Vec::new();
    let mut i: usize = 0;
    while i < v.len()
        invariant
            i <= v@.len(),
            items@.len() == i,
            forall|k: int| 0 <= k < i ==> (#[trigger] items@[k])@ == json_fr(v@[k]),
        decreases v@.len() - i,
    {
        let t = v[i].to_repr_string();
        items.push(str_json(t.as_str()));
        i = i + 1;
    }
    assert(items.deep_view() =~= Seq::new(v@.len(), |k: int| json_fr(v@[k])));
    array_json(&items)
}

/// Whether `m` stands in the compact JSON object `text` as one whole member: right
/// after its `{` or a `,`, and right before a `,` or its `}`.
pub open spec fn has_member(text: Seq<char>, m: Seq<char>) -> bool {
    exists|i: int|
        #![trigger text.subrange(i, i + m.len())]
        0 < i && i + m.len() < text.len() && text.subrange(i, i + m.len()) == m && (text[i - 1]
            == '{' || text[i - 1] == ',') && (text[i + m.len()] == ',' || text[i + m.len()] == '}')
}

/// Where item `k` of a comma-separated list stands: it starts at the list's start or
/// after a comma, and ends at the list's end or before a comma.
proof fn lemma_join_position(items: Seq<Seq<char>>, k: int) -> (o: int)
    requires
        0 <= k < items.len(),
    ensures
        0 <= o,
        o + items[k].len() <= json_join(items).len(),
        json_join(items).subrange(o, o + items[k].len()) == items[k],
        o == 0 || json_join(items)[o - 1] == ',',
        o + items[k].len() == json_join(items).len() || json_join(items)[o + items[k].len()] == ',',
    decreases items.len(),
{
    let j = json_join(items);
    if items.len() == 1 {
        assert(j.subrange(0, items[0].len() as int) =~= items[0]);
        0
    } else {
        let rest = items.drop_last();
        let a = json_join(rest);
        assert(j == a + ","@ + items.last());
        reveal_strlit(",");
        if k == items.len() - 1 {
            let o: int = a.len() as int + 1;
            assert(j.subrange(o, o + items[k].len()) =~= items[k]);
            assert(j[o - 1] == ',');
            o
        } else {
            let o = lemma_join_position(rest, k);
            assert(rest[k] == items[k]);
            assert(j.subrange(o, o + items[k].len()) =~= a.subrange(o, o + items[k].len()));
            if o > 0 {
                assert(j[o - 1] == a[o - 1]);
            }
            if o + items[k].len() < a.len() {
                assert(j[o + items[k].len()] == a[o + items[k].len()]);
            } else {
                assert(j[a.len() as int] == ',');
            }
            o
        }
    }
}

/// Every field of a compact JSON object stands in it as a whole member.
proof fn lemma_object_member(fields: Seq<Seq<char>>, k: int)
    requires
        0 <= k < fields.len(),
    ensures
        has_member(json_object(fields), fields[k]),
{
    let o = lemma_join_position(fields, k);
    let j = json_join(fields);
    let t = json_object(fields);
    reveal_strlit("{");
    reveal_strlit("}");
    assert(t == "{"@ + j + "}"@);
    let m = fields[k];
    let i = o + 1;
    assert(t.subrange(i, i + m.len()) =~= j.subrange(o, o + m.len()));
    if o > 0 {
        assert(t[i - 1] == j[o - 1]);
    } else {
        assert(t[0] == '{');
    }
    if o + m.len() < j.len() {
        assert(t[i + m.len()] == j[o + m.len()]);
    } else {
        assert(t[i + m.len()] == '}');
    }
    assert(t.subrange(i, i + m.len()) == m);
}

/// The Merkle-membership circuit's input file: a compact JSON object with its keys
/// in sorted order.
pub open spec fn mt_inputs_text(c: MtCircuit) -> Seq<char> {
    json_object(
        seq![
            json_field("leaf"@, json_fr(c.node.leaf)),
            json_field("pathElements"@, json_frs(c.node.pathElements@)),
            json_field("pathIndices"@, json_usizes(c.node.pathIndices@)),
            json_field("root"@, json_fr(c.node.root)),
        ],
    )
}

/// The account-proof circuit's input file: a compact JSON object with its keys in
/// sorted order.
pub open spec fn mpt_inputs_text(c: MptCircuit) -> Seq<char> {
    json_object(
        seq![
            json_field("account_proof"@, json_byte_lists(c.account_proof.deep_view())),
            json_field("account_proof_length"@, dec_string(c.account_proof_length as nat)),
            json_field("account_rlp"@, json_bytes(c.account_rlp@)),
            json_field("account_rlp_len"@, dec_string(c.account_rlp_len as nat)),
            json_field("address"@, json_bytes(c.address@)),
            json_field("balance"@, json_quantity(c.balance.value())),
            json_field("code_hash"@, json_bytes(c.code_hash@)),
            json_field("leaf_nibbles"@, dec_string(c.leaf_nibbles as nat)),
            json_field("node_length"@, json_usizes(c.node_length@)),
            json_field("nonce"@, json_quantity(c.nonce as nat)),
            json_field("state_root"@, json_bytes(c.state_root@)),
            json_field("storage_hash"@, json_bytes(c.storage_hash@)),
        ],
    )
}

/// The vote circuit's input file: a compact JSON object with its keys in sorted
/// order.
pub open spec fn vote_inputs_text(c: VoteCircuit) -> Seq<char> {
    json_object(
        seq![
            json_field("account_proof"@, json_byte_lists(c.account_proof.deep_view())),
            json_field("account_proof_length"@, dec_string(c.account_proof_length as nat)),
            json_field("account_rlp"@, json_bytes(c.account_rlp@)),
            json_field("account_rlp_len"@, dec_string(c.account_rlp_len as nat)),
            json_field("address"@, json_str(c.address@)),
            json_field("balance"@, json_quantity(c.balance.value())),
            json_field("blinding_factor"@, json_str(dec_string(c.blinding_factor as nat))),
            json_field("ceremonyID"@, json_str(dec_string(c.ceremony_id as nat))),
            json_field("code_hash"@, json_bytes(c.code_hash@)),
            json_field("leaf_nibbles"@, dec_string(c.leaf_nibbles as nat)),
            json_field("mt_leaf"@, json_fr(c.mt_leaf)),
            json_field("mt_pathElements"@, json_frs(c.mt_pathElements@)),
            json_field("mt_pathIndices"@, json_usizes(c.mt_pathIndices@)),
            json_field("mt_root"@, json_fr(c.mt_root)),
            json_field("node_length"@, json_usizes(c.node_length@)),
            json_field("nonce"@, json_quantity(c.nonce as nat)),
            json_field("nullifier"@, json_str(c.nullifier@)),
            json_field("random_secret"@, json_str(dec_string(c.random_secret as nat))),
            json_field("revote"@, dec_string(c.revote as nat)),
            json_field("secret"@, json_str(dec_string(c.secret.value()))),
            json_field("state_root"@, json_bytes(c.state_root@)),
            json_field("storage_hash"@, json_bytes(c.storage_hash@)),
            json_field("vote"@, json_str(dec_string(c.vote as nat))),
        ],
    )
}

/// The Merkle-membership input file holds each proof part under its own key: the
/// root, the leaf, the path's elements and its indices, each as one whole member.
#[verifier::spinoff_prover]
#[verifier::rlimit(60)]
pub proof fn lemma_mt_inputs_members(c: MtCircuit)
    ensures
        has_member(mt_inputs_text(c), "\"leaf\":"@ + json_fr(c.node.leaf)),
        has_member(mt_inputs_text(c), "\"pathElements\":"@ + json_frs(c.node.pathElements@)),
        has_member(mt_inputs_text(c), "\"pathIndices\":"@ + json_usizes(c.node.pathIndices@)),
        has_member(mt_inputs_text(c), "\"root\":"@ + json_fr(c.node.root)),
{
    reveal_strlit("\"");
    reveal_strlit(":");
    let fields = seq![
        json_field("leaf"@, json_fr(c.node.leaf)),
        json_field("pathElements"@, json_frs(c.node.pathElements@)),
        json_field("pathIndices"@, json_usizes(c.node.pathIndices@)),
        json_field("root"@, json_fr(c.node.root)),
    ];
    assert(mt_inputs_text(c) == json_object(fields));
    reveal_strlit("leaf");
    reveal_strlit("\"leaf\":");
    assert(fields[0] =~= "\"leaf\":"@ + json_fr(c.node.leaf));
    lemma_object_member(fields, 0);
    reveal_strlit("pathElements");
    reveal_strlit("\"pathElements\":");
    assert(fields[1] =~= "\"pathElements\":"@ + json_frs(c.node.pathElements@));
    lemma_object_member(fields, 1);
    reveal_strlit("pathIndices");
    reveal_strlit("\"pathIndices\":");
    assert(fields[2] =~= "\"pathIndices\":"@ + json_usizes(c.node.pathIndices@));
    lemma_object_member(fields, 2);
    reveal_strlit("root");
    reveal_strlit("\"root\":");
    assert(fields[3] =~= "\"root\":"@ + json_fr(c.node.root));
    lemma_object_member(fields, 3);
}

/// The account-proof input file holds each input under its own key: every key of the
/// circuit stands as one whole member with the value of the field of that name.
#[verifier::spinoff_prover]
#[verifier::rlimit(60)]
pub proof fn lemma_mpt_inputs_members(c: MptCircuit)
    ensures
        has_member(mpt_inputs_text(c), "\"account_proof\":"@ + json_byte_lists(c.account_proof.deep_view())),
        has_member(mpt_inputs_text(c), "\"account_proof_length\":"@ + dec_string(c.account_proof_length as nat)),
        has_member(mpt_inputs_text(c), "\"account_rlp\":"@ + json_bytes(c.account_rlp@)),
        has_member(mpt_inputs_text(c), "\"account_rlp_len\":"@ + dec_string(c.account_rlp_len as nat)),
        has_member(mpt_inputs_text(c), "\"address\":"@ + json_bytes(c.address@)),
        has_member(mpt_inputs_text(c), "\"balance\":"@ + json_quantity(c.balance.value())),
        has_member(mpt_inputs_text(c), "\"code_hash\":"@ + json_bytes(c.code_hash@)),
        has_member(mpt_inputs_text(c), "\"leaf_nibbles\":"@ + dec_string(c.leaf_nibbles as nat)),
        has_member(mpt_inputs_text(c), "\"node_length\":"@ + json_usizes(c.node_length@)),
        has_member(mpt_inputs_text(c), "\"nonce\":"@ + json_quantity(c.nonce as nat)),
        has_member(mpt_inputs_text(c), "\"state_root\":"@ + json_bytes(c.state_root@)),
        has_member(mpt_inputs_text(c), "\"storage_hash\":"@ + json_bytes(c.storage_hash@)),
{
    reveal_strlit("\"");
    reveal_strlit(":");
    let fields = seq![
        json_field("account_proof"@, json_byte_lists(c.account_proof.deep_view())),
        json_field("account_proof_length"@, dec_string(c.account_proof_length as nat)),
        json_field("account_rlp"@, json_bytes(c.account_rlp@)),
        json_field("account_rlp_len"@, dec_string(c.account_rlp_len as nat)),
        json_field("address"@, json_bytes(c.address@)),
        json_field("balance"@, json_quantity(c.balance.value())),
        json_field("code_hash"@, json_bytes(c.code_hash@)),
        json_field("leaf_nibbles"@, dec_string(c.leaf_nibbles as nat)),
        json_field("node_length"@, json_usizes(c.node_length@)),
        json_field("nonce"@, json_quantity(c.nonce as nat)),
        json_field("state_root"@, json_bytes(c.state_root@)),
        json_field("storage_hash"@, json_bytes(c.storage_hash@)),
    ];
    assert(mpt_inputs_text(c) == json_object(fields));
    reveal_strlit("account_proof");
    reveal_strlit("\"account_proof\":");
    assert(fields[0] =~= "\"account_proof\":"@ + json_byte_lists(c.account_proof.deep_view()));
    lemma_object_member(fields, 0);
    reveal_strlit("account_proof_length");
    reveal_strlit("\"account_proof_length\":");
    assert(fields[1] =~= "\"account_proof_length\":"@ + dec_string(c.account_proof_length as nat));
    lemma_object_member(fields, 1);
    reveal_strlit("account_rlp");
    reveal_strlit("\"account_rlp\":");
    assert(fields[2] =~= "\"account_rlp\":"@ + json_bytes(c.account_rlp@));
    lemma_object_member(fields, 2);
    reveal_strlit("account_rlp_len");
    reveal_strlit("\"account_rlp_len\":");
    assert(fields[3] =~= "\"account_rlp_len\":"@ + dec_string(c.account_rlp_len as nat));
    lemma_object_member(fields, 3);
    reveal_strlit("address");
    reveal_strlit("\"address\":");
    assert(fields[4] =~= "\"address\":"@ + json_bytes(c.address@));
    lemma_object_member(fields, 4);
    reveal_strlit("balance");
    reveal_strlit("\"balance\":");
    assert(fields[5] =~= "\"balance\":"@ + json_quantity(c.balance.value()));
    lemma_object_member(fields, 5);
    reveal_strlit("code_hash");
    reveal_strlit("\"code_hash\":");
    assert(fields[6] =~= "\"code_hash\":"@ + json_bytes(c.code_hash@));
    lemma_object_member(fields, 6);
    reveal_strlit("leaf_nibbles");
    reveal_strlit("\"leaf_nibbles\":");
    assert(fields[7] =~= "\"leaf_nibbles\":"@ + dec_string(c.leaf_nibbles as nat));
    lemma_object_member(fields, 7);
    reveal_strlit("node_length");
    reveal_strlit("\"node_length\":");
    assert(fields[8] =~= "\"node_length\":"@ + json_usizes(c.node_length@));
    lemma_object_member(fields, 8);
    reveal_strlit("nonce");
    reveal_strlit("\"nonce\":");
    assert(fields[9] =~= "\"nonce\":"@ + json_quantity(c.nonce as nat));
    lemma_object_member(fields, 9);
    reveal_strlit("state_root");
    reveal_strlit("\"state_root\":");
    assert(fields[10] =~= "\"state_root\":"@ + json_bytes(c.state_root@));
    lemma_object_member(fields, 10);
    reveal_strlit("storage_hash");
    reveal_strlit("\"storage_hash\":");
    assert(fields[11] =~= "\"storage_hash\":"@ + json_bytes(c.storage_hash@));
    lemma_object_member(fields, 11);
}

/// The vote input file holds each input under its own key: every key of the circuit
/// stands as one whole member with the value of the field of that name.
#[verifier::spinoff_prover]
#[verifier::rlimit(60)]
pub proof fn lemma_vote_inputs_members(c: VoteCircuit)
    ensures
        has_member(vote_inputs_text(c), "\"account_proof\":"@ + json_byte_lists(c.account_proof.deep_view())),
        has_member(vote_inputs_text(c), "\"account_proof_length\":"@ + dec_string(c.account_proof_length as nat)),
        has_member(vote_inputs_text(c), "\"account_rlp\":"@ + json_bytes(c.account_rlp@)),
        has_member(vote_inputs_text(c), "\"account_rlp_len\":"@ + dec_string(c.account_rlp_len as nat)),
        has_member(vote_inputs_text(c), "\"address\":"@ + json_str(c.address@)),
        has_member(vote_inputs_text(c), "\"balance\":"@ + json_quantity(c.balance.value())),
        has_member(vote_inputs_text(c), "\"blinding_factor\":"@ + json_str(dec_string(c.blinding_factor as nat))),
        has_member(vote_inputs_text(c), "\"ceremonyID\":"@ + json_str(dec_string(c.ceremony_id as nat))),
        has_member(vote_inputs_text(c), "\"code_hash\":"@ + json_bytes(c.code_hash@)),
        has_member(vote_inputs_text(c), "\"leaf_nibbles\":"@ + dec_string(c.leaf_nibbles as nat)),
        has_member(vote_inputs_text(c), "\"mt_leaf\":"@ + json_fr(c.mt_leaf)),
        has_member(vote_inputs_text(c), "\"mt_pathElements\":"@ + json_frs(c.mt_pathElements@)),
        has_member(vote_inputs_text(c), "\"mt_pathIndices\":"@ + json_usizes(c.mt_pathIndices@)),
        has_member(vote_inputs_text(c), "\"mt_root\":"@ + json_fr(c.mt_root)),
        has_member(vote_inputs_text(c), "\"node_length\":"@ + json_usizes(c.node_length@)),
        has_member(vote_inputs_text(c), "\"nonce\":"@ + json_quantity(c.nonce as nat)),
        has_member(vote_inputs_text(c), "\"nullifier\":"@ + json_str(c.nullifier@)),
        has_member(vote_inputs_text(c), "\"random_secret\":"@ + json_str(dec_string(c.random_secret as nat))),
        has_member(vote_inputs_text(c), "\"revote\":"@ + dec_string(c.revote as nat)),
        has_member(vote_inputs_text(c), "\"secret\":"@ + json_str(dec_string(c.secret.value()))),
        has_member(vote_inputs_text(c), "\"state_root\":"@ + json_bytes(c.state_root@)),
        has_member(vote_inputs_text(c), "\"storage_hash\":"@ + json_bytes(c.storage_hash@)),
        has_member(vote_inputs_text(c), "\"vote\":"@ + json_str(dec_string(c.vote as nat))),
{
    reveal_strlit("\"");
    reveal_strlit(":");
    let fields = seq![
        json_field("account_proof"@, json_byte_lists(c.account_proof.deep_view())),
        json_field("account_proof_length"@, dec_string(c.account_proof_length as nat)),
        json_field("account_rlp"@, json_bytes(c.account_rlp@)),
        json_field("account_rlp_len"@, dec_string(c.account_rlp_len as nat)),
        json_field("address"@, json_str(c.address@)),
        json_field("balance"@, json_quantity(c.balance.value())),
        json_field("blinding_factor"@, json_str(dec_string(c.blinding_factor as nat))),
        json_field("ceremonyID"@, json_str(dec_string(c.ceremony_id as nat))),
        json_field("code_hash"@, json_bytes(c.code_hash@)),
        json_field("leaf_nibbles"@, dec_string(c.leaf_nibbles as nat)),
        json_field("mt_leaf"@, json_fr(c.mt_leaf)),
        json_field("mt_pathElements"@, json_frs(c.mt_pathElements@)),
        json_field("mt_pathIndices"@, json_usizes(c.mt_pathIndices@)),
        json_field("mt_root"@, json_fr(c.mt_root)),
        json_field("node_length"@, json_usizes(c.node_length@)),
        json_field("nonce"@, json_quantity(c.nonce as nat)),
        json_field("nullifier"@, json_str(c.nullifier@)),
        json_field("random_secret"@, json_str(dec_string(c.random_secret as nat))),
        json_field("revote"@, dec_string(c.revote as nat)),
        json_field("secret"@, json_str(dec_string(c.secret.value()))),
        json_field("state_root"@, json_bytes(c.state_root@)),
        json_field("storage_hash"@, json_bytes(c.storage_hash@)),
        json_field("vote"@, json_str(dec_string(c.vote as nat))),
    ];
    assert(vote_inputs_text(c) == json_object(fields));
    reveal_strlit("account_proof");
    reveal_strlit("\"account_proof\":");
    assert(fields[0] =~= "\"account_proof\":"@ + json_byte_lists(c.account_proof.deep_view()));
    lemma_object_member(fields, 0);
    reveal_strlit("account_proof_length");
    reveal_strlit("\"account_proof_length\":");
    assert(fields[1] =~= "\"account_proof_length\":"@ + dec_string(c.account_proof_length as nat));
    lemma_object_member(fields, 1);
    reveal_strlit("account_rlp");
    reveal_strlit("\"account_rlp\":");
    assert(fields[2] =~= "\"account_rlp\":"@ + json_bytes(c.account_rlp@));
    lemma_object_member(fields, 2);
    reveal_strlit("account_rlp_len");
    reveal_strlit("\"account_rlp_len\":");
    assert(fields[3] =~= "\"account_rlp_len\":"@ + dec_string(c.account_rlp_len as nat));
    lemma_object_member(fields, 3);
    reveal_strlit("address");
    reveal_strlit("\"address\":");
    assert(fields[4] =~= "\"address\":"@ + json_str(c.address@));
    lemma_object_member(fields, 4);
    reveal_strlit("balance");
    reveal_strlit("\"balance\":");
    assert(fields[5] =~= "\"balance\":"@ + json_quantity(c.balance.value()));
    lemma_object_member(fields, 5);
    reveal_strlit("blinding_factor");
    reveal_strlit("\"blinding_factor\":");
    assert(fields[6] =~= "\"blinding_factor\":"@ + json_str(dec_string(c.blinding_factor as nat)));
    lemma_object_member(fields, 6);
    reveal_strlit("ceremonyID");
    reveal_strlit("\"ceremonyID\":");
    assert(fields[7] =~= "\"ceremonyID\":"@ + json_str(dec_string(c.ceremony_id as nat)));
    lemma_object_member(fields, 7);
    reveal_strlit("code_hash");
    reveal_strlit("\"code_hash\":");
    assert(fields[8] =~= "\"code_hash\":"@ + json_bytes(c.code_hash@));
    lemma_object_member(fields, 8);
    reveal_strlit("leaf_nibbles");
    reveal_strlit("\"leaf_nibbles\":");
    assert(fields[9] =~= "\"leaf_nibbles\":"@ + dec_string(c.leaf_nibbles as nat));
    lemma_object_member(fields, 9);
    reveal_strlit("mt_leaf");
    reveal_strlit("\"mt_leaf\":");
    assert(fields[10] =~= "\"mt_leaf\":"@ + json_fr(c.mt_leaf));
    lemma_object_member(fields, 10);
    reveal_strlit("mt_pathElements");
    reveal_strlit("\"mt_pathElements\":");
    assert(fields[11] =~= "\"mt_pathElements\":"@ + json_frs(c.mt_pathElements@));
    lemma_object_member(fields, 11);
    reveal_strlit("mt_pathIndices");
    reveal_strlit("\"mt_pathIndices\":");
    assert(fields[12] =~= "\"mt_pathIndices\":"@ + json_usizes(c.mt_pathIndices@));
    lemma_object_member(fields, 12);
    reveal_strlit("mt_root");
    reveal_strlit("\"mt_root\":");
    assert(fields[13] =~= "\"mt_root\":"@ + json_fr(c.mt_root));
    lemma_object_member(fields, 13);
    reveal_strlit("node_length");
    reveal_strlit("\"node_length\":");
    assert(fields[14] =~= "\"node_length\":"@ + json_usizes(c.node_length@));
    lemma_object_member(fields, 14);
    reveal_strlit("nonce");
    reveal_strlit("\"nonce\":");
    assert(fields[15] =~= "\"nonce\":"@ + json_quantity(c.nonce as nat));
    lemma_object_member(fields, 15);
    reveal_strlit("nullifier");
    reveal_strlit("\"nullifier\":");
    assert(fields[16] =~= "\"nullifier\":"@ + json_str(c.nullifier@));
    lemma_object_member(fields, 16);
    reveal_strlit("random_secret");
    reveal_strlit("\"random_secret\":");
    assert(fields[17] =~= "\"random_secret\":"@ + json_str(dec_string(c.random_secret as nat)));
    lemma_object_member(fields, 17);
    reveal_strlit("revote");
    reveal_strlit("\"revote\":");
    assert(fields[18] =~= "\"revote\":"@ + dec_string(c.revote as nat));
    lemma_object_member(fields, 18);
    reveal_strlit("secret");
    reveal_strlit("\"secret\":");
    assert(fields[19] =~= "\"secret\":"@ + json_str(dec_string(c.secret.value())));
    lemma_object_member(fields, 19);
    reveal_strlit("state_root");
    reveal_strlit("\"state_root\":");
    assert(fields[20] =~= "\"state_root\":"@ + json_bytes(c.state_root@));
    lemma_object_member(fields, 20);
    reveal_strlit("storage_hash");
    reveal_strlit("\"storage_hash\":");
    assert(fields[21] =~= "\"storage_hash\":"@ + json_bytes(c.storage_hash@));
    lemma_object_member(fields, 21);
    reveal_strlit("vote");
    reveal_strlit("\"vote\":");
    assert(fields[22] =~= "\"vote\":"@ + json_str(dec_string(c.vote as nat)));
    lemma_object_member(fields, 22);
}

/// The decimal text of the number written in hexadecimal after the first two
/// characters of `s`.
pub open spec fn dec_of_hex_tail(s: Seq<char>) -> Seq<char> {
    dec_string(hex_value(strip_0x(s.skip(2))))
}

/// Whether `s` is two ASCII characters followed by a hexadecimal 256-bit number.
pub open spec fn is_prefixed_hex(s: Seq<char>) -> bool {
    &&& s.len() >= 2
    &&& (s[0] as nat) < 128
    &&& (s[1] as nat) < 128
    &&& is_hex_u256(s.skip(2))
}

/// The input file of the burn-address circuit.
pub open spec fn burn_address_inputs(
    address: Seq<char>,
    private_key: Seq<char>,
    blinding_factor: Seq<char>,
    ceremony_id: Seq<char>,
    personal_id: Seq<char>,
    vote: Seq<char>,
) -> Seq<char> {
    "{ \"address\": \""@ + address + "\",\n            \"privateKey\": \""@ + private_key
        + "\",\n            \"blinding_factor\": \""@ + blinding_factor
        + "\",\n            \"ceremonyID\": \""@ + ceremony_id + "\",\n            \"personalID\": \""@
        + personal_id + "\",\n            \"vote\": \""@ + vote + "\" }"@
}

/// The input file of the nullifier circuit.
pub open spec fn nullifier_inputs(
    private_key: Seq<char>,
    blinding_factor: Seq<char>,
    ceremony_id: Seq<char>,
    nullifier: Seq<char>,
) -> Seq<char> {
    "{\"privateKey\": \""@ + private_key + "\",\n            \"blindingFactor\": \""@ + blinding_factor
        + "\",\n            \"ceremonyID\": \""@ + ceremony_id + "\",\n            \"nullifier\": \""@
        + nullifier + "\" }"@
}

/// The decimal text of the hexadecimal number after the first two characters.
fn hex_tail_to_dec(s: &String) -> (r: String)
    requires
        is_prefixed_hex(s@),
    ensures
        r@ == dec_of_hex_tail(s@),
{
    let t = s.as_str();
    let n = t.unicode_len();
    let tail = t.substring_char(2, n);
    assert(tail@ =~= s@.skip(2));
    match U256::from_hex_str(tail) {
        Some(v) => v.to_string(),
        None => String::new(),
    }
}

impl BurnAddressCircuit {
    /// The inputs under the circuit's name, `burnAddress`.
    pub fn new(
        address: String,
        private_key: U256,
        blinding_factor: u64,
        ceremony_id: u64,
        random_secret: u64,
        vote: u64,
    ) -> (r: Self)
        ensures
            r.identifier.circuit_name@ == "burnAddress"@,
            r.address == address,
            r.private_key == private_key,
            r.blinding_factor == blinding_factor,
            r.ceremony_id == ceremony_id,
            r.random_secret == random_secret,
            r.vote == vote,
    {
        BurnAddressCircuit {
            identifier: CircuitIdentifier { circuit_name: "burnAddress" },
            address,
            private_key,
            blinding_factor,
            ceremony_id,
            random_secret,
            vote,
        }
    }

    /// The circuit's input file: every number in decimal, the address read as
    /// hexadecimal after its two-character prefix.
    pub fn format_inputs(&self) -> (r: String)
        requires
            is_prefixed_hex(self.address@),
        ensures
            r@ == burn_address_inputs(
                dec_of_hex_tail(self.address@),
                dec_string(self.private_key.value()),
                dec_string(self.blinding_factor as nat),
                dec_string(self.ceremony_id as nat),
                dec_string(self.random_secret as nat),
                dec_string(self.vote as nat),
            ),
    {
        let a = hex_tail_to_dec(&self.address);
        let pk = self.private_key.to_string();
        let bf = json_u64(self.blinding_factor);
        let cid = json_u64(self.ceremony_id);
        let rs = json_u64(self.random_secret);
        let v = json_u64(self.vote);
        let mut r = String::from_str("{ \"address\": \"");
        r.append(a.as_str());
        r.append("\",\n            \"privateKey\": \"");
        r.append(pk.as_str());
        r.append("\",\n            \"blinding_factor\": \"");
        r.append(bf.as_str());
        r.append("\",\n            \"ceremonyID\": \"");
        r.append(cid.as_str());
        r.append("\",\n            \"personalID\": \"");
        r.append(rs.as_str());
        r.append("\",\n            \"vote\": \"");
        r.append(v.as_str());
        r.append("\" }");
        r
    }
}

impl NullifierCircuit {
    /// The inputs under the circuit's name, `nullifier`.
    pub fn new(private_key: U256, blinding_factor: u64, ceremony_id: u64, nullifier: String) -> (r: Self)
        ensures
            r.identifier.circuit_name@ == "nullifier"@,
            r.private_key == private_key,
            r.blinding_factor == blinding_factor,
            r.ceremony_id == ceremony_id,
            r.nullifier == nullifier,
    {
        NullifierCircuit {
            identifier: CircuitIdentifier { circuit_name: "nullifier" },
            private_key,
            blinding_factor,
            ceremony_id,
            nullifier,
        }
    }

    /// The circuit's input file: every number in decimal, the nullifier read as
    /// hexadecimal after its two-character prefix.
    pub fn format_inputs(&self) -> (r: String)
        requires
            is_prefixed_hex(self.nullifier@),
        ensures
            r@ == nullifier_inputs(
                dec_string(self.private_key.value()),
                dec_string(self.blinding_factor as nat),
                dec_string(self.ceremony_id as nat),
                dec_of_hex_tail(self.nullifier@),
            ),
    {
        let pk = self.private_key.to_string();
        let bf = display_u64(self.blinding_factor);
        let cid = display_u64(self.ceremony_id);
        let nl = hex_tail_to_dec(&self.nullifier);
        let mut r = String::from_str("{\"privateKey\": \"");
        r.append(pk.as_str());
        r.append("\",\n            \"blindingFactor\": \"");
        r.append(bf.as_str());
        r.append("\",\n            \"ceremonyID\": \"");
        r.append(cid.as_str());
        r.append("\",\n            \"nullifier\": \"");
        r.append(nl.as_str());
        r.append("\" }");
        r
    }
}

impl MtCircuit {
    /// The circuit's input file.
    pub fn format_inputs(&self) -> (r: String)
        ensures
            r@ == mt_inputs_text(*self),
    {
        let mut fields: Vec<String> = Vec::new();
        fields.push(field_json("leaf", str_json(self.node.leaf.to_repr_string().as_str())));
        fields.push(field_json("pathElements", frs_json(&self.node.pathElements)));
        fields.push(field_json("pathIndices", usizes_json(&self.node.pathIndices)));
        fields.push(field_json("root", str_json(self.node.root.to_repr_string().as_str())));
        assert(fields.deep_view() =~= seq![
            json_field("leaf"@, json_fr(self.node.leaf)),
            json_field("pathElements"@, json_frs(self.node.pathElements@)),
            json_field("pathIndices"@, json_usizes(self.node.pathIndices@)),
            json_field("root"@, json_fr(self.node.root)),
        ]);
        object_json(&fields)
    }

    /// The inputs under the circuit's name, `merkleTree`.
    pub fn new(node: crate::merkle::Proof) -> (r: Self)
        ensures
            r.identifier.circuit_name@ == "merkleTree"@,
            r.node == node,
    {
        MtCircuit { identifier: CircuitIdentifier { circuit_name: "merkleTree" }, node }
    }
}

impl MptCircuit {
    /// The circuit's input file.
    pub fn format_inputs(&self) -> (r: String)
        ensures
            r@ == mpt_inputs_text(*self),
    {
        let mut fields: Vec<String> = Vec::new();
        fields.push(field_json("account_proof", byte_lists_json(&self.account_proof)));
        fields.push(field_json("account_proof_length", json_u64(self.account_proof_length as u64)));
        fields.push(field_json("account_rlp", bytes_json(self.account_rlp.as_slice())));
        fields.push(field_json("account_rlp_len", json_u64(self.account_rlp_len as u64)));
        fields.push(field_json("address", bytes_json(self.address.as_slice())));
        fields.push(field_json("balance", json_u256_quantity(self.balance.limbs)));
        fields.push(field_json("code_hash", bytes_json(&self.code_hash)));
        fields.push(field_json("leaf_nibbles", json_u64(self.leaf_nibbles as u64)));
        fields.push(field_json("node_length", usizes_json(&self.node_length)));
        fields.push(field_json("nonce", json_u64_quantity(self.nonce)));
        fields.push(field_json("state_root", bytes_json(self.state_root.as_slice())));
        fields.push(field_json("storage_hash", bytes_json(&self.storage_hash)));
        assert(fields.deep_view() =~= seq![
            json_field("account_proof"@, json_byte_lists(self.account_proof.deep_view())),
            json_field("account_proof_length"@, dec_string(self.account_proof_length as nat)),
            json_field("account_rlp"@, json_bytes(self.account_rlp@)),
            json_field("account_rlp_len"@, dec_string(self.account_rlp_len as nat)),
            json_field("address"@, json_bytes(self.address@)),
            json_field("balance"@, json_quantity(self.balance.value())),
            json_field("code_hash"@, json_bytes(self.code_hash@)),
            json_field("leaf_nibbles"@, dec_string(self.leaf_nibbles as nat)),
            json_field("node_length"@, json_usizes(self.node_length@)),
            json_field("nonce"@, json_quantity(self.nonce as nat)),
            json_field("state_root"@, json_bytes(self.state_root@)),
            json_field("storage_hash"@, json_bytes(self.storage_hash@)),
        ]);
        object_json(&fields)
    }

    /// The inputs under the circuit's name, `mpt`.
    pub fn new(
        address: Vec<u8>,
        nonce: u64,
        balance: U256,
        code_hash: [u8; 32],
        storage_hash: [u8; 32],
        state_root: Vec<u8>,
        account_rlp: Vec<u8>,
        account_rlp_len: usize,
        account_proof: Vec<Vec<u8>>,
        account_proof_length: usize,
        node_length: Vec<usize>,
        leaf_nibbles: usize,
    ) -> (r: Self)
        ensures
            r.identifier.circuit_name@ == "mpt"@,
            r.address == address,
            r.nonce == nonce,
            r.balance == balance,
            r.code_hash == code_hash,
            r.storage_hash == storage_hash,
            r.state_root == state_root,
            r.account_rlp == account_rlp,
            r.account_rlp_len == account_rlp_len,
            r.account_proof == account_proof,
            r.account_proof_length == account_proof_length,
            r.node_length == node_length,
            r.leaf_nibbles == leaf_nibbles,
    {
        MptCircuit {
            identifier: CircuitIdentifier { circuit_name: "mpt" },
            address,
            nonce,
            balance,
            code_hash,
            storage_hash,
            state_root,
            account_rlp,
            account_rlp_len,
            account_proof,
            account_proof_length,
            node_length,
            leaf_nibbles,
        }
    }
}

impl VoteCircuit {
    /// The circuit's input file; the address and the nullifier are written as they
    /// are, so they must need no escaping.
    pub fn format_inputs(&self) -> (r: String)
        requires
            json_plain(self.address@),
            json_plain(self.nullifier@),
        ensures
            r@ == vote_inputs_text(*self),
    {
        let mut fields: Vec<String> = Vec::new();
        fields.push(field_json("account_proof", byte_lists_json(&self.account_proof)));
        fields.push(field_json("account_proof_length", json_u64(self.account_proof_length as u64)));
        fields.push(field_json("account_rlp", bytes_json(self.account_rlp.as_slice())));
        fields.push(field_json("account_rlp_len", json_u64(self.account_rlp_len as u64)));
        fields.push(field_json("address", str_json(self.address.as_str())));
        fields.push(field_json("balance", json_u256_quantity(self.balance.limbs)));
        fields.push(field_json("blinding_factor", str_json(display_u64(self.blinding_factor).as_str())));
        fields.push(field_json("ceremonyID", str_json(display_u64(self.ceremony_id).as_str())));
        fields.push(field_json("code_hash", bytes_json(&self.code_hash)));
        fields.push(field_json("leaf_nibbles", json_u64(self.leaf_nibbles as u64)));
        fields.push(field_json("mt_leaf", str_json(self.mt_leaf.to_repr_string().as_str())));
        fields.push(field_json("mt_pathElements", frs_json(&self.mt_pathElements)));
        fields.push(field_json("mt_pathIndices", usizes_json(&self.mt_pathIndices)));
        fields.push(field_json("mt_root", str_json(self.mt_root.to_repr_string().as_str())));
        fields.push(field_json("node_length", usizes_json(&self.node_length)));
        fields.push(field_json("nonce", json_u64_quantity(self.nonce)));
        fields.push(field_json("nullifier", str_json(self.nullifier.as_str())));
        fields.push(field_json("random_secret", str_json(display_u64(self.random_secret).as_str())));
        fields.push(field_json("revote", json_u64(self.revote)));
        fields.push(field_json("secret", str_json(self.secret.to_string().as_str())));
        fields.push(field_json("state_root", bytes_json(self.state_root.as_slice())));
        fields.push(field_json("storage_hash", bytes_json(&self.storage_hash)));
        fields.push(field_json("vote", str_json(display_u64(self.vote).as_str())));
        assert(fields.deep_view() =~= seq![
            json_field("account_proof"@, json_byte_lists(self.account_proof.deep_view())),
            json_field("account_proof_length"@, dec_string(self.account_proof_length as nat)),
            json_field("account_rlp"@, json_bytes(self.account_rlp@)),
            json_field("account_rlp_len"@, dec_string(self.account_rlp_len as nat)),
            json_field("address"@, json_str(self.address@)),
            json_field("balance"@, json_quantity(self.balance.value())),
            json_field("blinding_factor"@, json_str(dec_string(self.blinding_factor as nat))),
            json_field("ceremonyID"@, json_str(dec_string(self.ceremony_id as nat))),
            json_field("code_hash"@, json_bytes(self.code_hash@)),
            json_field("leaf_nibbles"@, dec_string(self.leaf_nibbles as nat)),
            json_field("mt_leaf"@, json_fr(self.mt_leaf)),
            json_field("mt_pathElements"@, json_frs(self.mt_pathElements@)),
            json_field("mt_pathIndices"@, json_usizes(self.mt_pathIndices@)),
            json_field("mt_root"@, json_fr(self.mt_root)),
            json_field("node_length"@, json_usizes(self.node_length@)),
            json_field("nonce"@, json_quantity(self.nonce as nat)),
            json_field("nullifier"@, json_str(self.nullifier@)),
            json_field("random_secret"@, json_str(dec_string(self.random_secret as nat))),
            json_field("revote"@, dec_string(self.revote as nat)),
            json_field("secret"@, json_str(dec_string(self.secret.value()))),
            json_field("state_root"@, json_bytes(self.state_root@)),
            json_field("storage_hash"@, json_bytes(self.storage_hash@)),
            json_field("vote"@, json_str(dec_string(self.vote as nat))),
        ]);
        object_json(&fields)
    }

    /// The inputs under the circuit's name, `vote`.
    #[allow(non_snake_case)]
    pub fn new(
        address: String,
        secret: U256,
        blinding_factor: u64,
        ceremony_id: u64,
        random_secret: u64,
        vote: u64,
        revote: u64,
        nullifier: String,
        nonce: u64,
        balance: U256,
        code_hash: [u8; 32],
        storage_hash: [u8; 32],
        state_root: Vec<u8>,
        account_rlp: Vec<u8>,
        account_rlp_len: usize,
        account_proof: Vec<Vec<u8>>,
        account_proof_length: usize,
        node_length: Vec<usize>,
        leaf_nibbles: usize,
        mt_root: Fr,
        mt_leaf: Fr,
        mt_pathElements: Vec<Fr>,
        mt_pathIndices: Vec<usize>,
    ) -> (r: Self)
        ensures
            r.identifier.circuit_name@ == "vote"@,
            r.address == address,
            r.secret == secret,
            r.blinding_factor == blinding_factor,
            r.ceremony_id == ceremony_id,
            r.random_secret == random_secret,
            r.vote == vote,
            r.revote == revote,
            r.nullifier == nullifier,
            r.nonce == nonce,
            r.balance == balance,
            r.code_hash == code_hash,
            r.storage_hash == storage_hash,
            r.state_root == state_root,
            r.account_rlp == account_rlp,
            r.account_rlp_len == account_rlp_len,
            r.account_proof == account_proof,
            r.account_proof_length == account_proof_length,
            r.node_length == node_length,
            r.leaf_nibbles == leaf_nibbles,
            r.mt_root == mt_root,
            r.mt_leaf == mt_leaf,
            r.mt_pathElements == mt_pathElements,
            r.mt_pathIndices == mt_pathIndices,
    {
        VoteCircuit {
            identifier: CircuitIdentifier { circuit_name: "vote" },
            address,
            secret,
            blinding_factor,
            ceremony_id,
            random_secret,
            vote,
            revote,
            nullifier,
            nonce,
            balance,
            code_hash,
            storage_hash,
            state_root,
            account_rlp,
            account_rlp_len,
            account_proof,
            account_proof_length,
            node_length,
            leaf_nibbles,
            mt_root,
            mt_leaf,
            mt_pathElements,
            mt_pathIndices,
        }
    }
}

} // verus!
