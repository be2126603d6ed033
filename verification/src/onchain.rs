//! The on-chain demo's data: the Groth16 proof and the public signals that the
//! prover wrote, the addresses of the contracts that a deployment script
//! recorded, revert messages, and the commands that deploy the contracts and
//! move the chain's clock.
use vstd::prelude::*;

use crate::arith::be_value;
use vstd::utf8::{decode_utf8, encode_utf8, encode_utf8_decode_utf8, encode_utf8_valid_utf8, valid_utf8};
use crate::uint::{dec_string, dec_value, display_u64, is_dec_u256, U256};

verus! {

/// A Groth16 proof in the order the verifier contract takes it.
#[derive(Clone, Copy, Debug)]
pub struct ProofData {
    pub pi_a: [U256; 2],
    pub pi_b: [[U256; 2]; 2],
    pub pi_c: [U256; 2],
}

/// The vote circuit's six public signals.
#[derive(Clone, Copy, Debug)]
pub struct PublicData {
    pub data: [U256; 6],
}

/// Whether every text of `v` is a decimal number of at most 256 bits.
pub open spec fn all_dec_u256(v: Seq<String>) -> bool {
    forall|i: int| 0 <= i < v.len() ==> is_dec_u256(#[trigger] v[i]@)
}

/// The numbers written in decimal by `arr`.
pub fn parse_u256_vec(arr: &Vec<String>) -> (r: Vec<U256>)
    requires
        all_dec_u256(arr@),
    ensures
        r@.len() == arr@.len(),
        forall|i: int| 0 <= i < arr@.len() ==> (#[trigger] r@[i]).value() == dec_value(arr@[i]@),
{
    let n = arr.len();
    let mut r: Vec<U256> = Vec::new();
    let mut i: usize = 0;
    while i < n
        invariant
            n == arr@.len(),
            all_dec_u256(arr@),
            i <= n,
            r@.len() == i,
            forall|k: int| 0 <= k < i ==> (#[trigger] r@[k]).value() == dec_value(arr@[k]@),
        decreases n - i,
    {
        assert(is_dec_u256(arr@[i as int]@));
        let v = match U256::from_dec_str(arr[i].as_str()) {
            Some(v) => v,
            None => U256::zero(),
        };
        r.push(v);
        i = i + 1;
    }
    r
}

/// The proof from the prover's three coordinate lists, each written in decimal: the
/// first two numbers of `pi_a` and of `pi_c`, and the first two pairs of `pi_b`, each
/// pair swapped.
pub fn proof_data(pi_a: &Vec<String>, pi_b: &Vec<Vec<String>>, pi_c: &Vec<String>) -> (r: ProofData)
    requires
        pi_a@.len() >= 2,
        pi_c@.len() >= 2,
        pi_b@.len() >= 2,
        pi_b@[0]@.len() >= 2,
        pi_b@[1]@.len() >= 2,
        all_dec_u256(pi_a@),
        all_dec_u256(pi_c@),
        forall|i: int| 0 <= i < pi_b@.len() ==> all_dec_u256(#[trigger] pi_b@[i]@),
    ensures
        r.pi_a[0].value() == dec_value(pi_a@[0]@),
        r.pi_a[1].value() == dec_value(pi_a@[1]@),
        r.pi_b[0][0].value() == dec_value(pi_b@[0]@[1]@),
        r.pi_b[0][1].value() == dec_value(pi_b@[0]@[0]@),
        r.pi_b[1][0].value() == dec_value(pi_b@[1]@[1]@),
        r.pi_b[1][1].value() == dec_value(pi_b@[1]@[0]@),
        r.pi_c[0].value() == dec_value(pi_c@[0]@),
        r.pi_c[1].value() == dec_value(pi_c@[1]@),
{
    let a = parse_u256_vec(pi_a);
    let c = parse_u256_vec(pi_c);
    let mut b: Vec<Vec<U256>> = Vec::new();
    let mut i: usize = 0;
    while i < pi_b.len()
        invariant
            i <= pi_b@.len(),
            forall|j: int| 0 <= j < pi_b@.len() ==> all_dec_u256(#[trigger] pi_b@[j]@),
            b@.len() == i,
            forall|k: int| 0 <= k < i ==> (#[trigger] b@[k])@.len() == pi_b@[k]@.len(),
            forall|k: int, m: int|
                0 <= k < i && 0 <= m < pi_b@[k]@.len() ==> (#[trigger] b@[k]@[m]).value() == dec_value(
                    pi_b@[k]@[m]@,
                ),
        decreases pi_b@.len() - i,
    {
        let row = parse_u256_vec(&pi_b[i]);
        b.push(row);
        i = i + 1;
    }
    let b0 = &b[0];
    let b1 = &b[1];
    ProofData {
        pi_a: [a[0], a[1]],
        pi_b: [[b0[1], b0[0]], [b1[1], b1[0]]],
        pi_c: [c[0], c[1]],
    }
}

/// The public signals from their decimal texts.
pub fn public_data(values: &Vec<String>) -> (r: PublicData)
    requires
        values@.len() == 6,
        all_dec_u256(values@),
    ensures
        forall|i: int| 0 <= i < 6 ==> (#[trigger] r.data[i]).value() == dec_value(values@[i]@),
{
    let v = parse_u256_vec(values);
    PublicData { data: [v[0], v[1], v[2], v[3], v[4], v[5]] }
}

/// A transaction of a deployment script's broadcast record, as far as the address
/// searches read it.
#[derive(Clone, Debug)]
pub struct BroadcastTx {
    /// The called function's signature, where the record gives it as text.
    pub function: Option<String>,
    /// The address of the first additional contract that the transaction created:
    /// `None` where it created none, `Some(None)` where that address is not text.
    pub first_additional_address: Option<Option<String>>,
    /// The created contract's address: `None` where the record has no such entry,
    /// `Some(None)` where the entry is not text.
    pub contract_address: Option<Option<String>>,
}

/// The signature of the function that deploys the voting contract.
pub open spec fn voting_deploy_signature() -> Seq<char> {
    "deployVotingContract(bytes32,uint8,address,uint256,uint256,uint256,uint256,uint256)"@
}

/// Whether `tx` deploys the voting contract.
pub open spec fn deploys_voting(tx: BroadcastTx) -> bool {
    tx.function matches Some(f) && f@ == voting_deploy_signature()
}

/// The voting contract's address: the first additional contract of the last
/// transaction that deploys it and created one; empty where none did.
pub open spec fn voting_address_of(txs: Seq<BroadcastTx>) -> Seq<char>
    decreases txs.len(),
{
    if txs.len() == 0 {
        Seq::empty()
    } else {
        match txs.last().first_additional_address {
            Some(Some(a)) => if deploys_voting(txs.last()) {
                a@
            } else {
                voting_address_of(txs.drop_last())
            },
            _ => voting_address_of(txs.drop_last()),
        }
    }
}

/// The token contract's address: the created contract of the last transaction that
/// records one; empty where none does.
pub open spec fn token_address_of(txs: Seq<BroadcastTx>) -> Seq<char>
    decreases txs.len(),
{
    if txs.len() == 0 {
        Seq::empty()
    } else {
        match txs.last().contract_address {
            Some(Some(a)) => a@,
            _ => token_address_of(txs.drop_last()),
        }
    }
}

/// The voting contract's address in a deployment record.
pub fn get_contract_address(txs: &Vec<BroadcastTx>) -> (r: String)
    requires
        forall|i: int|
            0 <= i < txs@.len() && deploys_voting(#[trigger] txs@[i])
                ==> txs@[i].first_additional_address != Some::<Option<String>>(None),
    ensures
        r@ == voting_address_of(txs@),
{
    let signature = String::from_str(
        "deployVotingContract(bytes32,uint8,address,uint256,uint256,uint256,uint256,uint256)",
    );
    proof {
        reveal_strlit(
            "deployVotingContract(bytes32,uint8,address,uint256,uint256,uint256,uint256,uint256)",
        );
    }
    let mut addr = String::new();
    let mut i: usize = 0;
    while i < txs.len()
        invariant
            i <= txs@.len(),
            signature@ == voting_deploy_signature(),
            addr@ == voting_address_of(txs@.take(i as int)),
        decreases txs@.len() - i,
    {
        let tx = &txs[i];
        assert(txs@.take(i + 1).drop_last() =~= txs@.take(i as int));
        let found = match &tx.function {
            Some(f) => *f == signature,
            None => false,
        };
        if found {
            assert(deploys_voting(txs@[i as int]));
            match &tx.first_additional_address {
                Some(Some(a)) => {
                    addr = a.clone();
                },
                _ => {},
            }
        }
        i = i + 1;
    }
    assert(txs@.take(txs@.len() as int) =~= txs@);
    addr
}

/// The token contract's address in a deployment record.
pub fn get_token_contract_address(txs: &Vec<BroadcastTx>) -> (r: String)
    requires
        forall|i: int|
            0 <= i < txs@.len() ==> (#[trigger] txs@[i]).contract_address != Some::<Option<String>>(
                None,
            ),
    ensures
        r@ == token_address_of(txs@),
{
    let mut addr = String::new();
    let mut i: usize = 0;
    while i < txs.len()
        invariant
            i <= txs@.len(),
            addr@ == token_address_of(txs@.take(i as int)),
        decreases txs@.len() - i,
    {
        assert(txs@.take(i + 1).drop_last() =~= txs@.take(i as int));
        match &txs[i].contract_address {
            Some(Some(a)) => {
                addr = a.clone();
            },
            _ => {},
        }
        i = i + 1;
    }
    assert(txs@.take(txs@.len() as int) =~= txs@);
    addr
}

/// Whether `data` starts with the selector of `Error(string)`, with which a revert
/// carries its message.
pub open spec fn has_error_selector(data: Seq<u8>) -> bool {
    data.len() >= 4 && data.take(4) == seq![0x08u8, 0xc3u8, 0x79u8, 0xa0u8]
}

/// Whether the 32-byte word at `offset` lies within `data` and all but its last
/// four bytes are zero, as the ABI decoder asks of an offset or a length.
pub open spec fn small_word_at(data: Seq<u8>, offset: int) -> bool {
    &&& 0 <= offset
    &&& offset + 32 <= data.len()
    &&& forall|k: int| offset <= k < offset + 28 ==> data[k] == 0
}

/// The number that the last four bytes of the word at `offset` write.
pub open spec fn word_at(data: Seq<u8>, offset: int) -> nat {
    be_value(data.subrange(offset + 28, offset + 32))
}

/// Whether `data` holds an ABI-encoded string: a head word with the offset of the
/// string, a length word there, and that many bytes after it.
pub open spec fn abi_string_decodes(data: Seq<u8>) -> bool {
    let o = word_at(data, 0) as int;
    &&& small_word_at(data, 0)
    &&& small_word_at(data, o)
    &&& o + 32 + word_at(data, o) <= data.len()
}

/// The bytes of the ABI-encoded string in `data`.
pub open spec fn abi_string_bytes(data: Seq<u8>) -> Seq<u8> {
    let o = word_at(data, 0) as int;
    data.subrange(o + 32, o + 32 + word_at(data, o))
}

/// The text that `ethabi::decode(&[ParamType::String], data)` decodes, where it
/// decodes one.
pub uninterp spec fn abi_string(data: Seq<u8>) -> Option<Seq<char>>;

/// Decodes one ABI-encoded string with `ethabi::decode(&[ParamType::String], data)`
/// and takes its first token. Claimed: the result is `abi_string` of the data; the
/// decoder succeeds exactly when the head word and the length word are in the data
/// with all but their last four bytes zero and the string's bytes follow; and the
/// bytes, decoded with `String::from_utf8_lossy`, give the characters they encode
/// where they are valid UTF-8. Not stated: the text of bytes that are not (the
/// decoder puts replacement characters in). The decoder adds offsets read from the
/// data without checks, which can overflow only where `usize` has 32 bits.
#[verifier::external_body]
fn abi_decode_string(data: &[u8]) -> (r: Option<String>)
    requires
        usize::BITS == 64,
    ensures
        match r {
            Some(s) => abi_string(data@) == Some(s@),
            None => abi_string(data@) is None,
        },
        r is Some <==> abi_string_decodes(data@),
        abi_string_decodes(data@) && valid_utf8(abi_string_bytes(data@)) ==> (r is Some && r->0@
            == decode_utf8(abi_string_bytes(data@))),
{
    match ethabi::decode(&[ethabi::ParamType::String], data) {
        Ok(tokens) => match tokens.first() {
            Some(ethabi::Token::String(s)) => Some(s.clone()),
            _ => None,
        },
        Err(_) => None,
    }
}

/// The message of a revert: the ABI-encoded string after the `Error(string)`
/// selector; `None` for other data. The decoder is meant for 64-bit targets.
pub fn decode_revert(data: &Vec<u8>) -> (r: Option<String>)
    requires
        usize::BITS == 64,
    ensures
        match r {
            Some(m) => abi_string(data@.skip(4)) == Some(m@),
            None => !has_error_selector(data@) || abi_string(data@.skip(4)) is None,
        },
        r is Some <==> has_error_selector(data@) && abi_string_decodes(data@.skip(4)),
        has_error_selector(data@) && abi_string_decodes(data@.skip(4)) && valid_utf8(
            abi_string_bytes(data@.skip(4)),
        ) ==> (r is Some && r->0@ == decode_utf8(abi_string_bytes(data@.skip(4)))),
{
    if data.len() < 4 || data[0] != 0x08 || data[1] != 0xc3 || data[2] != 0x79 || data[3] != 0xa0 {
        proof {
            if data@.len() >= 4 {
                assert(data@.take(4)[0] == data@[0] && data@.take(4)[1] == data@[1]);
                assert(data@.take(4)[2] == data@[2] && data@.take(4)[3] == data@[3]);
            }
        }
        return None;
    }
    assert(data@.take(4) =~= seq![0x08u8, 0xc3u8, 0x79u8, 0xa0u8]);
    let tail = vstd::slice::slice_subrange(data.as_slice(), 4, data.len());
    assert(tail@ =~= data@.skip(4));
    abi_decode_string(tail)
}

/// The 32-byte ABI word of a 32-bit number: 28 zero bytes, then the number's four
/// big-endian bytes.
pub open spec fn abi_word(n: u32) -> Seq<u8> {
    Seq::new(28, |i: int| 0u8) + seq![
        (n / 0x100_0000) as u8,
        ((n / 0x1_0000) % 0x100) as u8,
        ((n / 0x100) % 0x100) as u8,
        (n % 0x100) as u8,
    ]
}

/// The ABI encoding of a single string argument: the offset of its data (one word),
/// its length, and its bytes padded with zeros to whole words.
pub open spec fn abi_encode_string(b: Seq<u8>) -> Seq<u8> {
    abi_word(32) + abi_word(b.len() as u32) + b + Seq::new(
        ((32 - b.len() % 32) % 32) as nat,
        |i: int| 0u8,
    )
}

/// The four bytes of an ABI word write its number.
proof fn lemma_abi_word_value(n: u32)
    ensures
        word_at(abi_word(n), 0) == n,
        small_word_at(abi_word(n), 0),
{
    let w = abi_word(n);
    let t = w.subrange(28, 32);
    let (a, b, c, d) = ((n / 0x100_0000) as u8, ((n / 0x1_0000) % 0x100) as u8, ((n / 0x100) % 0x100) as u8, (n % 0x100) as u8);
    assert(t =~= seq![a, b, c, d]);
    assert(t.reverse() =~= seq![d, c, b, a]);
    reveal_with_fuel(crate::arith::le_value, 5);
    assert(seq![d, c, b, a].drop_first() =~= seq![c, b, a]);
    assert(seq![c, b, a].drop_first() =~= seq![b, a]);
    assert(seq![b, a].drop_first() =~= seq![a]);
    assert(seq![a].drop_first() =~= Seq::<u8>::empty());
    let (x3, x2, x1, x0) = (n / 0x100_0000, (n / 0x1_0000) % 0x100, (n / 0x100) % 0x100, n % 0x100);
    assert(n == x0 + 0x100 * (x1 + 0x100 * (x2 + 0x100 * x3)) && x3 < 0x100) by (bit_vector)
        requires
            x3 == n / 0x100_0000,
            x2 == (n / 0x1_0000) % 0x100,
            x1 == (n / 0x100) % 0x100,
            x0 == n % 0x100,
    ;
    assert(a == x3 && b == x2 && c == x1 && d == x0);
}

/// A revert message round-trips: the `Error(string)` selector followed by the ABI
/// encoding of a string's UTF-8 bytes is data from which `decode_revert` gives back
/// that string.
pub proof fn lemma_revert_message_round_trip(text: Seq<char>)
    requires
        encode_utf8(text).len() < 0x1_0000_0000,
    ensures
        ({
            let data = seq![0x08u8, 0xc3u8, 0x79u8, 0xa0u8] + abi_encode_string(encode_utf8(text));
            &&& has_error_selector(data)
            &&& abi_string_decodes(data.skip(4))
            &&& valid_utf8(abi_string_bytes(data.skip(4)))
            &&& decode_utf8(abi_string_bytes(data.skip(4))) == text
        }),
{
    let b = encode_utf8(text);
    encode_utf8_valid_utf8(text);
    encode_utf8_decode_utf8(text);
    let e = abi_encode_string(b);
    let data = seq![0x08u8, 0xc3u8, 0x79u8, 0xa0u8] + e;
    assert(data.take(4) =~= seq![0x08u8, 0xc3u8, 0x79u8, 0xa0u8]);
    assert(data.skip(4) =~= e);
    let w0 = abi_word(32);
    let w1 = abi_word(b.len() as u32);
    lemma_abi_word_value(32);
    lemma_abi_word_value(b.len() as u32);
    assert(e.subrange(0, 32) =~= w0);
    assert(e.subrange(28, 32) =~= w0.subrange(28, 32));
    assert(e.subrange(60, 64) =~= w1.subrange(28, 32));
    assert(word_at(e, 0) == 32);
    assert(word_at(e, 32) == b.len());
    assert forall|k: int| 0 <= k < 28 implies e[k] == 0 by {
        assert(e[k] == w0[k]);
    }
    assert forall|k: int| 32 <= k < 60 implies e[k] == 0 by {
        assert(e[k] == w1[k - 32]);
    }
    assert(e.subrange(64, 64 + b.len() as int) =~= b);
}

/// The command that deploys the demo's contracts with the voting window, the tally
/// time and three of the public signals.
pub open spec fn deploy_command_text(
    voting_time: u64,
    tally_time: u64,
    a: nat,
    b: nat,
    c: nat,
) -> Seq<char> {
    "cd contracts && forge script VotingScript --rpc-url http://127.0.0.1:8545 --broadcast --sig 'run(uint256,uint256,uint256,uint256,uint256)' "@
        + dec_string(voting_time as nat) + " "@ + dec_string(tally_time as nat) + " "@ + dec_string(a)
        + " "@ + dec_string(b) + " "@ + dec_string(c) + " && cd .."@
}

/// The command that deploys the demo's contracts: the voting and tally times, then
/// the public signals at positions 2, 5 and 0.
pub fn deploy_command(voting_time: u64, tally_time: u64, public: &PublicData) -> (r: String)
    ensures
        r@ == deploy_command_text(
            voting_time,
            tally_time,
            public.data[2].value(),
            public.data[5].value(),
            public.data[0].value(),
        ),
{
    let mut r = String::from_str(
        "cd contracts && forge script VotingScript --rpc-url http://127.0.0.1:8545 --broadcast --sig 'run(uint256,uint256,uint256,uint256,uint256)' ",
    );
    let vt = display_u64(voting_time);
    let tt = display_u64(tally_time);
    let a = public.data[2].to_string();
    let b = public.data[5].to_string();
    let c = public.data[0].to_string();
    r.append(vt.as_str());
    r.append(" ");
    r.append(tt.as_str());
    r.append(" ");
    r.append(a.as_str());
    r.append(" ");
    r.append(b.as_str());
    r.append(" ");
    r.append(c.as_str());
    r.append(" && cd ..");
    r
}

/// The command that moves the chain's clock forward by `seconds` and mines a block.
pub fn warp_command(seconds: u64) -> (r: String)
    ensures
        r@ == "cd contracts && cast rpc evm_increaseTime "@ + dec_string(seconds as nat)
            + " && cast rpc evm_mine && cd .."@,
{
    let mut r = String::from_str("cd contracts && cast rpc evm_increaseTime ");
    let s = display_u64(seconds);
    r.append(s.as_str());
    r.append(" && cast rpc evm_mine && cd ..");
    r
}

} // verus!
