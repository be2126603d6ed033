//! Elements of the BN254 scalar field, the Poseidon hash over them, and the
//! conversions between field elements, 256-bit integers and bytes.
use vstd::prelude::*;

use crate::arith::{
    be_value, lemma_le_value_bound, lemma_le_value_top_digit, lemma_limbs4, lemma_pow256_32,
    lemma_pow256_monotone, le_bytes_to_limbs, le_value, limb_base, limbs_le_bytes,
    limbs_to_le_bytes, limbs_value, pow256, reversed, zero_extended,
};
use crate::uint::U256;
use vstd::arithmetic::div_mod::lemma_fundamental_div_mod_converse;

verus! {

/// The order of the BN254 scalar field,
/// 21888242871839275222246405745257275088548364400416034343698204186575808495617.
pub open spec fn modulus() -> nat {
    0x43e1f593f0000001 + limb_base() * 0x2833e84879b97091 + limb_base() * limb_base()
        * 0xb85045b68181585d + limb_base() * limb_base() * limb_base() * 0x30644e72e131a029
}

/// The limbs of the field order, least significant first.
pub fn modulus_limbs() -> (r: [u64; 4])
    ensures
        limbs_value(r@) == modulus(),
{
    let r = [0x43e1f593f0000001u64, 0x2833e84879b97091u64, 0xb85045b68181585du64, 0x30644e72e131a029u64];
    proof {
        lemma_limbs4(r@);
    }
    r
}

/// An element of the BN254 scalar field in canonical form: four 64-bit limbs,
/// least significant first, of a number below the field order.
#[derive(Clone, Copy, Debug, PartialEq, Eq)]
pub struct Fr {
    pub limbs: [u64; 4],
}

impl Fr {
    /// The number that the limbs hold.
    pub open spec fn value(&self) -> nat {
        limbs_value(self.limbs@)
    }

    /// Whether the limbs hold a canonical element (below the field order).
    pub open spec fn wf(&self) -> bool {
        self.value() < modulus()
    }

    /// The element `x`.
    pub fn from_u64(x: u64) -> (r: Fr)
        ensures
            r.wf(),
            r.value() == x,
            r == fr_of(x as nat),
    {
        let r = Fr { limbs: [x, 0u64, 0u64, 0u64] };
        proof {
            lemma_limbs4(r.limbs@);
            lemma_fr_of(r);
        }
        r
    }

    /// The element zero.
    pub fn zero() -> (r: Fr)
        ensures
            r.wf(),
            r.value() == 0,
            r == fr_of(0),
    {
        Fr::from_u64(0)
    }

    /// The text of the canonical representation: `0x` and 64 lowercase hexadecimal
    /// digits, most significant first.
    pub fn to_repr_string(&self) -> (r: String)
        ensures
            r@ == repr_hex(self.limbs@),
    {
        repr_to_string(self.limbs)
    }
}

/// The canonical field element whose limbs hold the number `v` (below `2^256`).
pub open spec fn fr_of(v: nat) -> Fr {
    Fr {
        limbs: [
            (v % limb_base()) as u64,
            ((v / limb_base()) % limb_base()) as u64,
            (((v / limb_base()) / limb_base()) % limb_base()) as u64,
            ((((v / limb_base()) / limb_base()) / limb_base()) % limb_base()) as u64,
        ],
    }
}

/// A field element is determined by the number its limbs hold.
pub proof fn lemma_fr_of(f: Fr)
    ensures
        fr_of(f.value()) == f,
{
    let l = f.limbs@;
    lemma_limbs4(l);
    let bb = limb_base() as int;
    let (a, b, c, d) = (l[0] as int, l[1] as int, l[2] as int, l[3] as int);
    let v = f.value() as int;
    let q1 = b + bb * (c + bb * d);
    let q2 = c + bb * d;
    assert(v == q1 * bb + a) by (nonlinear_arith)
        requires
            v == a + bb * b + bb * bb * c + bb * bb * bb * d,
            q1 == b + bb * (c + bb * d),
    ;
    lemma_fundamental_div_mod_converse(v, bb, q1, a);
    assert(q1 == q2 * bb + b) by (nonlinear_arith)
        requires
            q1 == b + bb * (c + bb * d),
            q2 == c + bb * d,
    ;
    lemma_fundamental_div_mod_converse(q1, bb, q2, b);
    assert(q2 == d * bb + c) by (nonlinear_arith)
        requires
            q2 == c + bb * d,
    ;
    lemma_fundamental_div_mod_converse(q2, bb, d, c);
    lemma_fundamental_div_mod_converse(d, bb, 0, d);
    assert(fr_of(f.value()).limbs =~= f.limbs);
}

/// `16^n`.
pub open spec fn pow16(n: nat) -> nat
    decreases n,
{
    if n == 0 {
        1
    } else {
        16 * pow16((n - 1) as nat)
    }
}

/// The lowercase hexadecimal character of the digit `d`.
pub open spec fn hex_char(d: nat) -> char {
    if d < 10 {
        (d + '0' as nat) as char
    } else {
        (d - 10 + 'a' as nat) as char
    }
}

/// The 16 lowercase hexadecimal digits of `x`, most significant first.
pub open spec fn hex16(x: u64) -> Seq<char> {
    Seq::new(16, |i: int| hex_char((x as nat / pow16((15 - i) as nat)) % 16))
}

/// `0x` followed by the 64 hexadecimal digits of four little-endian limbs.
pub open spec fn repr_hex(l: Seq<u64>) -> Seq<char> {
    seq!['0', 'x'] + hex16(l[3]) + hex16(l[2]) + hex16(l[1]) + hex16(l[0])
}

/// `Display` of `poseidon_rs::FrRepr` (derived by `ff_ce`): `0x`, then each limb from
/// the most significant one, written with `{:016x}`.
#[verifier::external_body]
fn repr_to_string(l: [u64; 4]) -> (r: String)
    ensures
        r@ == repr_hex(l@),
{
    poseidon_rs::FrRepr(l).to_string()
}

/// What `poseidon_rs::Poseidon::hash` returns for a sequence of field elements.
pub uninterp spec fn poseidon_hash(inputs: Seq<Fr>) -> Fr;

/// `poseidon_rs::Poseidon::hash`, which fails only on an empty input or on more than
/// 16 inputs; its result is a field element, which `into_repr` gives in canonical
/// form. Nothing more of the hash is stated: it is named by `poseidon_hash`.
#[verifier::external_body]
fn poseidon_hash_exec(inputs: Vec<Fr>) -> (r: Fr)
    requires
        1 <= inputs.len() <= 16,
        forall|i: int| 0 <= i < inputs.len() ==> (#[trigger] inputs[i]).wf(),
    ensures
        r == poseidon_hash(inputs@),
        r.wf(),
{
    let frs: Vec<poseidon_rs::Fr> = inputs.iter().map(
        |e| <poseidon_rs::Fr as ff_ce::PrimeField>::from_repr(poseidon_rs::FrRepr(e.limbs)).unwrap(),
    ).collect();
    let h = poseidon_rs::Poseidon::new().hash(frs).unwrap();
    Fr { limbs: <poseidon_rs::Fr as ff_ce::PrimeField>::into_repr(&h).0 }
}

/// The Poseidon hash of one to sixteen field elements.
pub fn poseidon(inputs: Vec<Fr>) -> (r: Fr)
    requires
        1 <= inputs.len() <= 16,
        forall|i: int| 0 <= i < inputs.len() ==> (#[trigger] inputs[i]).wf(),
    ensures
        r == poseidon_hash(inputs@),
        r.wf(),
{
    poseidon_hash_exec(inputs)
}

/// `num_bigint::BigUint` remainder: both operands are read from little-endian bytes
/// with `from_bytes_le`, and the remainder is written with `to_bytes_le`, which gives
/// the shortest encoding (`[0]` for zero). `%` panics on a zero divisor.
#[verifier::external_body]
fn biguint_rem_le(value: &Vec<u8>, modulus: &Vec<u8>) -> (r: Vec<u8>)
    requires
        le_value(modulus@) > 0,
    ensures
        le_value(r@) == le_value(value@) % le_value(modulus@),
        r@.len() >= 1,
        r@.len() == 1 || r@.last() != 0,
{
    let v = num_bigint::BigUint::from_bytes_le(value);
    let m = num_bigint::BigUint::from_bytes_le(modulus);
    (v % m).to_bytes_le()
}

proof fn lemma_modulus_bounds()
    ensures
        modulus() < pow256(32),
        pow256(20) < modulus(),
        modulus() > 0,
{
    lemma_pow256_32();
    reveal_with_fuel(pow256, 21);
}

/// The element congruent to `pk`: `pk` reduced modulo the field order.
pub fn u256_to_fp(pk: U256) -> (r: Fr)
    ensures
        r.wf(),
        r.value() == pk.value() % modulus(),
        r == fr_of(pk.value() % modulus()),
{
    let bytes = limbs_to_le_bytes(&pk.limbs);
    let m = modulus_limbs();
    let m_bytes = limbs_to_le_bytes(&m);
    proof {
        lemma_modulus_bounds();
    }
    let reduced = biguint_rem_le(&bytes, &m_bytes);
    proof {
        let n = reduced@.len();
        if n > 32 {
            lemma_le_value_top_digit(reduced@);
            lemma_pow256_monotone(32, (n - 1) as nat);
        }
    }
    let padded = zero_extended(&reduced, 32);
    let limbs = le_bytes_to_limbs(&padded);
    let r = Fr { limbs };
    proof {
        lemma_fr_of(r);
    }
    r
}

/// The 32 big-endian bytes of the canonical representation of `repr`.
pub fn fr_repr_to_bytes(repr: &Fr) -> (r: Vec<u8>)
    ensures
        r@ == limbs_le_bytes(repr.limbs@).reverse(),
        r@.len() == 32,
        be_value(r@) == repr.value(),
{
    let le = limbs_to_le_bytes(&repr.limbs);
    let r = reversed(&le);
    proof {
        assert(r@.reverse() =~= le@);
    }
    r
}

/// The element whose value is the 20-byte big-endian address.
pub fn address_to_fr(address: &Vec<u8>) -> (r: Fr)
    requires
        address@.len() == 20,
    ensures
        r.wf(),
        r.value() == be_value(address@),
        r == fr_of(be_value(address@)),
{
    let le = reversed(address);
    let padded = zero_extended(&le, 32);
    let limbs = le_bytes_to_limbs(&padded);
    proof {
        lemma_le_value_bound(le@);
        lemma_modulus_bounds();
    }
    let r = Fr { limbs };
    proof {
        lemma_fr_of(r);
    }
    r
}

} // verus!
