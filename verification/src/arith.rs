//! Positional number systems over bytes and 64-bit limbs.
use vstd::prelude::*;

use vstd::arithmetic::div_mod::lemma_fundamental_div_mod_converse;

verus! {

/// `256^n`.
pub open spec fn pow256(n: nat) -> nat
    decreases n,
{
    if n == 0 {
        1
    } else {
        256 * pow256((n - 1) as nat)
    }
}

/// The number whose little-endian base-256 digits are `s`.
pub open spec fn le_value(s: Seq<u8>) -> nat
    decreases s.len(),
{
    if s.len() == 0 {
        0
    } else {
        s[0] as nat + 256 * le_value(s.drop_first())
    }
}

/// The number whose big-endian base-256 digits are `s`.
pub open spec fn be_value(s: Seq<u8>) -> nat {
    le_value(s.reverse())
}

/// Powers of 256 are positive.
pub proof fn lemma_pow256_pos(n: nat)
    ensures
        pow256(n) >= 1,
    decreases n,
{
    if n > 0 {
        lemma_pow256_pos((n - 1) as nat);
    }
}

/// The number of a concatenation: the second part counts `256^len` times its number.
pub proof fn lemma_le_value_concat(a: Seq<u8>, b: Seq<u8>)
    ensures
        le_value(a + b) == le_value(a) + pow256(a.len()) * le_value(b),
    decreases a.len(),
{
    if a.len() == 0 {
        assert(a + b =~= b);
        assert(le_value(a) == 0);
        assert(pow256(a.len()) == 1);
        assert(pow256(a.len()) * le_value(b) == le_value(b));
    } else {
        lemma_le_value_concat(a.drop_first(), b);
        assert((a + b).drop_first() =~= a.drop_first() + b);
        assert((a + b)[0] == a[0]);
        let x = le_value(a.drop_first());
        let y = le_value(b);
        let p = pow256(a.drop_first().len());
        assert(pow256(a.len()) == 256 * p);
        assert(le_value(a + b) == a[0] as nat + 256 * (x + p * y));
        assert(256 * (x + p * y) == 256 * x + (256 * p) * y) by (nonlinear_arith);
        assert(le_value(a) == a[0] as nat + 256 * x);
    }
}

/// `n` little-endian digits write a number below `256^n`.
pub proof fn lemma_le_value_bound(s: Seq<u8>)
    ensures
        le_value(s) < pow256(s.len()),
    decreases s.len(),
{
    if s.len() > 0 {
        lemma_le_value_bound(s.drop_first());
    }
}


/// `2^64`, the weight of one limb.
#[verifier::inline]
pub open spec fn limb_base() -> nat {
    0x1_0000_0000_0000_0000
}

/// The number whose little-endian base-`2^64` digits are `l`.
pub open spec fn limbs_value(l: Seq<u64>) -> nat
    decreases l.len(),
{
    if l.len() == 0 {
        0
    } else {
        l[0] as nat + limb_base() * limbs_value(l.drop_first())
    }
}

/// Limbs are determined by the number they write.
pub proof fn lemma_limbs_value_injective(l: Seq<u64>, m: Seq<u64>)
    requires
        l.len() == m.len(),
        limbs_value(l) == limbs_value(m),
    ensures
        l == m,
    decreases l.len(),
{
    if l.len() > 0 {
        let (lt, mt) = (l.drop_first(), m.drop_first());
        lemma_fundamental_div_mod_converse(limbs_value(l) as int, limb_base() as int, limbs_value(lt) as int, l[0] as int);
        lemma_fundamental_div_mod_converse(limbs_value(m) as int, limb_base() as int, limbs_value(mt) as int, m[0] as int);
        lemma_limbs_value_injective(lt, mt);
        assert(l =~= m) by {
            assert forall|i: int| 0 <= i < l.len() implies l[i] == m[i] by {
                if i > 0 {
                    assert(l[i] == lt[i - 1] && m[i] == mt[i - 1]);
                }
            }
        }
    }
}

/// The eight little-endian bytes of `x`.
pub open spec fn u64_le_bytes(x: u64) -> Seq<u8> {
    seq![
        (x & 0xff) as u8,
        ((x >> 8u64) & 0xff) as u8,
        ((x >> 16u64) & 0xff) as u8,
        ((x >> 24u64) & 0xff) as u8,
        ((x >> 32u64) & 0xff) as u8,
        ((x >> 40u64) & 0xff) as u8,
        ((x >> 48u64) & 0xff) as u8,
        ((x >> 56u64) & 0xff) as u8,
    ]
}

/// The little-endian bytes of a sequence of little-endian limbs.
pub open spec fn limbs_le_bytes(l: Seq<u64>) -> Seq<u8>
    decreases l.len(),
{
    if l.len() == 0 {
        seq![]
    } else {
        u64_le_bytes(l[0]) + limbs_le_bytes(l.drop_first())
    }
}

/// `256^8 = 2^64`.
pub proof fn lemma_pow256_8()
    ensures
        pow256(8) == limb_base(),
{
    reveal_with_fuel(pow256, 9);
}

/// The number of eight little-endian digits, written out.
pub proof fn lemma_le_value_8(s: Seq<u8>)
    requires
        s.len() == 8,
    ensures
        le_value(s) == s[0] as nat + 0x100 * s[1] + 0x1_0000 * s[2] + 0x100_0000 * s[3]
            + 0x1_0000_0000 * s[4] + 0x100_0000_0000 * s[5] + 0x1_0000_0000_0000 * s[6]
            + 0x100_0000_0000_0000 * s[7],
{
    let s1 = s.drop_first();
    let s2 = s1.drop_first();
    let s3 = s2.drop_first();
    let s4 = s3.drop_first();
    let s5 = s4.drop_first();
    let s6 = s5.drop_first();
    let s7 = s6.drop_first();
    let s8 = s7.drop_first();
    assert(s8.len() == 0);
    assert(le_value(s7) == s[7] as nat + 256 * le_value(s8));
    assert(le_value(s6) == s[6] as nat + 256 * le_value(s7));
    assert(le_value(s5) == s[5] as nat + 256 * le_value(s6));
    assert(le_value(s4) == s[4] as nat + 256 * le_value(s5));
    assert(le_value(s3) == s[3] as nat + 256 * le_value(s4));
    assert(le_value(s2) == s[2] as nat + 256 * le_value(s3));
    assert(le_value(s1) == s[1] as nat + 256 * le_value(s2));
}

/// The eight little-endian bytes of `x` write `x`.
pub proof fn lemma_u64_le_bytes(x: u64)
    ensures
        le_value(u64_le_bytes(x)) == x,
        u64_le_bytes(x).len() == 8,
{
    let b = u64_le_bytes(x);
    lemma_le_value_8(b);
    assert(((x & 0xff) as u8) as u64 == (x & 0xff)) by (bit_vector);
    assert((((x >> 8u64) & 0xff) as u8) as u64 == ((x >> 8u64) & 0xff)) by (bit_vector);
    assert((((x >> 16u64) & 0xff) as u8) as u64 == ((x >> 16u64) & 0xff)) by (bit_vector);
    assert((((x >> 24u64) & 0xff) as u8) as u64 == ((x >> 24u64) & 0xff)) by (bit_vector);
    assert((((x >> 32u64) & 0xff) as u8) as u64 == ((x >> 32u64) & 0xff)) by (bit_vector);
    assert((((x >> 40u64) & 0xff) as u8) as u64 == ((x >> 40u64) & 0xff)) by (bit_vector);
    assert((((x >> 48u64) & 0xff) as u8) as u64 == ((x >> 48u64) & 0xff)) by (bit_vector);
    assert((((x >> 56u64) & 0xff) as u8) as u64 == ((x >> 56u64) & 0xff)) by (bit_vector);
    assert(x == (x & 0xff) + 0x100 * ((x >> 8u64) & 0xff) + 0x1_0000 * ((x >> 16u64) & 0xff)
        + 0x100_0000 * ((x >> 24u64) & 0xff) + 0x1_0000_0000 * ((x >> 32u64) & 0xff)
        + 0x100_0000_0000 * ((x >> 40u64) & 0xff) + 0x1_0000_0000_0000 * ((x >> 48u64) & 0xff)
        + 0x100_0000_0000_0000 * ((x >> 56u64) & 0xff)) by (bit_vector);
}

/// The bytes of limbs write the same number as the limbs, eight bytes per limb.
pub proof fn lemma_limbs_le_bytes(l: Seq<u64>)
    ensures
        le_value(limbs_le_bytes(l)) == limbs_value(l),
        limbs_le_bytes(l).len() == 8 * l.len(),
    decreases l.len(),
{
    if l.len() > 0 {
        lemma_limbs_le_bytes(l.drop_first());
        lemma_u64_le_bytes(l[0]);
        lemma_le_value_concat(u64_le_bytes(l[0]), limbs_le_bytes(l.drop_first()));
        lemma_pow256_8();
    }
}

/// The bytes of limbs with one more limb: the bytes of that limb follow.
pub proof fn lemma_limbs_le_bytes_push(l: Seq<u64>, x: u64)
    ensures
        limbs_le_bytes(l.push(x)) == limbs_le_bytes(l) + u64_le_bytes(x),
    decreases l.len(),
{
    if l.len() == 0 {
        assert(l.push(x).drop_first() =~= l);
        assert(l.push(x)[0] == x);
        assert(limbs_le_bytes(l) =~= Seq::<u8>::empty());
        assert(limbs_le_bytes(l.push(x)) =~= u64_le_bytes(x));
    } else {
        lemma_limbs_le_bytes_push(l.drop_first(), x);
        assert(l.push(x).drop_first() =~= l.drop_first().push(x));
        assert(limbs_le_bytes(l.push(x)) =~= limbs_le_bytes(l) + u64_le_bytes(x));
    }
}

/// `n` zero bytes.
pub open spec fn zeros(n: nat) -> Seq<u8> {
    Seq::new(n, |i: int| 0u8)
}

/// Little-endian digits can be extended with zeros without changing the number.
pub proof fn lemma_le_value_zero_extend(s: Seq<u8>, n: nat)
    ensures
        le_value(s + zeros(n)) == le_value(s),
    decreases n,
{
    let z = zeros(n);
    lemma_le_value_concat(s, z);
    lemma_le_value_zeros(n);
    assert(le_value(z) == 0);
    assert(pow256(s.len()) * le_value(z) == 0);
}

/// Zero digits write zero.
pub proof fn lemma_le_value_zeros(n: nat)
    ensures
        le_value(zeros(n)) == 0,
    decreases n,
{
    if n > 0 {
        lemma_le_value_zeros((n - 1) as nat);
        assert(zeros(n).drop_first() =~= zeros((n - 1) as nat));
    }
}

/// Powers of 256 grow with the exponent.
pub proof fn lemma_pow256_monotone(a: nat, b: nat)
    requires
        a <= b,
    ensures
        pow256(a) <= pow256(b),
    decreases b,
{
    if a < b {
        lemma_pow256_monotone(a, (b - 1) as nat);
        lemma_pow256_pos((b - 1) as nat);
    }
}

/// A number whose most significant little-endian digit is not zero is at least
/// the weight of that digit.
pub proof fn lemma_le_value_top_digit(s: Seq<u8>)
    requires
        s.len() >= 1,
        s.last() != 0,
    ensures
        le_value(s) >= pow256((s.len() - 1) as nat),
{
    let front = s.drop_last();
    assert(front + seq![s.last()] =~= s);
    lemma_le_value_concat(front, seq![s.last()]);
    let one = seq![s.last()];
    assert(one.drop_first() =~= Seq::<u8>::empty());
    assert(le_value(one.drop_first()) == 0);
    assert(one[0] == s.last());
    assert(le_value(one) == s.last() as nat);
    let p = pow256(front.len());
    lemma_pow256_pos(front.len());
    assert(p * (s.last() as nat) >= p) by (nonlinear_arith)
        requires
            s.last() as nat >= 1,
            p >= 1,
    ;
}

/// Eight little-endian bytes read as one 64-bit word.
pub fn u64_from_le(b: &Vec<u8>, off: usize) -> (r: u64)
    requires
        off + 8 <= b.len(),
    ensures
        r == le_value(b@.subrange(off as int, off + 8)),
{
    let x0 = b[off] as u64;
    let x1 = b[off + 1] as u64;
    let x2 = b[off + 2] as u64;
    let x3 = b[off + 3] as u64;
    let x4 = b[off + 4] as u64;
    let x5 = b[off + 5] as u64;
    let x6 = b[off + 6] as u64;
    let x7 = b[off + 7] as u64;
    let t0 = x0 + 0x100 * x1 + 0x1_0000 * x2 + 0x100_0000 * x3 + 0x1_0000_0000 * x4
        + 0x100_0000_0000 * x5 + 0x1_0000_0000_0000 * x6 + 0x100_0000_0000_0000 * x7;
    proof {
        lemma_le_value_8(b@.subrange(off as int, off + 8));
    }
    t0
}

/// Appends the eight little-endian bytes of `x`.
pub fn push_u64_le(out: &mut Vec<u8>, x: u64)
    ensures
        final(out)@ == old(out)@ + u64_le_bytes(x),
{
    out.push((x & 0xff) as u8);
    out.push(((x >> 8u64) & 0xff) as u8);
    out.push(((x >> 16u64) & 0xff) as u8);
    out.push(((x >> 24u64) & 0xff) as u8);
    out.push(((x >> 32u64) & 0xff) as u8);
    out.push(((x >> 40u64) & 0xff) as u8);
    out.push(((x >> 48u64) & 0xff) as u8);
    out.push(((x >> 56u64) & 0xff) as u8);
    assert(final(out)@ =~= old(out)@ + u64_le_bytes(x));
}


/// `2^256`.
#[verifier::inline]
pub open spec fn two_256() -> nat {
    limb_base() * limb_base() * limb_base() * limb_base()
}

/// The number of four limbs, written out, and its bounds.
pub proof fn lemma_limbs4(l: Seq<u64>)
    requires
        l.len() == 4,
    ensures
        limbs_value(l) == l[0] as nat + limb_base() * l[1] as nat + limb_base() * limb_base()
            * l[2] as nat + limb_base() * limb_base() * limb_base() * l[3] as nat,
        limbs_value(l) < two_256(),
        (l[1] == 0 && l[2] == 0 && l[3] == 0) ==> limbs_value(l) == l[0],
        !(l[1] == 0 && l[2] == 0 && l[3] == 0) ==> limbs_value(l) >= limb_base(),
{
    let l1 = l.drop_first();
    let l2 = l1.drop_first();
    let l3 = l2.drop_first();
    let l4 = l3.drop_first();
    assert(l4.len() == 0);
    let a = l[0] as nat;
    let b = l[1] as nat;
    let c = l[2] as nat;
    let d = l[3] as nat;
    let bb = limb_base();
    assert(limbs_value(l3) == d + bb * limbs_value(l4));
    assert(limbs_value(l2) == c + bb * limbs_value(l3));
    assert(limbs_value(l1) == b + bb * limbs_value(l2));
    assert(limbs_value(l) == a + bb * (b + bb * (c + bb * d)));
    assert(a + bb * (b + bb * (c + bb * d)) == a + bb * b + bb * bb * c + bb * bb * bb * d)
        by (nonlinear_arith);
    assert(c + bb * d < bb * bb) by (nonlinear_arith)
        requires
            c < bb,
            d < bb,
    ;
    assert(b + bb * (c + bb * d) < bb * bb * bb) by (nonlinear_arith)
        requires
            b < bb,
            c + bb * d < bb * bb,
    ;
    assert(a + bb * (b + bb * (c + bb * d)) < bb * bb * bb * bb) by (nonlinear_arith)
        requires
            a < bb,
            b + bb * (c + bb * d) < bb * bb * bb,
    ;
    if !(b == 0 && c == 0 && d == 0) {
        assert(b + bb * (c + bb * d) >= 1) by (nonlinear_arith)
            requires
                !(b == 0 && c == 0 && d == 0),
                bb > 0,
        ;
        assert(bb * (b + bb * (c + bb * d)) >= bb) by (nonlinear_arith)
            requires
                b + bb * (c + bb * d) >= 1,
                bb > 0,
        ;
    }
}

/// `256^32 = 2^256`.
pub proof fn lemma_pow256_32()
    ensures
        pow256(32) == two_256(),
{
    reveal_with_fuel(pow256, 33);
}


/// The four little-endian limbs of 32 little-endian bytes, each read from its
/// eight bytes.
pub proof fn lemma_le_value_32(s: Seq<u8>)
    requires
        s.len() == 32,
    ensures
        le_value(s) == le_value(s.subrange(0, 8)) + limb_base() * le_value(s.subrange(8, 16))
            + limb_base() * limb_base() * le_value(s.subrange(16, 24)) + limb_base() * limb_base()
            * limb_base() * le_value(s.subrange(24, 32)),
{
    let a = s.subrange(0, 8);
    let b = s.subrange(8, 16);
    let c = s.subrange(16, 24);
    let d = s.subrange(24, 32);
    let cd = s.subrange(16, 32);
    let bcd = s.subrange(8, 32);
    assert(c + d =~= cd);
    assert(b + cd =~= bcd);
    assert(a + bcd =~= s);
    lemma_le_value_concat(c, d);
    lemma_le_value_concat(b, cd);
    lemma_le_value_concat(a, bcd);
    lemma_pow256_8();
    let bb = limb_base();
    let (va, vb, vc, vd) = (le_value(a), le_value(b), le_value(c), le_value(d));
    assert(va + bb * (vb + bb * (vc + bb * vd)) == va + bb * vb + bb * bb * vc + bb * bb * bb * vd)
        by (nonlinear_arith);
}

/// The 32 bytes of four limbs write the same number as the limbs.
pub proof fn lemma_limbs_le_bytes4(l: Seq<u64>)
    requires
        l.len() == 4,
    ensures
        limbs_le_bytes(l) == u64_le_bytes(l[0]) + u64_le_bytes(l[1]) + u64_le_bytes(l[2])
            + u64_le_bytes(l[3]),
{
    let l1 = l.drop_first();
    let l2 = l1.drop_first();
    let l3 = l2.drop_first();
    let l4 = l3.drop_first();
    assert(limbs_le_bytes(l4) =~= Seq::<u8>::empty());
    assert(limbs_le_bytes(l3) =~= u64_le_bytes(l[3]));
    assert(limbs_le_bytes(l2) =~= u64_le_bytes(l[2]) + u64_le_bytes(l[3]));
    assert(limbs_le_bytes(l1) =~= u64_le_bytes(l[1]) + u64_le_bytes(l[2]) + u64_le_bytes(l[3]));
    assert(limbs_le_bytes(l) =~= u64_le_bytes(l[0]) + u64_le_bytes(l[1]) + u64_le_bytes(l[2])
        + u64_le_bytes(l[3]));
}

/// The 32 little-endian bytes of four little-endian limbs.
pub fn limbs_to_le_bytes(l: &[u64; 4]) -> (r: Vec<u8>)
    ensures
        r@ == limbs_le_bytes(l@),
        r@.len() == 32,
        le_value(r@) == limbs_value(l@),
{
    let mut r: Vec<u8> = Vec::new();
    push_u64_le(&mut r, l[0]);
    push_u64_le(&mut r, l[1]);
    push_u64_le(&mut r, l[2]);
    push_u64_le(&mut r, l[3]);
    proof {
        lemma_limbs_le_bytes4(l@);
        assert(r@ =~= limbs_le_bytes(l@));
        lemma_limbs_le_bytes(l@);
    }
    r
}

/// Four little-endian limbs read from 32 little-endian bytes.
pub fn le_bytes_to_limbs(b: &Vec<u8>) -> (r: [u64; 4])
    requires
        b@.len() == 32,
    ensures
        limbs_value(r@) == le_value(b@),
{
    let r = [u64_from_le(b, 0), u64_from_le(b, 8), u64_from_le(b, 16), u64_from_le(b, 24)];
    proof {
        lemma_le_value_32(b@);
        lemma_limbs4(r@);
    }
    r
}

/// `s` reversed.
pub fn reversed(s: &Vec<u8>) -> (r: Vec<u8>)
    ensures
        r@ == s@.reverse(),
{
    let mut r: Vec<u8> = Vec::new();
    let n = s.len();
    let mut i: usize = 0;
    while i < n
        invariant
            n == s@.len(),
            i <= n,
            r@ =~= s@.reverse().take(i as int),
        decreases n - i,
    {
        r.push(s[n - 1 - i]);
        i = i + 1;
    }
    assert(r@ =~= s@.reverse());
    r
}

/// `s` followed by zero bytes up to length `n`.
pub fn zero_extended(s: &Vec<u8>, n: usize) -> (r: Vec<u8>)
    requires
        s@.len() <= n,
    ensures
        r@ == s@ + zeros((n - s@.len()) as nat),
        r@.len() == n,
        le_value(r@) == le_value(s@),
{
    let mut r = s.clone();
    let ghost orig = s@;
    while r.len() < n
        invariant
            orig.len() <= r@.len() <= n,
            r@ =~= orig + zeros((r@.len() - orig.len()) as nat),
        decreases n - r.len(),
    {
        r.push(0u8);
    }
    proof {
        lemma_le_value_zero_extend(orig, (n - orig.len()) as nat);
    }
    r
}

} // verus!
