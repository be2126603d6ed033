//! Unsigned 256-bit integers, and their decimal and hexadecimal text forms.
use vstd::prelude::*;

use crate::arith::{lemma_limbs4, limb_base, limbs_value, two_256};

verus! {

/// Whether `c` is one of `0`..`9`.
pub open spec fn is_dec_digit(c: char) -> bool {
    '0' <= c && c <= '9'
}

/// The value of the decimal digit `c`.
pub open spec fn dec_digit_value(c: char) -> nat {
    (c as nat - '0' as nat) as nat
}

/// Whether every character of `s` is a decimal digit.
pub open spec fn all_dec_digits(s: Seq<char>) -> bool {
    forall|i: int| 0 <= i < s.len() ==> is_dec_digit(#[trigger] s[i])
}

/// The number written by the decimal digits `s` (most significant first); `0` for
/// the empty text.
pub open spec fn dec_value(s: Seq<char>) -> nat
    decreases s.len(),
{
    if s.len() == 0 {
        0
    } else {
        dec_value(s.drop_last()) * 10 + dec_digit_value(s.last())
    }
}

/// Whether `c` is one of `0`..`9`, `a`..`f`, `A`..`F`.
pub open spec fn is_hex_digit(c: char) -> bool {
    ('0' <= c && c <= '9') || ('a' <= c && c <= 'f') || ('A' <= c && c <= 'F')
}

/// The value of the hexadecimal digit `c`.
pub open spec fn hex_digit_value(c: char) -> nat {
    if '0' <= c && c <= '9' {
        (c as nat - '0' as nat) as nat
    } else if 'a' <= c && c <= 'f' {
        (c as nat - 'a' as nat + 10) as nat
    } else {
        (c as nat - 'A' as nat + 10) as nat
    }
}

/// Whether every character of `s` is a hexadecimal digit.
pub open spec fn all_hex_digits(s: Seq<char>) -> bool {
    forall|i: int| 0 <= i < s.len() ==> is_hex_digit(#[trigger] s[i])
}

/// The number written by the hexadecimal digits `s` (most significant first).
pub open spec fn hex_value(s: Seq<char>) -> nat
    decreases s.len(),
{
    if s.len() == 0 {
        0
    } else {
        hex_value(s.drop_last()) * 16 + hex_digit_value(s.last())
    }
}

/// `s` without a leading `0x`, if it has one.
pub open spec fn strip_0x(s: Seq<char>) -> Seq<char> {
    if s.len() >= 2 && s[0] == '0' && s[1] == 'x' {
        s.skip(2)
    } else {
        s
    }
}

/// Whether the hexadecimal text `s` (with or without `0x`) denotes a 256-bit number.
pub open spec fn is_hex_u256(s: Seq<char>) -> bool {
    strip_0x(s).len() <= 64 && all_hex_digits(strip_0x(s))
}

/// Whether the decimal text `s` denotes a 256-bit number.
pub open spec fn is_dec_u256(s: Seq<char>) -> bool {
    all_dec_digits(s) && dec_value(s) < two_256()
}

/// The character of the decimal digit `d`.
pub open spec fn dec_char(d: nat) -> char {
    (d + '0' as nat) as char
}

/// The shortest decimal text of `n` (`"0"` for zero).
pub open spec fn dec_string(n: nat) -> Seq<char>
    decreases n,
{
    if n < 10 {
        seq![dec_char(n)]
    } else {
        dec_string(n / 10).push(dec_char(n % 10))
    }
}

/// An unsigned 256-bit integer: four 64-bit limbs, least significant first.
#[derive(Clone, Copy, Debug, PartialEq, Eq)]
pub struct U256 {
    pub limbs: [u64; 4],
}

/// `primitive_types::U256::from_dec_str`: it reads the text byte by byte, fails on a
/// byte that is not an ASCII digit or on overflow past `2^256 - 1`, and otherwise
/// returns the number that the digits write (zero for the empty text).
#[verifier::external_body]
fn primitive_from_dec_str(s: &str) -> (r: Option<[u64; 4]>)
    ensures
        r is Some <==> is_dec_u256(s@),
        r matches Some(l) ==> limbs_value(l@) == dec_value(s@),
{
    primitive_types::U256::from_dec_str(s).ok().map(|v| v.0)
}

/// `primitive_types::U256::from_str_radix(s, 16)`: it drops a leading `0x`, accepts at
/// most 64 digits of `0-9a-fA-F` (the empty text is zero), and returns their value.
#[verifier::external_body]
fn primitive_from_hex_str(s: &str) -> (r: Option<[u64; 4]>)
    ensures
        r is Some <==> is_hex_u256(s@),
        r matches Some(l) ==> limbs_value(l@) == hex_value(strip_0x(s@)),
{
    primitive_types::U256::from_str_radix(s, 16).ok().map(|v| v.0)
}

/// `Display` of `primitive_types::U256`: the shortest decimal text of the number.
#[verifier::external_body]
fn primitive_to_dec_string(l: [u64; 4]) -> (r: String)
    ensures
        r@ == dec_string(limbs_value(l@)),
{
    primitive_types::U256(l).to_string()
}

/// `serde_json::to_string` of a `u64`: its shortest decimal text (serialising an
/// integer cannot fail).
#[verifier::external_body]
pub(crate) fn json_u64(x: u64) -> (r: String)
    ensures
        r@ == dec_string(x as nat),
{
    serde_json::to_string(&x).unwrap()
}

/// `Display` of `u64`: its shortest decimal text.
#[verifier::external_body]
pub(crate) fn display_u64(x: u64) -> (r: String)
    ensures
        r@ == dec_string(x as nat),
{
    x.to_string()
}

/// `a + b + carry` as a limb and the carry out.
fn add_with_carry(a: u64, b: u64, carry: u64) -> (r: (u64, u64))
    requires
        carry <= 1,
    ensures
        r.0 + limb_base() * r.1 == a + b + carry,
        r.1 <= 1,
{
    let s: u128 = a as u128 + b as u128 + carry as u128;
    let lo = (s % 0x1_0000_0000_0000_0000u128) as u64;
    let hi = (s / 0x1_0000_0000_0000_0000u128) as u64;
    (lo, hi)
}

/// Adding four-limb numbers limb by limb, each carry going into the next limb, gives
/// their sum less `2^256` times the last carry.
proof fn lemma_carry_chain(a: Seq<u64>, b: Seq<u64>, s: Seq<u64>, c0: int, c1: int, c2: int, c3: int)
    requires
        a.len() == 4,
        b.len() == 4,
        s.len() == 4,
        s[0] + limb_base() * c0 == a[0] + b[0],
        s[1] + limb_base() * c1 == a[1] + b[1] + c0,
        s[2] + limb_base() * c2 == a[2] + b[2] + c1,
        s[3] + limb_base() * c3 == a[3] + b[3] + c2,
    ensures
        limbs_value(a) + limbs_value(b) == limbs_value(s) + two_256() * c3,
{
    lemma_limbs4(a);
    lemma_limbs4(b);
    lemma_limbs4(s);
    let (a0, a1, a2, a3) = (a[0] as int, a[1] as int, a[2] as int, a[3] as int);
    let (b0, b1, b2, b3) = (b[0] as int, b[1] as int, b[2] as int, b[3] as int);
    let (s0, s1, s2, s3) = (s[0] as int, s[1] as int, s[2] as int, s[3] as int);
    let (va, vb, vs) = (limbs_value(a), limbs_value(b), limbs_value(s));
    assert(va + vb == vs + two_256() * c3) by (nonlinear_arith)
        requires
            va == a0 + limb_base() * a1 + limb_base() * limb_base() * a2 + limb_base() * limb_base()
                * limb_base() * a3,
            vb == b0 + limb_base() * b1 + limb_base() * limb_base() * b2 + limb_base() * limb_base()
                * limb_base() * b3,
            vs == s0 + limb_base() * s1 + limb_base() * limb_base() * s2 + limb_base() * limb_base()
                * limb_base() * s3,
            s0 + limb_base() * c0 == a0 + b0,
            s1 + limb_base() * c1 == a1 + b1 + c0,
            s2 + limb_base() * c2 == a2 + b2 + c1,
            s3 + limb_base() * c3 == a3 + b3 + c2,
    ;
}

impl U256 {
    /// The number.
    pub open spec fn value(&self) -> nat {
        limbs_value(self.limbs@)
    }

    pub fn zero() -> (r: U256)
        ensures
            r.value() == 0,
    {
        let r = U256 { limbs: [0u64, 0u64, 0u64, 0u64] };
        proof {
            lemma_limbs4(r.limbs@);
        }
        r
    }

    pub fn from_u64(x: u64) -> (r: U256)
        ensures
            r.value() == x,
    {
        let r = U256 { limbs: [x, 0u64, 0u64, 0u64] };
        proof {
            lemma_limbs4(r.limbs@);
        }
        r
    }

    /// Parses decimal digits; `None` on any other character or on overflow.
    pub fn from_dec_str(s: &str) -> (r: Option<U256>)
        ensures
            r is Some <==> is_dec_u256(s@),
            r matches Some(v) ==> v.value() == dec_value(s@),
    {
        match primitive_from_dec_str(s) {
            Some(l) => Some(U256 { limbs: l }),
            None => None,
        }
    }

    /// Parses hexadecimal digits, with or without a leading `0x`; `None` on any other
    /// character or on more than 64 digits.
    pub fn from_hex_str(s: &str) -> (r: Option<U256>)
        ensures
            r is Some <==> is_hex_u256(s@),
            r matches Some(v) ==> v.value() == hex_value(strip_0x(s@)),
    {
        match primitive_from_hex_str(s) {
            Some(l) => Some(U256 { limbs: l }),
            None => None,
        }
    }

    /// The shortest decimal text of the number.
    pub fn to_string(&self) -> (r: String)
        ensures
            r@ == dec_string(self.value()),
    {
        primitive_to_dec_string(self.limbs)
    }

    /// The sum, or `None` where it does not fit in 256 bits.
    pub fn checked_add(&self, other: &U256) -> (r: Option<U256>)
        ensures
            match r {
                Some(s) => s.value() == self.value() + other.value(),
                None => self.value() + other.value() >= two_256(),
            },
    {
        let (s0, c0) = add_with_carry(self.limbs[0], other.limbs[0], 0);
        let (s1, c1) = add_with_carry(self.limbs[1], other.limbs[1], c0);
        let (s2, c2) = add_with_carry(self.limbs[2], other.limbs[2], c1);
        let (s3, c3) = add_with_carry(self.limbs[3], other.limbs[3], c2);
        let sum = U256 { limbs: [s0, s1, s2, s3] };
        proof {
            lemma_carry_chain(self.limbs@, other.limbs@, sum.limbs@, c0 as int, c1 as int, c2 as int, c3 as int);
        }
        if c3 == 0 {
            Some(sum)
        } else {
            None
        }
    }

    /// Whether the number is less than `t`.
    pub fn lt_u64(&self, t: u64) -> (r: bool)
        ensures
            r == (self.value() < t),
    {
        proof {
            lemma_limbs4(self.limbs@);
        }
        self.limbs[1] == 0 && self.limbs[2] == 0 && self.limbs[3] == 0 && self.limbs[0] < t
    }
}

} // verus!
