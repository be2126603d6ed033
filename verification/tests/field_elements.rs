use burn_to_vote::field::{address_to_fr, fr_repr_to_bytes, poseidon, u256_to_fp, Fr};
use burn_to_vote::uint::U256;

const MODULUS: &str = "21888242871839275222246405745257275088548364400416034343698204186575808495617";

#[test]
fn small_numbers_are_their_own_elements() {
    assert_eq!(u256_to_fp(U256::from_u64(5)), Fr::from_u64(5));
    assert_eq!(Fr::from_u64(5).limbs, [5, 0, 0, 0]);
    assert_eq!(Fr::zero(), Fr::from_u64(0));
}

#[test]
fn reduction_modulo_the_field_order() {
    let m = U256::from_dec_str(MODULUS).unwrap();
    assert_eq!(u256_to_fp(m), Fr::zero());
    let m_plus_5 = U256::from_dec_str(
        "21888242871839275222246405745257275088548364400416034343698204186575808495622",
    )
    .unwrap();
    assert_eq!(u256_to_fp(m_plus_5), Fr::from_u64(5));
    let max = U256 { limbs: [u64::MAX; 4] };
    let r = u256_to_fp(max);
    // 2^256 - 1 mod p
    let expected = U256::from_dec_str(
        "6350874878119819312338956282401532410528162663560392320966563075034087161850",
    )
    .unwrap();
    assert_eq!(r.limbs, expected.limbs);
}

#[test]
fn repr_bytes_are_big_endian() {
    let b = fr_repr_to_bytes(&Fr::from_u64(0x0102));
    assert_eq!(b.len(), 32);
    assert_eq!(b[30], 1);
    assert_eq!(b[31], 2);
    assert!(b[..30].iter().all(|x| *x == 0));
}

#[test]
fn repr_text() {
    assert_eq!(
        Fr::from_u64(1).to_repr_string(),
        "0x0000000000000000000000000000000000000000000000000000000000000001"
    );
    assert_eq!(
        Fr::from_u64(0xabc).to_repr_string(),
        "0x0000000000000000000000000000000000000000000000000000000000000abc"
    );
}

#[test]
fn addresses_as_elements() {
    let mut a = vec![0u8; 20];
    a[19] = 0x10;
    a[18] = 0x01;
    assert_eq!(address_to_fr(&a), Fr::from_u64(0x0110));
    let ones = vec![0xffu8; 20];
    let f = address_to_fr(&ones);
    assert_eq!(f.limbs, [u64::MAX, u64::MAX, 0xffff_ffff, 0]);
}

#[test]
fn poseidon_of_one_and_two() {
    let h = poseidon(vec![Fr::from_u64(1), Fr::from_u64(2)]);
    assert_eq!(
        h.to_repr_string(),
        "0x115cc0f5e7d690413df64c6b9662e9cf2a3617f2743245519e19607a4417189a"
    );
}
