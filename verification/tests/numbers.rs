use barp_tunnel::bignum::{big_endian_minimal, left_pad};
use barp_tunnel::dh::{auth_key_from, shared_key, validate_g_a, GroupError};
use num_bigint::BigUint;

fn two_to(n: u32) -> BigUint {
    BigUint::from(2u32).pow(n)
}

fn check(g: &BigUint, p: &BigUint) -> Result<(), GroupError> {
    validate_g_a(&g.to_bytes_be(), &p.to_bytes_be())
}

#[test]
fn shortest_forms() {
    assert_eq!(big_endian_minimal(2342281), vec![0x23, 0xbd, 0x89]);
    assert_eq!(big_endian_minimal(1721), vec![0x06, 0xb9]);
    assert_eq!(big_endian_minimal(1361), vec![0x05, 0x51]);
    assert_eq!(big_endian_minimal(255), vec![255]);
    assert_eq!(big_endian_minimal(256), vec![1, 0]);
    assert_eq!(big_endian_minimal(u64::MAX), vec![255; 8]);
    assert_eq!(big_endian_minimal(0), vec![0; 8]);
}

#[test]
fn left_padding() {
    assert_eq!(left_pad(&[1, 2], 4), vec![0, 0, 1, 2]);
    assert_eq!(left_pad(&[1, 2, 3], 2), vec![1, 2, 3]);
    assert_eq!(left_pad(&[], 1), vec![0]);
}

#[test]
fn powers_in_range() {
    let p = two_to(2048) - 1u32;
    assert_eq!(check(&two_to(1983), &p), Ok(()));
    assert_eq!(check(&two_to(2000), &p), Ok(()));
    assert_eq!(check(&(&p - two_to(1983)), &p), Ok(()));
}

#[test]
fn powers_out_of_range() {
    let p = two_to(2048) - 1u32;
    assert_eq!(check(&p, &p), Err(GroupError::OutOfRange));
    assert_eq!(check(&(&p + 1u32), &p), Err(GroupError::OutOfRange));
    assert_eq!(check(&BigUint::from(1u32), &p), Err(GroupError::OutOfRange));
    assert_eq!(validate_g_a(&[0, 0, 1], &p.to_bytes_be()), Err(GroupError::OutOfRange));
    assert_eq!(validate_g_a(&[], &[]), Err(GroupError::OutOfRange));
}

#[test]
fn powers_too_large() {
    assert_eq!(check(&two_to(2048), &two_to(2050)), Err(GroupError::TooLarge));
    assert_eq!(check(&(two_to(2048) - 1u32), &two_to(2050)), Ok(()));
}

#[test]
fn powers_too_small() {
    let p = two_to(2048) - 1u32;
    assert_eq!(check(&(two_to(1983) - 1u32), &p), Err(GroupError::TooSmall));
    assert_eq!(validate_g_a(&[0], &p.to_bytes_be()), Err(GroupError::TooSmall));
    assert_eq!(validate_g_a(&[2], &[3]), Err(GroupError::TooSmall));
}

#[test]
fn powers_too_close_to_the_modulus() {
    let p = two_to(2048) - 1u32;
    assert_eq!(check(&(&p - two_to(1983) + 1u32), &p), Err(GroupError::TooCloseToModulus));
}

#[test]
fn small_shared_key() {
    let key = shared_key(&[3], &[5], &[7]);
    assert_eq!(&key[..255], &[0; 255]);
    assert_eq!(key[255], 5);
}

#[test]
fn both_sides_get_the_same_key() {
    let p = two_to(2048) - 1_942_289u32;
    let g = BigUint::from(3u32);
    let a = BigUint::from_bytes_be(&[0x5a; 256]);
    let b = BigUint::from_bytes_be(&[0xc3; 256]);
    let g_a = g.modpow(&a, &p).to_bytes_be();
    let g_b = g.modpow(&b, &p).to_bytes_be();
    let client = shared_key(&g_a, &b.to_bytes_be(), &p.to_bytes_be());
    let server = shared_key(&g_b, &a.to_bytes_be(), &p.to_bytes_be());
    assert_eq!(client, server);
    assert_eq!(BigUint::from_bytes_be(&client), g.modpow(&(a * b), &p));
}

#[test]
fn long_powers_lose_their_end() {
    let mut power = vec![1u8; 256];
    power.push(9);
    assert_eq!(auth_key_from(&power), [1; 256]);
    let modulus = two_to(2064);
    let key = shared_key(&[vec![1u8], vec![0u8; 257]].concat(), &[1], &modulus.to_bytes_be());
    assert_eq!(key[0], 1);
    assert_eq!(&key[1..], &[0; 255]);
}
