use barp_tunnel::bignum::left_pad;
use barp_tunnel::rsa_pad::{
    inner_block_from, make_inner_block, make_outer_block, outer_block_from, pad_data_with, rsa_encrypt_block,
    DataTooLong,
};
use barp_tunnel::server_key::{
    confirm_fingerprint, load_public_key_by_fingerprint, KeyError, ServerKey, SERVER_FINGERPRINT,
};
use num_bigint::BigUint;
use sha2::{Digest, Sha256};

fn hex(bytes: &[u8]) -> String {
    bytes.iter().map(|b| format!("{:02x}", b)).collect()
}

#[test]
fn server_key_loads() {
    let key = load_public_key_by_fingerprint(0x48544974114217e5).unwrap();
    assert_eq!(key.n.len(), 256);
    assert_eq!(hex(&key.n[..8]), "d6c10f9972a08d9f");
    assert_eq!(hex(&key.n[248..]), "ec8a708018f1540f");
    assert_eq!(key.e, vec![1, 0, 1]);
}

#[test]
fn other_fingerprints_are_refused() {
    assert_eq!(
        load_public_key_by_fingerprint(1).unwrap_err(),
        KeyError::FingerprintMismatch { got: 1 }
    );
}

#[test]
fn computed_fingerprint_must_agree() {
    assert_eq!(confirm_fingerprint(SERVER_FINGERPRINT), Ok(()));
    assert_eq!(confirm_fingerprint(5), Err(KeyError::ComputedMismatch { computed: 5 }));
}

#[test]
fn given_padding_is_appended() {
    let padding: Vec<u8> = (0..112).collect();
    let padded = pad_data_with(&[8; 80], &padding).unwrap();
    assert_eq!(&padded[..80], &[8; 80]);
    assert_eq!(&padded[80..], padding.as_slice());
    assert_eq!(pad_data_with(&[1; 144], &[2; 48]).unwrap().len(), 192);
    assert_eq!(pad_data_with(&[1; 145], &[]), Err(DataTooLong));
}

#[test]
fn inner_block_is_backwards_with_digest() {
    let padded: Vec<u8> = (0..192).map(|i| i as u8).collect();
    let block = make_inner_block(&[9; 32], &padded);
    assert_eq!(block.len(), 224);
    let backwards: Vec<u8> = block[..192].iter().rev().copied().collect();
    assert_eq!(backwards, padded);
    assert_eq!(hex(&block[192..]), "d3fa4e60585ebd6c09e844f64f672487d41b33c40c727fba8530b02438ed498c");
    assert_eq!(inner_block_from(&[1, 2, 3], &[7; 32])[..4], [3, 2, 1, 7]);
}

#[test]
fn outer_block_hides_the_key() {
    let block = make_outer_block(&[9; 32], &[3; 224]);
    assert_eq!(block.len(), 256);
    assert_eq!(hex(&block[..32]), "a0f6892caf2329a75411bfa696a3edd0772cc2929cd48e67c1eb78b2333349e8");
    assert_eq!(&block[32..], &[3; 224]);
    assert_eq!(outer_block_from(&[0xf0; 32], &[0xff; 32], &[5])[31..], [0x0f, 5]);
}

#[test]
fn rsa_cover_comes_off() {
    let one = BigUint::from(1u32);
    let primes: Vec<BigUint> = [7u32, 61, 89, 607, 1279].iter().map(|k| BigUint::from(2u32).pow(*k) - 1u32).collect();
    let n: BigUint = primes.iter().product();
    let phi: BigUint = primes.iter().map(|p| p - &one).product();
    let e = BigUint::from(65537u32);
    let d = e.modinv(&phi).unwrap();
    let key = ServerKey { n: n.to_bytes_be(), e: e.to_bytes_be() };
    let (block, c) = (0..=255u8)
        .find_map(|i| {
            let block = make_outer_block(&[i; 32], &[3; 224]);
            rsa_encrypt_block(&block, &key).map(|c| (block, c))
        })
        .unwrap();
    assert_eq!(c.len(), 256);
    let back = BigUint::from_bytes_be(&c).modpow(&d, &n).to_bytes_be();
    assert_eq!(left_pad(&back, 256), block);
    let digest = Sha256::digest(&block[32..]);
    let temp_key: Vec<u8> = block[..32].iter().zip(digest.iter()).map(|(a, b)| a ^ b).collect();
    assert_eq!(make_outer_block(&temp_key.try_into().unwrap(), &[3; 224]), block);
}

#[test]
fn small_rsa() {
    let key = ServerKey { n: vec![13], e: vec![3] };
    let c = rsa_encrypt_block(&[2], &key).unwrap();
    assert_eq!(c.len(), 256);
    assert_eq!(&c[..255], &[0; 255]);
    assert_eq!(c[255], 8);
    assert_eq!(rsa_encrypt_block(&[13], &key), None);
    assert_eq!(rsa_encrypt_block(&[12], &key).unwrap()[255], 12);
}

#[test]
fn rsa_under_the_server_key() {
    let key = load_public_key_by_fingerprint(SERVER_FINGERPRINT).unwrap();
    let mut block = vec![5u8; 256];
    block[0] = 0;
    let c = rsa_encrypt_block(&block, &key).unwrap();
    assert_eq!(c.len(), 256);
    assert_eq!(hex(&c[..16]), "d16df918c5ba67679703dace0f6dd7c8");
    assert_eq!(hex(&c[240..]), "a735c3d08b6b301ec6ec4908bd1dd933");
    assert_eq!(rsa_encrypt_block(&[0xff; 256], &key), None);
}
