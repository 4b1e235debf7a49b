use barp_tunnel::dh::{
    auth_key_id, compute_new_nonce_hash, compute_salt, compute_session_id, derive_temp_key_iv, key_id_from,
    nonce_hash_from, nonce_hash_input_from, session_id_from, temp_key_iv_from,
};

fn server_nonce() -> [u8; 16] {
    let mut n = [0; 16];
    for i in 0..16 {
        n[i] = i as u8;
    }
    n
}

fn new_nonce() -> [u8; 32] {
    let mut n = [0; 32];
    for i in 0..32 {
        n[i] = 100 + i as u8;
    }
    n
}

fn hex(bytes: &[u8]) -> String {
    bytes.iter().map(|b| format!("{:02x}", b)).collect()
}

#[test]
fn temporary_key_and_vector() {
    let (key, iv) = derive_temp_key_iv(&server_nonce(), &new_nonce());
    assert_eq!(hex(&key), "e95c7c3ec6aeeae100f21acfd4a819230989731d44b134a83a2e9ca0ce56c585");
    assert_eq!(hex(&iv), "da23077ca3f27dec3969124214fdeeacbd8c9de3143ab8ba9423116e64656667");
}

#[test]
fn temporary_key_parts() {
    let (key, iv) = temp_key_iv_from(&[1; 20], &[2; 20], &[3; 20], &new_nonce());
    assert_eq!(&key[..20], &[1; 20]);
    assert_eq!(&key[20..], &[2; 12]);
    assert_eq!(&iv[..8], &[2; 8]);
    assert_eq!(&iv[8..28], &[3; 20]);
    assert_eq!(&iv[28..], &[100, 101, 102, 103]);
}

#[test]
fn session_identifier() {
    assert_eq!(hex(&compute_session_id(&new_nonce(), &server_nonce())), "dea2b8e5a24145f0");
    let mut digest = [0; 32];
    digest[7] = 5;
    assert_eq!(session_id_from(&digest), [0, 0, 0, 0, 0, 0, 0, 5]);
}

#[test]
fn key_identifier() {
    assert_eq!(auth_key_id(&[7; 256]), 6587356363582867870);
    let mut digest = [0xff; 20];
    digest[12..20].copy_from_slice(&(-2i64).to_le_bytes());
    assert_eq!(key_id_from(&digest), -2);
}

#[test]
fn key_proofs() {
    assert_eq!(hex(&compute_new_nonce_hash(&new_nonce(), &[7; 256], 1)), "2c88f61ecec10b27d82c36fcb74477f5");
    assert_eq!(hex(&compute_new_nonce_hash(&new_nonce(), &[7; 256], 2)), "1345b8bda4bf2e2d062285c02fe56ce3");
}

#[test]
fn key_proof_parts() {
    let input = nonce_hash_input_from(&[4; 32], &[6; 20], 9);
    assert_eq!(&input[..32], &[4; 32]);
    assert_eq!(input[32], 9);
    assert_eq!(&input[33..], &[6; 8]);
    let mut digest = [0; 20];
    digest[4] = 1;
    assert_eq!(nonce_hash_from(&digest)[0], 1);
}

#[test]
fn salt() {
    assert_eq!(compute_salt(&new_nonce(), &server_nonce()), 7812738666377536612);
    assert_eq!(compute_salt(&[0xff; 32], &[0; 16]), -1);
    assert_eq!(compute_salt(&[0xff; 32], &[0xff; 16]), 0);
}
