use barp_tunnel::dh::{
    compute_new_nonce_hash, compute_salt, compute_session_id, derive_temp_key_iv, shared_key, GroupError,
};
use barp_tunnel::handshake::{
    check_dh_inner, client_power, client_secrets, filled_block, req_dh_params, req_pq_multi, set_client_dh_params, start,
    start_with,
    DhParamsAsked, DhParamsGiven, HandshakeError, KeyAgreed, KeyNamed, PowerChosen, ReqPqSent, RsaStep, SecretsPadded,
};
use barp_tunnel::msg_id::{MsgIdError, MsgIds};
use barp_tunnel::packet::{
    encrypted_packet, message_bytes, parse_plaintext, plaintext_packet, EnvelopeError, MessageError, PlaintextError,
};
use barp_tunnel::rsa_pad::make_inner_block;
use barp_tunnel::server_key::{KeyError, ServerKey, SERVER_FINGERPRINT};
use barp_tunnel::tl::{DhGen, TlError};
use grammers_tl_types::{enums, functions, types, Cursor, Deserializable, Identifiable, Serializable};
use num_bigint::BigUint;
use sha1::{Digest, Sha1};

const NONCE: [u8; 16] = [1; 16];
const SERVER_NONCE: [u8; 16] = [2; 16];
const NEW_NONCE: [u8; 32] = [3; 32];

fn reply(data: Vec<u8>) -> Vec<u8> {
    plaintext_packet(&data, 77)
}

fn res_pq(nonce: [u8; 16], fingerprints: Vec<i64>) -> Vec<u8> {
    reply(
        enums::ResPq::Pq(types::ResPq {
            nonce,
            server_nonce: SERVER_NONCE,
            pq: vec![0x23, 0xbd, 0x89],
            server_public_key_fingerprints: fingerprints,
        })
        .to_bytes(),
    )
}

fn dh_params(nonce: [u8; 16], server_nonce: [u8; 16], answer: Vec<u8>) -> Vec<u8> {
    reply(
        enums::ServerDhParams::Ok(types::ServerDhParamsOk { nonce, server_nonce, encrypted_answer: answer }).to_bytes(),
    )
}

fn modulus() -> BigUint {
    BigUint::from(2u32).pow(2048) - 1_942_289u32
}

fn server_exponent() -> BigUint {
    BigUint::from_bytes_be(&[0x5a; 256])
}

fn server_power() -> Vec<u8> {
    BigUint::from(3u32).modpow(&server_exponent(), &modulus()).to_bytes_be()
}

fn dh_inner(g: i32, dh_prime: Vec<u8>, g_a: Vec<u8>) -> Vec<u8> {
    enums::ServerDhInnerData::Data(types::ServerDhInnerData {
        nonce: NONCE,
        server_nonce: SERVER_NONCE,
        g,
        dh_prime,
        g_a,
        server_time: 5,
    })
    .to_bytes()
}

fn with_digest(form: &[u8], filling: &[u8]) -> Vec<u8> {
    let mut plain = Sha1::digest(form).to_vec();
    plain.extend_from_slice(form);
    plain.extend_from_slice(filling);
    plain
}

fn asked() -> DhParamsAsked {
    DhParamsAsked { nonce: NONCE, server_nonce: SERVER_NONCE, new_nonce: NEW_NONCE }
}

fn given() -> DhParamsGiven {
    DhParamsGiven {
        nonce: NONCE,
        server_nonce: SERVER_NONCE,
        new_nonce: NEW_NONCE,
        tmp_key: [4; 32],
        tmp_iv: [5; 32],
    }
}

fn chosen() -> PowerChosen {
    PowerChosen {
        nonce: NONCE,
        server_nonce: SERVER_NONCE,
        new_nonce: NEW_NONCE,
        p: modulus().to_bytes_be(),
        g_a: server_power(),
        b: vec![0xc3; 256],
    }
}

fn dh_gen_ok(nonce: [u8; 16], server_nonce: [u8; 16], new_nonce_hash1: [u8; 16]) -> Vec<u8> {
    reply(
        enums::SetClientDhParamsAnswer::DhGenOk(types::DhGenOk { nonce, server_nonce, new_nonce_hash1 }).to_bytes(),
    )
}

fn key_named(n: Vec<u8>, e: Vec<u8>) -> KeyNamed {
    KeyNamed {
        nonce: NONCE,
        server_nonce: SERVER_NONCE,
        fingerprint: SERVER_FINGERPRINT,
        key: ServerKey { n, e },
    }
}

#[test]
fn first_message() {
    let mut ids = MsgIds::new();
    let (state, packet) = start_with(NONCE, &mut ids).unwrap();
    assert_eq!(state.nonce, NONCE);
    let (data, id) = parse_plaintext(&packet).unwrap();
    assert_eq!(id, ids.plaintext);
    assert_eq!(data, functions::ReqPqMulti { nonce: NONCE }.to_bytes());
    assert_eq!(data, req_pq_multi(&NONCE));
    assert_eq!(&data[..4], &[0xf1, 0x8e, 0x7e, 0xbe]);
    assert_eq!(&data[4..], &NONCE);
}

#[test]
fn first_nonce_is_random() {
    let mut ids = MsgIds::new();
    let (a, packet) = start(&mut ids).unwrap();
    let (b, _) = start(&mut ids).unwrap();
    assert_ne!(a.nonce, b.nonce);
    assert_eq!(&parse_plaintext(&packet).unwrap().0[4..], &a.nonce);
}

#[test]
fn no_id_no_message() {
    let mut ids = MsgIds { plaintext: i64::MAX, response: 0 };
    assert_eq!(
        start_with(NONCE, &mut ids).unwrap_err(),
        HandshakeError::MsgId(MsgIdError::Exhausted)
    );
    assert_eq!(ids.plaintext, i64::MAX);
}

#[test]
fn first_answer() {
    let state = ReqPqSent { nonce: NONCE };
    let next = state.on_res_pq(&res_pq(NONCE, vec![SERVER_FINGERPRINT as i64, 9])).unwrap();
    assert_eq!(next.nonce, NONCE);
    assert_eq!(next.server_nonce, SERVER_NONCE);
    assert_eq!(next.fingerprint, SERVER_FINGERPRINT);
    assert_eq!(next.key.n.len(), 256);
    assert_eq!(next.key.e, vec![1, 0, 1]);
}

#[test]
fn negative_fingerprint_keeps_its_bits() {
    let state = ReqPqSent { nonce: NONCE };
    assert_eq!(state.check_res_pq(&res_pq(NONCE, vec![-1])), Ok((SERVER_NONCE, u64::MAX)));
}

#[test]
fn first_answer_refusals() {
    let answer = |packet: &[u8]| ReqPqSent { nonce: NONCE }.on_res_pq(packet).unwrap_err();
    assert_eq!(answer(&[0; 4]), HandshakeError::Plaintext(PlaintextError::TooShort));
    assert_eq!(
        answer(&reply(vec![1, 2, 3])),
        HandshakeError::ResPqUnreadable(TlError::UnexpectedEof)
    );
    assert_eq!(
        answer(&reply(vec![1, 0, 0, 0])),
        HandshakeError::ResPqUnreadable(TlError::UnexpectedConstructor { id: 1 })
    );
    assert_eq!(
        answer(&res_pq([9; 16], vec![SERVER_FINGERPRINT as i64])),
        HandshakeError::ResPqNonceMismatch
    );
    assert_eq!(answer(&res_pq(NONCE, vec![])), HandshakeError::NoFingerprint);
    assert_eq!(
        answer(&res_pq(NONCE, vec![7, SERVER_FINGERPRINT as i64])),
        HandshakeError::Key(KeyError::FingerprintMismatch { got: 7 })
    );
}

#[test]
fn first_answer_cut_short() {
    let whole = res_pq(NONCE, vec![5, 6]);
    let (data, _) = parse_plaintext(&whole).unwrap();
    for len in 0..data.len() {
        let state = ReqPqSent { nonce: NONCE };
        assert_eq!(
            state.check_res_pq(&reply(data[..len].to_vec())),
            Err(HandshakeError::ResPqUnreadable(TlError::UnexpectedEof))
        );
    }
}

#[test]
fn secrets() {
    let data = client_secrets(&NONCE, &SERVER_NONCE, &NEW_NONCE);
    assert_eq!(data.len(), 80);
    let mut cursor = Cursor::from_slice(&data);
    let enums::PQInnerData::Data(m) = enums::PQInnerData::deserialize(&mut cursor).unwrap() else {
        panic!("another variant");
    };
    assert_eq!(m.pq, vec![0x23, 0xbd, 0x89]);
    assert_eq!(m.p, vec![0x06, 0xb9]);
    assert_eq!(m.q, vec![0x05, 0x51]);
    assert_eq!(m.nonce, NONCE);
    assert_eq!(m.server_nonce, SERVER_NONCE);
    assert_eq!(m.new_nonce, NEW_NONCE);
    assert_eq!(1721 * 1361, 2342281);
}

#[test]
fn secrets_are_padded() {
    let (state, job) = key_named(vec![13], vec![3]).on_fingerprint(SERVER_FINGERPRINT).unwrap();
    assert_eq!(state.padded.len(), 192);
    assert_eq!(&state.padded[..80], &client_secrets(&NONCE, &SERVER_NONCE, &state.new_nonce));
    assert_eq!(job.key, state.temp_key);
    assert_eq!(job.iv, [0; 32]);
    assert_eq!(job.data.len(), 224);
    let backwards: Vec<u8> = job.data[..192].iter().rev().copied().collect();
    assert_eq!(backwards, state.padded);
    let (other, _) = key_named(vec![13], vec![3]).on_fingerprint(SERVER_FINGERPRINT).unwrap();
    assert_ne!(other.new_nonce, state.new_nonce);
    assert_ne!(other.temp_key, state.temp_key);
    assert_ne!(&other.padded[80..], &state.padded[80..]);
}

#[test]
fn secrets_are_padded_with_what_is_given() {
    let padding: Vec<u8> = (0..112).collect();
    let (state, job) = key_named(vec![13], vec![3])
        .on_fingerprint_with(SERVER_FINGERPRINT, NEW_NONCE, &padding, [7; 32])
        .unwrap();
    assert_eq!(state.nonce, NONCE);
    assert_eq!(state.server_nonce, SERVER_NONCE);
    assert_eq!(state.new_nonce, NEW_NONCE);
    assert_eq!(state.fingerprint, SERVER_FINGERPRINT);
    assert_eq!(state.key.n, vec![13]);
    assert_eq!(&state.padded[..80], &client_secrets(&NONCE, &SERVER_NONCE, &NEW_NONCE));
    assert_eq!(&state.padded[80..], padding.as_slice());
    assert_eq!(state.temp_key, [7; 32]);
    assert_eq!(job.key, [7; 32]);
    assert_eq!(job.data, make_inner_block(&[7; 32], &state.padded));
    assert_eq!(
        key_named(vec![13], vec![3]).on_fingerprint_with(8, NEW_NONCE, &padding, [7; 32]).unwrap_err(),
        HandshakeError::Key(KeyError::ComputedMismatch { computed: 8 })
    );
}

#[test]
fn wrong_computed_fingerprint() {
    assert_eq!(
        key_named(vec![13], vec![3]).on_fingerprint(8).unwrap_err(),
        HandshakeError::Key(KeyError::ComputedMismatch { computed: 8 })
    );
}

fn padded(n: Vec<u8>, e: Vec<u8>) -> SecretsPadded {
    SecretsPadded {
        nonce: NONCE,
        server_nonce: SERVER_NONCE,
        new_nonce: NEW_NONCE,
        fingerprint: SERVER_FINGERPRINT,
        key: ServerKey { n, e },
        padded: vec![6; 192],
        temp_key: [7; 32],
    }
}

#[test]
fn a_block_over_the_modulus_is_tried_again() {
    let mut ids = MsgIds::new();
    match padded(vec![1], vec![1]).on_inner_block(&[9; 224], &mut ids).unwrap() {
        RsaStep::Retry(state, job) => {
            assert_ne!(state.temp_key, [7; 32]);
            assert_eq!(state.padded, vec![6; 192]);
            assert_eq!(job.key, state.temp_key);
            assert_eq!(&job.data[..192], &[6; 192]);
        }
        RsaStep::Send(_, _) => panic!("sent"),
    }
    assert_eq!(ids, MsgIds::new());
}

#[test]
fn second_message() {
    let mut ids = MsgIds::new();
    let n = BigUint::from(2u32).pow(2048).to_bytes_be();
    match padded(n, vec![1]).on_inner_block(&[9; 224], &mut ids).unwrap() {
        RsaStep::Send(state, packet) => {
            assert_eq!(state.new_nonce, NEW_NONCE);
            let (data, _) = parse_plaintext(&packet).unwrap();
            assert_eq!(data.len(), 4 + 32 + 4 + 4 + 8 + 260);
            assert_eq!(&data[52..56], &[254, 0, 1, 0]);
            assert_eq!(&data[56 + 32..56 + 256], &[9; 224]);
            assert_eq!(data, req_dh_params(&NONCE, &SERVER_NONCE, SERVER_FINGERPRINT, &data[56..312]));
        }
        RsaStep::Retry(_, _) => panic!("tried again"),
    }
}

#[test]
fn second_message_is_what_grammers_writes() {
    let secrets = vec![8u8; 256];
    let expected = functions::ReqDhParams {
        nonce: NONCE,
        server_nonce: SERVER_NONCE,
        p: vec![0x06, 0xb9],
        q: vec![0x05, 0x51],
        public_key_fingerprint: -5,
        encrypted_data: secrets.clone(),
    };
    assert_eq!(req_dh_params(&NONCE, &SERVER_NONCE, (-5i64) as u64, &secrets), expected.to_bytes());
    assert_eq!(functions::ReqDhParams::CONSTRUCTOR_ID, 0xd712e4be);
}

#[test]
fn second_answer() {
    let (state, job) = asked().on_dh_params(&dh_params(NONCE, SERVER_NONCE, vec![5; 32])).unwrap();
    let (key, iv) = derive_temp_key_iv(&SERVER_NONCE, &NEW_NONCE);
    assert_eq!(state.tmp_key, key);
    assert_eq!(state.tmp_iv, iv);
    assert_eq!(job.key, key);
    assert_eq!(job.iv, iv);
    assert_eq!(job.data, vec![5; 32]);
}

#[test]
fn second_answer_refusals() {
    let answer = |packet: &[u8]| asked().on_dh_params(packet).unwrap_err();
    assert_eq!(answer(&[]), HandshakeError::Plaintext(PlaintextError::TooShort));
    assert_eq!(
        answer(&reply(vec![])),
        HandshakeError::DhParamsUnreadable(TlError::UnexpectedEof)
    );
    assert_eq!(
        answer(&reply(vec![0x63, 0x24, 0x16, 0x05])),
        HandshakeError::DhParamsUnreadable(TlError::UnexpectedConstructor { id: 0x05162463 })
    );
    assert_eq!(
        answer(&dh_params([9; 16], SERVER_NONCE, vec![])),
        HandshakeError::DhParamsNonceMismatch
    );
    assert_eq!(
        answer(&dh_params(NONCE, [9; 16], vec![])),
        HandshakeError::DhParamsNonceMismatch
    );
    let refusal = enums::ServerDhParams::Fail(types::ServerDhParamsFail {
        nonce: NONCE,
        server_nonce: SERVER_NONCE,
        new_nonce_hash: [0; 16],
    });
    assert_eq!(answer(&reply(refusal.to_bytes())), HandshakeError::DhParamsRefused);
}

#[test]
fn parameters() {
    let form = dh_inner(3, vec![1, 2, 3], vec![4, 5]);
    let m = check_dh_inner(&with_digest(&form, &[7; 11])).unwrap();
    assert_eq!(m.g, 3);
    assert_eq!(m.dh_prime, vec![1, 2, 3]);
    assert_eq!(m.g_a, vec![4, 5]);
    assert_eq!(m.server_time, 5);
    assert_eq!(m.consumed, form.len());
}

#[test]
fn parameter_refusals() {
    let form = dh_inner(3, vec![1], vec![2]);
    assert_eq!(check_dh_inner(&[0; 19]).err(), Some(HandshakeError::DhInnerTooShort));
    assert_eq!(
        check_dh_inner(&[0; 20]).err(),
        Some(HandshakeError::DhInnerUnreadable(TlError::UnexpectedEof))
    );
    assert_eq!(
        check_dh_inner(&[0; 24]).err(),
        Some(HandshakeError::DhInnerUnreadable(TlError::UnexpectedConstructor { id: 0 }))
    );
    let mut plain = with_digest(&form, &[]);
    plain[0] ^= 1;
    assert_eq!(check_dh_inner(&plain).err(), Some(HandshakeError::DhInnerHashMismatch));
}

#[test]
fn powers() {
    let p = modulus();
    let b = vec![0xc3u8; 256];
    let g_b = client_power(3, &server_power(), &b, &p.to_bytes_be()).unwrap();
    assert_eq!(g_b, BigUint::from(3u32).modpow(&BigUint::from_bytes_be(&b), &p).to_bytes_be());
    assert_eq!(client_power(3, &[1], &b, &p.to_bytes_be()), Err(GroupError::OutOfRange));
    assert_eq!(client_power(1, &server_power(), &b, &p.to_bytes_be()), Err(GroupError::OutOfRange));
    assert_eq!(client_power(0, &server_power(), &b, &p.to_bytes_be()), Err(GroupError::TooSmall));
}

#[test]
fn negative_generator_stands_for_its_bits() {
    let p = modulus();
    let b = vec![0xc3u8; 256];
    let g = BigUint::from(u64::MAX - 1);
    assert_eq!(
        client_power(-2, &server_power(), &b, &p.to_bytes_be()),
        Ok(g.modpow(&BigUint::from_bytes_be(&b), &p).to_bytes_be())
    );
}

fn fifteen() -> [u8; 15] {
    [1, 2, 3, 4, 5, 6, 7, 8, 9, 10, 11, 12, 13, 14, 15]
}

#[test]
fn blocks_are_filled() {
    let block = filled_block(&[1; 20], &[2; 1], &fifteen());
    assert_eq!(block.len(), 32);
    assert_eq!(&block[..20], &[1; 20]);
    assert_eq!(block[20], 2);
    assert_eq!(&block[21..], &fifteen()[..11]);
    assert_eq!(filled_block(&[1; 20], &[2; 12], &fifteen()).len(), 32);
    assert_eq!(filled_block(&[1; 20], &[2; 13], &fifteen())[33..], fifteen());
}

#[test]
fn chosen_power() {
    let form = dh_inner(3, modulus().to_bytes_be(), server_power());
    let m = check_dh_inner(&with_digest(&form, &[])).unwrap();
    let (state, job) = given().choose_power(&m, vec![0xc3; 256], &fifteen()).unwrap();
    assert_eq!(state.nonce, NONCE);
    assert_eq!(state.b, vec![0xc3; 256]);
    assert_eq!(state.g_a, server_power());
    let g_b = BigUint::from(3u32).modpow(&BigUint::from_bytes_be(&[0xc3; 256]), &modulus());
    let inner = enums::ClientDhInnerData::Data(types::ClientDhInnerData {
        nonce: NONCE,
        server_nonce: SERVER_NONCE,
        retry_id: 0,
        g_b: g_b.to_bytes_be(),
    })
    .to_bytes();
    let gap = job.data.len() - 20 - inner.len();
    assert_eq!(job.data, with_digest(&inner, &fifteen()[..gap]));
    assert_eq!(job.data.len() % 16, 0);
    assert_eq!(
        given().choose_power(&m, vec![0], &fifteen()).unwrap_err(),
        HandshakeError::Group(GroupError::OutOfRange)
    );
}

#[test]
fn client_power_is_made_ready() {
    let form = dh_inner(3, modulus().to_bytes_be(), server_power());
    let (state, job) = given().on_dh_answer(&with_digest(&form, &[0; 7])).unwrap();
    assert_eq!(state.p, modulus().to_bytes_be());
    assert_eq!(state.g_a, server_power());
    assert_eq!(state.b.len(), 256);
    assert_eq!(job.key, [4; 32]);
    assert_eq!(job.iv, [5; 32]);
    assert_eq!(job.data.len() % 16, 0);
    let g_b = BigUint::from(3u32).modpow(&BigUint::from_bytes_be(&state.b), &modulus());
    let inner = enums::ClientDhInnerData::Data(types::ClientDhInnerData {
        nonce: NONCE,
        server_nonce: SERVER_NONCE,
        retry_id: 0,
        g_b: g_b.to_bytes_be(),
    })
    .to_bytes();
    assert_eq!(&job.data[..20], Sha1::digest(&inner).as_slice());
    assert_eq!(&job.data[20..20 + inner.len()], inner.as_slice());
    assert!(job.data.len() - 20 - inner.len() < 16);
}

#[test]
fn bad_server_power_is_refused() {
    let form = dh_inner(3, modulus().to_bytes_be(), vec![1]);
    assert_eq!(
        given().on_dh_answer(&with_digest(&form, &[])).unwrap_err(),
        HandshakeError::Group(GroupError::OutOfRange)
    );
}

#[test]
fn third_message() {
    let mut ids = MsgIds::new();
    let packet = chosen().on_power_block(&[6; 48], &mut ids).unwrap();
    let (data, id) = parse_plaintext(&packet).unwrap();
    assert_eq!(id, ids.plaintext);
    let expected = functions::SetClientDhParams {
        nonce: NONCE,
        server_nonce: SERVER_NONCE,
        encrypted_data: vec![6; 48],
    };
    assert_eq!(data, expected.to_bytes());
    assert_eq!(data, set_client_dh_params(&NONCE, &SERVER_NONCE, &[6; 48]));
}

#[test]
fn third_answer() {
    let state = chosen();
    let g_b = BigUint::from(3u32).modpow(&BigUint::from_bytes_be(&state.b), &modulus()).to_bytes_be();
    let server_key = shared_key(&g_b, &server_exponent().to_bytes_be(), &modulus().to_bytes_be());
    let proof = compute_new_nonce_hash(&NEW_NONCE, &server_key, 1);
    let agreed = state.on_dh_gen(&dh_gen_ok(NONCE, SERVER_NONCE, proof)).unwrap();
    assert_eq!(agreed.auth_key, server_key);
    assert_eq!(agreed.auth_key_id.to_le_bytes(), Sha1::digest(server_key).as_slice()[12..20]);
    assert_eq!(agreed.salt, compute_salt(&NEW_NONCE, &SERVER_NONCE));
    assert_eq!(agreed.session_id, compute_session_id(&NEW_NONCE, &SERVER_NONCE));
    let session = agreed.into_session();
    assert_eq!(session.auth_key, server_key);
    assert_eq!(session.server_seq_no, 1);
}

#[test]
fn third_answer_refusals() {
    let answer = |packet: &[u8]| chosen().on_dh_gen(packet).unwrap_err();
    assert_eq!(answer(&[0; 2]), HandshakeError::Plaintext(PlaintextError::TooShort));
    assert_eq!(
        answer(&reply(vec![0x34, 0xf7, 0xcb, 0x3b])),
        HandshakeError::DhGenUnreadable(TlError::UnexpectedEof)
    );
    assert_eq!(
        answer(&reply(vec![4, 3, 2, 1])),
        HandshakeError::DhGenUnreadable(TlError::UnexpectedConstructor { id: 0x01020304 })
    );
    assert_eq!(answer(&dh_gen_ok([9; 16], SERVER_NONCE, [0; 16])), HandshakeError::DhGenNonceMismatch);
    assert_eq!(answer(&dh_gen_ok(NONCE, [9; 16], [0; 16])), HandshakeError::DhGenNonceMismatch);
    assert_eq!(answer(&dh_gen_ok(NONCE, SERVER_NONCE, [0; 16])), HandshakeError::KeyProofMismatch);
}

#[test]
fn third_answer_that_is_no_agreement() {
    let retry = enums::SetClientDhParamsAnswer::DhGenRetry(types::DhGenRetry {
        nonce: NONCE,
        server_nonce: SERVER_NONCE,
        new_nonce_hash2: [8; 16],
    });
    match chosen().on_dh_gen(&reply(retry.to_bytes())).unwrap_err() {
        HandshakeError::DhGenRefused(m) => {
            assert_eq!(m.verdict, DhGen::Retry);
            assert_eq!(m.nonce, NONCE);
            assert_eq!(m.server_nonce, SERVER_NONCE);
            assert_eq!(m.new_nonce_hash, [8; 16]);
        }
        other => panic!("{:?}", other),
    }
    let fail = enums::SetClientDhParamsAnswer::DhGenFail(types::DhGenFail {
        nonce: [9; 16],
        server_nonce: SERVER_NONCE,
        new_nonce_hash3: [8; 16],
    });
    match chosen().on_dh_gen(&reply(fail.to_bytes())).unwrap_err() {
        HandshakeError::DhGenRefused(m) => assert_eq!(m.verdict, DhGen::Fail),
        other => panic!("{:?}", other),
    }
}

#[test]
fn whole_exchange() {
    let mut ids = MsgIds::new();
    let (state, _) = start(&mut ids).unwrap();
    let nonce = state.nonce;
    let named = state.on_res_pq(&res_pq(nonce, vec![SERVER_FINGERPRINT as i64])).unwrap();
    let (mut state, mut job) = named.on_fingerprint(SERVER_FINGERPRINT).unwrap();
    let (asked, packet) = loop {
        match state.on_inner_block(&job.data, &mut ids).unwrap() {
            RsaStep::Retry(s, j) => {
                state = s;
                job = j;
            }
            RsaStep::Send(s, packet) => break (s, packet),
        }
    };
    assert_eq!(parse_plaintext(&packet).unwrap().0.len(), 312);
    let new_nonce = asked.new_nonce;
    let answer = with_digest(&dh_inner(3, modulus().to_bytes_be(), server_power()), &[0; 4]);
    let (state, job) = asked.on_dh_params(&dh_params(nonce, SERVER_NONCE, answer)).unwrap();
    let (state, job) = state.on_dh_answer(&job.data).unwrap();
    let packet = state.on_power_block(&job.data, &mut ids).unwrap();
    let (data, _) = parse_plaintext(&packet).unwrap();
    let encrypted = Vec::<u8>::from_bytes(&data[36..]).unwrap();
    let mut cursor = Cursor::from_slice(&encrypted[20..]);
    let enums::ClientDhInnerData::Data(inner) = enums::ClientDhInnerData::deserialize(&mut cursor).unwrap();
    let key = shared_key(&inner.g_b, &server_exponent().to_bytes_be(), &modulus().to_bytes_be());
    let proof = compute_new_nonce_hash(&new_nonce, &key, 1);
    let agreed = state.on_dh_gen(&dh_gen_ok(nonce, SERVER_NONCE, proof)).unwrap();
    assert_eq!(agreed.auth_key, key);
}

fn agreed() -> KeyAgreed {
    KeyAgreed { auth_key: [1; 256], auth_key_id: 42, salt: 3, session_id: [4; 8] }
}

#[test]
fn configuration() {
    let sealed = agreed().receive_vpn_config(&encrypted_packet(42, &[5; 16], &[6; 40])).unwrap();
    assert_eq!(sealed.msg_key, [5; 16]);
    assert_eq!(sealed.data, vec![6; 32]);
    let plain = message_bytes(3, &[4; 8], 1, 1, &[7, 8]);
    assert!(agreed().config_length_fits(&plain));
    assert_eq!(agreed().vpn_config_body(&plain), Ok(vec![7, 8]));
}

#[test]
fn configuration_refusals() {
    assert_eq!(
        agreed().receive_vpn_config(&[0; 23]).unwrap_err(),
        HandshakeError::Envelope(EnvelopeError::TooShort)
    );
    assert_eq!(
        agreed().receive_vpn_config(&encrypted_packet(43, &[5; 16], &[])).unwrap_err(),
        HandshakeError::Envelope(EnvelopeError::KeyIdMismatch)
    );
    assert_eq!(
        agreed().vpn_config_body(&[0; 31]),
        Err(HandshakeError::Message(MessageError::TooShort))
    );
    assert_eq!(
        agreed().vpn_config_body(&[0; 32]),
        Err(HandshakeError::Message(MessageError::SessionMismatch))
    );
    let mut plain = message_bytes(3, &[4; 8], 1, 1, &[7, 8]);
    plain[28] = 3;
    assert!(!agreed().config_length_fits(&plain));
}
