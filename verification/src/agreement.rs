//! What the two sides of the key exchange can count on: the forms of the
//! server's answers, how the client takes them, and the key that both end with.

use vstd::arithmetic::power::pow;
use vstd::arithmetic::power2::{lemma_pow2_pos, pow2};
use vstd::prelude::*;

use crate::bytes::{be_value, i64_of_le, le_bytes, le_i32, le_i64, le_u32, twos_32, twos_64};
use crate::digest::{sha1_of, sha256_of};
use crate::handshake::{
    agreed_key, client_power_of, dh_gen_in, dh_inner_verdict, dh_params_verdict, exchange_fault, req_dh_params_form,
    res_pq_verdict, set_client_dh_params_form, CipherJob, DhParamsAsked, DhParamsGiven, HandshakeError, PowerChosen,
    SecretsPadded,
};
use crate::msg_id::{MsgIdError, MsgIds};
use crate::packet::{plaintext_form, plaintext_of, PlaintextError};
use crate::tl::{
    dh_gen_of, res_pq_of, server_dh_inner_of, server_dh_params_of, tl_bytes, tl_longs_at, word, DhGen,
    DhGenFields, ResPqFields, ServerDhInnerFields, ServerDhParamsFields, TlError,
};

verus! {

/// The bytes of 64-bit numbers, one behind the other.
pub open spec fn longs(v: Seq<i64>) -> Seq<u8> {
    Seq::new(8 * v.len(), |i: int| le_i64(v[i / 8])[i % 8])
}

/// The form of a list of 64-bit numbers.
pub open spec fn tl_longs(v: Seq<i64>) -> Seq<u8> {
    le_u32(0x1cb5c415) + le_bytes(v.len(), 4) + longs(v)
}

/// The form of `resPQ`.
pub open spec fn res_pq_form(m: ResPqFields) -> Seq<u8> {
    le_u32(0x05162463) + m.nonce + m.server_nonce + tl_bytes(m.pq) + tl_longs(m.fingerprints)
}

/// The form of `Server_DH_Params`.
pub open spec fn server_dh_params_form(m: ServerDhParamsFields) -> Seq<u8> {
    match m {
        ServerDhParamsFields::Granted { nonce, server_nonce, encrypted_answer } => {
            le_u32(0xd0e8075c) + nonce + server_nonce + tl_bytes(encrypted_answer)
        },
        ServerDhParamsFields::Refused { nonce, server_nonce, new_nonce_hash } => {
            le_u32(0x79cb045d) + nonce + server_nonce + new_nonce_hash
        },
    }
}

/// The form of `Server_DH_inner_data`.
pub open spec fn server_dh_inner_form(m: ServerDhInnerFields) -> Seq<u8> {
    le_u32(0xb5890dba) + m.nonce + m.server_nonce + le_i32(m.g) + tl_bytes(m.dh_prime) + tl_bytes(m.g_a)
        + le_i32(m.server_time)
}

/// The constructor number of a verdict on the client's power.
pub open spec fn dh_gen_id(verdict: DhGen) -> u32 {
    match verdict {
        DhGen::Done => 0x3bcbf734,
        DhGen::Retry => 0x46dc1fb9,
        DhGen::Fail => 0xa69dae02,
    }
}

/// The form of `Set_client_DH_params_answer`.
pub open spec fn dh_gen_form(m: DhGenFields) -> Seq<u8> {
    le_u32(dh_gen_id(m.verdict)) + m.nonce + m.server_nonce + m.new_nonce_hash
}

proof fn lemma_word(s: Seq<u8>, at: int, v: u32)
    requires
        0 <= at,
        at + 4 <= s.len(),
        s.subrange(at, at + 4) == le_u32(v),
    ensures
        word(s, at) == v,
{
    crate::bytes::lemma_pow256_values();
    crate::bytes::le_value_of_le_bytes(v as nat, 4);
}

proof fn lemma_le_i64_back(v: i64)
    ensures
        le_i64(v).len() == 8,
        i64_of_le(le_i64(v)) == v,
{
    crate::bytes::lemma_le_bytes_len(twos_64(v), 8);
    crate::bytes::lemma_pow256_values();
    crate::bytes::le_value_of_le_bytes(twos_64(v), 8);
}

proof fn lemma_le_i32_back(v: i32)
    ensures
        le_i32(v).len() == 4,
        crate::bytes::i32_of_le(le_i32(v)) == v,
{
    crate::bytes::lemma_le_bytes_len(twos_32(v), 4);
    crate::bytes::lemma_pow256_values();
    crate::bytes::le_value_of_le_bytes(twos_32(v), 4);
}

/// A list of 64-bit numbers is read back whole.
pub proof fn tl_longs_read_back(buf: Seq<u8>, v: Seq<i64>)
    requires
        v.len() < 0x1_0000_0000,
    ensures
        tl_longs_at(buf + tl_longs(v), buf.len() as int) == Ok::<Seq<i64>, TlError>(v),
{
    let s = buf + tl_longs(v);
    let at = buf.len() as int;
    crate::bytes::lemma_le_bytes_len(0x1cb5c415, 4);
    crate::bytes::lemma_le_bytes_len(v.len(), 4);
    assert(s.subrange(at, at + 4) =~= le_u32(0x1cb5c415));
    lemma_word(s, at, 0x1cb5c415);
    assert(s.subrange(at + 4, at + 8) =~= le_u32(v.len() as u32));
    lemma_word(s, at + 4, v.len() as u32);
    let read = tl_longs_at(s, at)->Ok_0;
    assert forall|i: int| 0 <= i < v.len() implies #[trigger] read[i] == v[i] by {
        lemma_le_i64_back(v[i]);
        let part = s.subrange(at + 8 + 8 * i, at + 16 + 8 * i);
        assert forall|j: int| 0 <= j < 8 implies part[j] == #[trigger] le_i64(v[i])[j] by {
            assert((8 * i + j) / 8 == i);
            assert((8 * i + j) % 8 == j);
            assert(part[j] == longs(v)[8 * i + j]);
        }
        assert(part =~= le_i64(v[i]));
    }
    assert(read =~= v);
}

/// The server's first answer is read back whole.
pub proof fn res_pq_reads_back(m: ResPqFields)
    requires
        m.nonce.len() == 16,
        m.server_nonce.len() == 16,
        m.pq.len() < 0x100_0000,
        m.fingerprints.len() < 0x1_0000_0000,
    ensures
        res_pq_of(res_pq_form(m)) == Ok::<ResPqFields, TlError>(m),
{
    let s = res_pq_form(m);
    let head = le_u32(0x05162463) + m.nonce + m.server_nonce;
    crate::bytes::lemma_le_bytes_len(0x05162463, 4);
    assert(s.subrange(0, 4) =~= le_u32(0x05162463));
    lemma_word(s, 0, 0x05162463);
    assert(s.subrange(4, 20) =~= m.nonce);
    assert(s.subrange(20, 36) =~= m.server_nonce);
    crate::tl::tl_bytes_read_back(head, m.pq, tl_longs(m.fingerprints));
    tl_longs_read_back(head + tl_bytes(m.pq), m.fingerprints);
}

/// The server's second answer is read back whole.
pub proof fn server_dh_params_read_back(m: ServerDhParamsFields)
    requires
        match m {
            ServerDhParamsFields::Granted { nonce, server_nonce, encrypted_answer } => {
                nonce.len() == 16 && server_nonce.len() == 16 && encrypted_answer.len() < 0x100_0000
            },
            ServerDhParamsFields::Refused { nonce, server_nonce, new_nonce_hash } => {
                nonce.len() == 16 && server_nonce.len() == 16 && new_nonce_hash.len() == 16
            },
        },
    ensures
        server_dh_params_of(server_dh_params_form(m)) == Ok::<ServerDhParamsFields, TlError>(m),
{
    let s = server_dh_params_form(m);
    crate::bytes::lemma_le_bytes_len(0xd0e8075c, 4);
    crate::bytes::lemma_le_bytes_len(0x79cb045d, 4);
    match m {
        ServerDhParamsFields::Granted { nonce, server_nonce, encrypted_answer } => {
            let head = le_u32(0xd0e8075c) + nonce + server_nonce;
            assert(s.subrange(0, 4) =~= le_u32(0xd0e8075c));
            lemma_word(s, 0, 0xd0e8075c);
            assert(s.subrange(4, 20) =~= nonce);
            assert(s.subrange(20, 36) =~= server_nonce);
            crate::tl::tl_bytes_read_back(head, encrypted_answer, Seq::empty());
            assert(head + tl_bytes(encrypted_answer) + Seq::<u8>::empty() =~= s);
        },
        ServerDhParamsFields::Refused { nonce, server_nonce, new_nonce_hash } => {
            assert(s.subrange(0, 4) =~= le_u32(0x79cb045d));
            lemma_word(s, 0, 0x79cb045d);
            assert(s.subrange(4, 20) =~= nonce);
            assert(s.subrange(20, 36) =~= server_nonce);
            assert(s.subrange(36, 52) =~= new_nonce_hash);
        },
    }
}

proof fn lemma_inner_front(m: ServerDhInnerFields, tail: Seq<u8>)
    requires
        m.nonce.len() == 16,
        m.server_nonce.len() == 16,
    ensures
        ({
            let head = le_u32(0xb5890dba) + m.nonce + m.server_nonce + le_i32(m.g);
            let s = head + tail;
            &&& head.len() == 40
            &&& word(s, 0) == 0xb5890dba
            &&& s.subrange(4, 20) == m.nonce
            &&& s.subrange(20, 36) == m.server_nonce
            &&& crate::bytes::i32_of_le(s.subrange(36, 40)) == m.g
        }),
{
    let s = le_u32(0xb5890dba) + m.nonce + m.server_nonce + le_i32(m.g) + tail;
    crate::bytes::lemma_le_bytes_len(0xb5890dba, 4);
    lemma_le_i32_back(m.g);
    assert(s.subrange(0, 4) =~= le_u32(0xb5890dba));
    lemma_word(s, 0, 0xb5890dba);
    assert(s.subrange(4, 20) =~= m.nonce);
    assert(s.subrange(20, 36) =~= m.server_nonce);
    assert(s.subrange(36, 40) =~= le_i32(m.g));
}

proof fn lemma_two_strings_back(head: Seq<u8>, a: Seq<u8>, b: Seq<u8>, tail: Seq<u8>)
    requires
        head.len() % 4 == 0,
        a.len() < 0x100_0000,
        b.len() < 0x100_0000,
    ensures
        ({
            let s = head + tl_bytes(a) + tl_bytes(b) + tail;
            let mid = (head.len() + tl_bytes(a).len()) as int;
            &&& crate::tl::tl_bytes_at(s, head.len() as int) == Some((a, mid))
            &&& crate::tl::tl_bytes_at(s, mid) == Some((b, mid + tl_bytes(b).len()))
        }),
{
    let s = head + tl_bytes(a) + tl_bytes(b) + tail;
    crate::tl::tl_bytes_read_back(head, a, tl_bytes(b) + tail);
    assert(head + tl_bytes(a) + (tl_bytes(b) + tail) =~= s);
    crate::tl::tl_appended_to_aligned(Seq::empty(), a);
    crate::tl::tl_bytes_read_back(head + tl_bytes(a), b, tail);
}

/// The parameters of the exchange are read back whole, whatever follows them.
#[verifier::rlimit(50)]
pub proof fn server_dh_inner_reads_back(m: ServerDhInnerFields, rest: Seq<u8>)
    requires
        m.nonce.len() == 16,
        m.server_nonce.len() == 16,
        m.dh_prime.len() < 0x100_0000,
        m.g_a.len() < 0x100_0000,
        m.consumed == server_dh_inner_form(m).len(),
    ensures
        server_dh_inner_of(server_dh_inner_form(m) + rest) == Ok::<ServerDhInnerFields, TlError>(m),
{
    let s = server_dh_inner_form(m) + rest;
    let head = le_u32(0xb5890dba) + m.nonce + m.server_nonce + le_i32(m.g);
    let prime = tl_bytes(m.dh_prime);
    let power = tl_bytes(m.g_a);
    let time = le_i32(m.server_time);
    assert(s =~= head + (prime + power + time + rest));
    assert(s =~= head + prime + power + (time + rest));
    lemma_inner_front(m, prime + power + time + rest);
    lemma_two_strings_back(head, m.dh_prime, m.g_a, time + rest);
    lemma_le_i32_back(m.server_time);
    let end = (head.len() + prime.len() + power.len()) as int;
    assert(s.subrange(end, end + 4) =~= time);
}

/// The server's third answer is read back whole.
pub proof fn dh_gen_reads_back(m: DhGenFields)
    requires
        m.nonce.len() == 16,
        m.server_nonce.len() == 16,
        m.new_nonce_hash.len() == 16,
    ensures
        dh_gen_of(dh_gen_form(m)) == Ok::<DhGenFields, TlError>(m),
{
    let s = dh_gen_form(m);
    crate::bytes::lemma_le_bytes_len(dh_gen_id(m.verdict) as nat, 4);
    assert(s.subrange(0, 4) =~= le_u32(dh_gen_id(m.verdict)));
    lemma_word(s, 0, dh_gen_id(m.verdict));
    assert(s.subrange(4, 20) =~= m.nonce);
    assert(s.subrange(20, 36) =~= m.server_nonce);
    assert(s.subrange(36, 52) =~= m.new_nonce_hash);
}

/// A client takes a first answer that repeats its nonce and names a key, and
/// refuses one with any other nonce.
pub proof fn first_answer_is_taken(nonce: Seq<u8>, m: ResPqFields, msg_id: i64)
    requires
        m.nonce.len() == 16,
        m.server_nonce.len() == 16,
        m.pq.len() < 0x100_0000,
        res_pq_form(m).len() < 0x1_0000_0000,
    ensures
        res_pq_verdict(nonce, plaintext_form(res_pq_form(m), msg_id)) == if m.nonce != nonce {
            Err::<(Seq<u8>, i64), HandshakeError>(HandshakeError::ResPqNonceMismatch)
        } else if m.fingerprints.len() == 0 {
            Err(HandshakeError::NoFingerprint)
        } else {
            Ok((m.server_nonce, m.fingerprints[0]))
        },
{
    res_pq_reads_back(m);
    crate::packet::plaintext_reads_back(res_pq_form(m), msg_id);
}

/// A client takes a second answer that grants the parameters and repeats both
/// nonces; it refuses a refusal, and an answer with any other nonce.
pub proof fn second_answer_is_taken(nonce: Seq<u8>, server_nonce: Seq<u8>, m: ServerDhParamsFields, msg_id: i64)
    requires
        match m {
            ServerDhParamsFields::Granted { nonce: n, server_nonce: sn, encrypted_answer } => {
                n.len() == 16 && sn.len() == 16 && encrypted_answer.len() < 0x100_0000
            },
            ServerDhParamsFields::Refused { nonce: n, server_nonce: sn, new_nonce_hash } => {
                n.len() == 16 && sn.len() == 16 && new_nonce_hash.len() == 16
            },
        },
    ensures
        dh_params_verdict(nonce, server_nonce, plaintext_form(server_dh_params_form(m), msg_id)) == match m {
            ServerDhParamsFields::Refused { .. } => Err::<Seq<u8>, HandshakeError>(
                HandshakeError::DhParamsRefused,
            ),
            ServerDhParamsFields::Granted { nonce: n, server_nonce: sn, encrypted_answer } => {
                if n != nonce || sn != server_nonce {
                    Err(HandshakeError::DhParamsNonceMismatch)
                } else {
                    Ok(encrypted_answer)
                }
            },
        },
{
    crate::bytes::lemma_le_bytes_len(0xd0e8075c, 4);
    crate::bytes::lemma_le_bytes_len(0x79cb045d, 4);
    if let ServerDhParamsFields::Granted { encrypted_answer, .. } = m {
        crate::tl::lemma_tl_header_len(encrypted_answer.len());
    }
    server_dh_params_read_back(m);
    crate::packet::plaintext_reads_back(server_dh_params_form(m), msg_id);
}

/// A client takes the parameters out of the decrypted second answer where they
/// have their digest in front, whatever filling follows them, and refuses them
/// behind any other digest.
pub proof fn parameters_are_taken(digest: Seq<u8>, m: ServerDhInnerFields, filling: Seq<u8>)
    requires
        digest.len() == 20,
        m.nonce.len() == 16,
        m.server_nonce.len() == 16,
        m.dh_prime.len() < 0x100_0000,
        m.g_a.len() < 0x100_0000,
        m.consumed == server_dh_inner_form(m).len(),
    ensures
        dh_inner_verdict(digest + server_dh_inner_form(m) + filling) == if digest == sha1_of(
            server_dh_inner_form(m),
        )@ {
            Ok::<ServerDhInnerFields, HandshakeError>(m)
        } else {
            Err(HandshakeError::DhInnerHashMismatch)
        },
{
    let form = server_dh_inner_form(m);
    let plain = digest + form + filling;
    assert(crate::handshake::inner_digest(plain) =~= digest);
    assert(crate::handshake::inner_rest(plain) =~= form + filling);
    server_dh_inner_reads_back(m, filling);
    assert((form + filling).subrange(0, m.consumed) =~= form);
}

/// A client reads every third answer, and so takes or refuses it by its verdict,
/// its nonces and its proof.
pub proof fn third_answer_is_read(m: DhGenFields, msg_id: i64)
    requires
        m.nonce.len() == 16,
        m.server_nonce.len() == 16,
        m.new_nonce_hash.len() == 16,
    ensures
        dh_gen_in(plaintext_form(dh_gen_form(m), msg_id)) == Ok::<DhGenFields, HandshakeError>(m),
{
    crate::bytes::lemma_le_bytes_len(dh_gen_id(m.verdict) as nat, 4);
    dh_gen_reads_back(m);
    crate::packet::plaintext_reads_back(dh_gen_form(m), msg_id);
}

/// The key of a server that got the client's power `g^b mod p` and raised it to
/// its own exponent `a`.
pub open spec fn server_key(state: PowerChosen, g: nat, a: nat) -> Seq<u8> {
    let p = be_value(state.p@);
    crate::dh::shared_key_of((pow(g as int, be_value(state.b@)) % (p as int)) as nat, a, p)
}

/// The exchange agrees: a server that gave `g^a mod p` and raised the client's
/// `g^b mod p` to `a` holds the very key that the client computes.
pub proof fn exchange_agrees(state: PowerChosen, g: nat, a: nat)
    requires
        state.wf(),
        be_value(state.g_a@) == pow(g as int, a) % (be_value(state.p@) as int),
    ensures
        server_key(state, g, a) == agreed_key(state),
{
    crate::dh::both_sides_share_the_key(g, a, be_value(state.b@), be_value(state.p@));
}

/// The exchange completes: the third answer of a server that gave `g^a mod p`,
/// with both nonces and the proof of the key that it computed, holds all that the
/// client asks for.
pub proof fn exchange_completes(state: PowerChosen, g: nat, a: nat, msg_id: i64)
    requires
        state.wf(),
        be_value(state.g_a@) == pow(g as int, a) % (be_value(state.p@) as int),
    ensures
        ({
            let m = DhGenFields {
                verdict: DhGen::Done,
                nonce: state.nonce@,
                server_nonce: state.server_nonce@,
                new_nonce_hash: crate::dh::new_nonce_hash(state.new_nonce@, server_key(state, g, a), 1),
            };
            &&& dh_gen_in(plaintext_form(dh_gen_form(m), msg_id)) == Ok::<DhGenFields, HandshakeError>(m)
            &&& crate::handshake::answers(m, state)
            &&& crate::handshake::proves_key(m, state)
        }),
{
    let m = DhGenFields {
        verdict: DhGen::Done,
        nonce: state.nonce@,
        server_nonce: state.server_nonce@,
        new_nonce_hash: crate::dh::new_nonce_hash(state.new_nonce@, server_key(state, g, a), 1),
    };
    exchange_agrees(state, g, a);
    third_answer_is_read(m, msg_id);
}

/// The second message is laid out as `req_DH_params#d712e4be nonce:int128
/// server_nonce:int128 p:bytes q:bytes public_key_fingerprint:long
/// encrypted_data:bytes`.
pub proof fn second_message_layout(nonce: Seq<u8>, server_nonce: Seq<u8>, fingerprint: u64, secrets: Seq<u8>)
    requires
        nonce.len() == 16,
        server_nonce.len() == 16,
    ensures
        req_dh_params_form(nonce, server_nonce, fingerprint, secrets) == le_u32(0xd712e4be) + nonce
            + server_nonce + tl_bytes(crate::bignum::minimal_u64(crate::handshake::P)) + tl_bytes(
            crate::bignum::minimal_u64(crate::handshake::Q),
        ) + le_bytes(fingerprint as nat, 8) + tl_bytes(secrets),
{
    let p = crate::bignum::minimal_u64(crate::handshake::P);
    let q = crate::bignum::minimal_u64(crate::handshake::Q);
    let head = le_u32(0xd712e4be) + nonce + server_nonce;
    crate::bytes::lemma_le_bytes_len(0xd712e4be, 4);
    crate::bytes::lemma_le_bytes_len(fingerprint as nat, 8);
    crate::tl::tl_appended_to_aligned(head, p);
    crate::tl::tl_appended_to_aligned(head + tl_bytes(p), q);
    crate::tl::tl_appended_to_aligned(
        head + tl_bytes(p) + tl_bytes(q) + le_bytes(fingerprint as nat, 8),
        secrets,
    );
}

/// The third message is laid out as `set_client_DH_params#f5045f1f nonce:int128
/// server_nonce:int128 encrypted_data:bytes`.
pub proof fn third_message_layout(nonce: Seq<u8>, server_nonce: Seq<u8>, encrypted: Seq<u8>)
    requires
        nonce.len() == 16,
        server_nonce.len() == 16,
    ensures
        set_client_dh_params_form(nonce, server_nonce, encrypted) == le_u32(0xf5045f1f) + nonce + server_nonce
            + tl_bytes(encrypted),
{
    crate::bytes::lemma_le_bytes_len(0xf5045f1f, 4);
    crate::tl::tl_appended_to_aligned(le_u32(0xf5045f1f) + nonce + server_nonce, encrypted);
}

/// The exchange goes on exactly when both powers lie at least `2^1983` away from
/// zero and from the modulus and have at most 2048 bits, the server's and the
/// client's own. Where the server's does not, its fault is the one that is named,
/// whatever the generator and the client's exponent are.
pub proof fn exchange_goes_on_with_both_powers_in_range(g: i32, g_a: Seq<u8>, b: Seq<u8>, p: Seq<u8>)
    ensures
        ({
            let generator = if g >= 0 { g as int } else { g + 0x1_0000_0000_0000_0000 };
            let modulus = be_value(p) as int;
            let theirs = be_value(g_a) as int;
            let ours = pow(generator, be_value(b)) % modulus;
            let theirs_in_range = pow2(1983) <= theirs < pow2(2048) && theirs + pow2(1983) <= modulus;
            let ours_in_range = pow2(1983) <= ours < pow2(2048) && ours + pow2(1983) <= modulus;
            &&& exchange_fault(g, g_a, b, p) is None <==> theirs_in_range && ours_in_range
            &&& !theirs_in_range ==> exchange_fault(g, g_a, b, p) is Some && exchange_fault(g, g_a, b, p)
                == crate::dh::power_fault(theirs as nat, modulus as nat)
            &&& theirs_in_range ==> exchange_fault(g, g_a, b, p) == crate::dh::power_fault(
                ours as nat,
                modulus as nat,
            )
        }),
{
    lemma_pow2_pos(1983);
    let g_b = client_power_of(g, b, p);
    crate::dh::accepted_power_range(be_value(g_a), be_value(p));
    crate::dh::accepted_power_range(g_b, be_value(p));
}

/// The client's power is the generator's, below the modulus; a negative generator
/// stands for the number of 64 bits with its bits.
pub proof fn client_power_is_the_generators(g: i32, b: Seq<u8>, p: Seq<u8>)
    requires
        be_value(p) > 0,
    ensures
        client_power_of(g, b, p) < be_value(p),
        g >= 0 ==> client_power_of(g, b, p) == pow(g as int, be_value(b)) % (be_value(p) as int),
        g < 0 ==> client_power_of(g, b, p) == pow(g + 0x1_0000_0000_0000_0000, be_value(b)) % (be_value(p) as int),
        be_value(crate::bignum::be_minimal(client_power_of(g, b, p))) == client_power_of(g, b, p),
{
    crate::bignum::be_minimal_is_minimal(client_power_of(g, b, p));
}

proof fn lemma_longs_before_a_tail(buf: Seq<u8>, v: Seq<i64>, rest: Seq<u8>)
    requires
        v.len() < 0x1_0000_0000,
    ensures
        tl_longs_at(buf + tl_longs(v) + rest, buf.len() as int) == Ok::<Seq<i64>, TlError>(v),
{
    let t = buf + tl_longs(v);
    let s = t + rest;
    let at = buf.len() as int;
    tl_longs_read_back(buf, v);
    crate::bytes::lemma_le_bytes_len(0x1cb5c415, 4);
    crate::bytes::lemma_le_bytes_len(v.len(), 4);
    assert(s.subrange(at, at + 4) =~= t.subrange(at, at + 4));
    assert(s.subrange(at + 4, at + 8) =~= t.subrange(at + 4, at + 8));
    assert(t.subrange(at + 4, at + 8) =~= le_u32(v.len() as u32));
    lemma_word(t, at + 4, v.len() as u32);
    let read = tl_longs_at(s, at)->Ok_0;
    let whole = tl_longs_at(t, at)->Ok_0;
    assert forall|i: int| 0 <= i < v.len() implies #[trigger] read[i] == v[i] by {
        assert(s.subrange(at + 8 + 8 * i, at + 16 + 8 * i) =~= t.subrange(at + 8 + 8 * i, at + 16 + 8 * i));
        assert(whole[i] == v[i]);
    }
    assert(read =~= v);
}

/// A first answer is taken or refused by its contents alone: for its nonce and
/// the keys that it names, whatever follows it in its packet or behind the packet.
#[verifier::rlimit(50)]
pub proof fn first_answer_before_a_tail(nonce: Seq<u8>, m: ResPqFields, msg_id: i64, rest: Seq<u8>, tail: Seq<u8>)
    requires
        m.nonce.len() == 16,
        m.server_nonce.len() == 16,
        m.pq.len() < 0x100_0000,
        res_pq_form(m).len() + rest.len() < 0x1_0000_0000,
    ensures
        ({
            let r = res_pq_verdict(nonce, plaintext_form(res_pq_form(m) + rest, msg_id) + tail);
            &&& m.nonce != nonce ==> r == Err::<(Seq<u8>, i64), HandshakeError>(
                HandshakeError::ResPqNonceMismatch,
            )
            &&& m.nonce == nonce && m.fingerprints.len() == 0 ==> r == Err::<(Seq<u8>, i64), HandshakeError>(
                HandshakeError::NoFingerprint,
            )
            &&& m.nonce == nonce && m.fingerprints.len() > 0 ==> r == Ok::<(Seq<u8>, i64), HandshakeError>(
                (m.server_nonce, m.fingerprints[0]),
            )
        }),
{
    let form = res_pq_form(m);
    let s = form + rest;
    let head = le_u32(0x05162463) + m.nonce + m.server_nonce;
    crate::bytes::lemma_le_bytes_len(0x05162463, 4);
    assert(s.subrange(0, 4) =~= le_u32(0x05162463));
    lemma_word(s, 0, 0x05162463);
    assert(s.subrange(4, 20) =~= m.nonce);
    assert(s.subrange(20, 36) =~= m.server_nonce);
    crate::tl::tl_bytes_read_back(head, m.pq, tl_longs(m.fingerprints) + rest);
    assert(head + tl_bytes(m.pq) + (tl_longs(m.fingerprints) + rest) =~= s);
    lemma_longs_before_a_tail(head + tl_bytes(m.pq), m.fingerprints, rest);
    crate::packet::plaintext_reads_back_before_a_tail(s, msg_id, tail);
}

/// A second answer that grants the parameters is taken or refused by its nonces
/// alone, whatever follows it in its packet or behind the packet.
pub proof fn second_answer_before_a_tail(
    nonce: Seq<u8>,
    server_nonce: Seq<u8>,
    n: Seq<u8>,
    sn: Seq<u8>,
    answer: Seq<u8>,
    msg_id: i64,
    rest: Seq<u8>,
    tail: Seq<u8>,
)
    requires
        n.len() == 16,
        sn.len() == 16,
        answer.len() < 0x100_0000,
        rest.len() < 0x8000_0000,
    ensures
        ({
            let form = server_dh_params_form(
                ServerDhParamsFields::Granted { nonce: n, server_nonce: sn, encrypted_answer: answer },
            );
            let r = dh_params_verdict(nonce, server_nonce, plaintext_form(form + rest, msg_id) + tail);
            &&& n == nonce && sn == server_nonce ==> r == Ok::<Seq<u8>, HandshakeError>(answer)
            &&& n != nonce || sn != server_nonce ==> r == Err::<Seq<u8>, HandshakeError>(
                HandshakeError::DhParamsNonceMismatch,
            )
        }),
{
    let head = le_u32(0xd0e8075c) + n + sn;
    let s = head + tl_bytes(answer) + rest;
    crate::bytes::lemma_le_bytes_len(0xd0e8075c, 4);
    crate::tl::lemma_tl_header_len(answer.len());
    assert(s.subrange(0, 4) =~= le_u32(0xd0e8075c));
    lemma_word(s, 0, 0xd0e8075c);
    assert(s.subrange(4, 20) =~= n);
    assert(s.subrange(20, 36) =~= sn);
    crate::tl::tl_bytes_read_back(head, answer, rest);
    crate::packet::plaintext_reads_back_before_a_tail(s, msg_id, tail);
}

/// A third answer is read whole whatever follows it in its packet or behind the
/// packet.
pub proof fn third_answer_before_a_tail(m: DhGenFields, msg_id: i64, rest: Seq<u8>, tail: Seq<u8>)
    requires
        m.nonce.len() == 16,
        m.server_nonce.len() == 16,
        m.new_nonce_hash.len() == 16,
        rest.len() < 0x8000_0000,
    ensures
        dh_gen_in(plaintext_form(dh_gen_form(m) + rest, msg_id) + tail) == Ok::<DhGenFields, HandshakeError>(m),
{
    let s = dh_gen_form(m) + rest;
    crate::bytes::lemma_le_bytes_len(dh_gen_id(m.verdict) as nat, 4);
    assert(s.subrange(0, 4) =~= le_u32(dh_gen_id(m.verdict)));
    lemma_word(s, 0, dh_gen_id(m.verdict));
    assert(s.subrange(4, 20) =~= m.nonce);
    assert(s.subrange(20, 36) =~= m.server_nonce);
    assert(s.subrange(36, 52) =~= m.new_nonce_hash);
    crate::packet::plaintext_reads_back_before_a_tail(s, msg_id, tail);
}

proof fn lemma_payload(packet: Seq<u8>, a: int, b: int)
    requires
        plaintext_of(packet) is Ok,
        0 <= a <= b <= ((plaintext_of(packet)->Ok_0).0).len(),
    ensures
        ((plaintext_of(packet)->Ok_0).0).subrange(a, b) == packet.subrange(20 + a, 20 + b),
        20 + b <= packet.len(),
{
    let data = (plaintext_of(packet)->Ok_0).0;
    assert(data.subrange(a, b) =~= packet.subrange(20 + a, 20 + b));
}

proof fn lemma_word_back(s: Seq<u8>, v: u32)
    requires
        s.len() == 4,
        crate::bytes::le_value(s) == v,
    ensures
        s == le_u32(v),
{
    crate::bytes::le_bytes_of_le_value(s);
}

/// Whatever packet a client takes as the first answer begins with the answer's
/// number and the client's own nonce, and the server's nonce stands behind them.
pub proof fn taken_first_answers(nonce: Seq<u8>, packet: Seq<u8>)
    requires
        res_pq_verdict(nonce, packet) is Ok,
    ensures
        packet.len() >= 56,
        packet.subrange(20, 24) == le_u32(0x05162463),
        packet.subrange(24, 40) == nonce,
        packet.subrange(40, 56) == (res_pq_verdict(nonce, packet)->Ok_0).0,
{
    lemma_payload(packet, 0, 4);
    lemma_payload(packet, 4, 20);
    lemma_payload(packet, 20, 36);
    lemma_word_back(packet.subrange(20, 24), 0x05162463);
}

/// Whatever packet a client takes as the second answer begins with the number of
/// a granting answer and both nonces.
pub proof fn taken_second_answers(nonce: Seq<u8>, server_nonce: Seq<u8>, packet: Seq<u8>)
    requires
        dh_params_verdict(nonce, server_nonce, packet) is Ok,
    ensures
        packet.len() >= 56,
        packet.subrange(20, 24) == le_u32(0xd0e8075c),
        packet.subrange(24, 40) == nonce,
        packet.subrange(40, 56) == server_nonce,
        crate::tl::tl_bytes_at((plaintext_of(packet)->Ok_0).0, 36) matches Some((answer, _)) && dh_params_verdict(
            nonce,
            server_nonce,
            packet,
        ) == Ok::<Seq<u8>, HandshakeError>(answer),
{
    lemma_payload(packet, 0, 4);
    lemma_payload(packet, 4, 20);
    lemma_payload(packet, 20, 36);
    lemma_word_back(packet.subrange(20, 24), 0xd0e8075c);
}

/// Whatever packet a client reads as the third answer has the verdict's number,
/// both nonces and the proof one behind the other.
pub proof fn read_third_answers(packet: Seq<u8>)
    requires
        dh_gen_in(packet) is Ok,
    ensures
        ({
            let m = dh_gen_in(packet)->Ok_0;
            &&& packet.len() >= 72
            &&& packet.subrange(20, 24) == le_u32(dh_gen_id(m.verdict))
            &&& packet.subrange(24, 40) == m.nonce
            &&& packet.subrange(40, 56) == m.server_nonce
            &&& packet.subrange(56, 72) == m.new_nonce_hash
        }),
{
    lemma_payload(packet, 0, 4);
    lemma_payload(packet, 4, 20);
    lemma_payload(packet, 20, 36);
    lemma_payload(packet, 36, 52);
    let m = dh_gen_in(packet)->Ok_0;
    lemma_word_back(packet.subrange(20, 24), dh_gen_id(m.verdict));
}

/// What cannot be read is named by where the reading failed: the packet first,
/// then the answer in it.
pub proof fn unreadable_answers(nonce: Seq<u8>, server_nonce: Seq<u8>, packet: Seq<u8>)
    ensures
        match plaintext_of(packet) {
            Err(e) => {
                &&& res_pq_verdict(nonce, packet) == Err::<(Seq<u8>, i64), HandshakeError>(
                    HandshakeError::Plaintext(e),
                )
                &&& dh_params_verdict(nonce, server_nonce, packet) == Err::<Seq<u8>, HandshakeError>(
                    HandshakeError::Plaintext(e),
                )
                &&& dh_gen_in(packet) == Err::<DhGenFields, HandshakeError>(HandshakeError::Plaintext(e))
            },
            Ok((data, _)) => {
                &&& res_pq_of(data) matches Err(e) ==> res_pq_verdict(nonce, packet) == Err::<
                    (Seq<u8>, i64),
                    HandshakeError,
                >(HandshakeError::ResPqUnreadable(e))
                &&& server_dh_params_of(data) matches Err(e) ==> dh_params_verdict(nonce, server_nonce, packet)
                    == Err::<Seq<u8>, HandshakeError>(HandshakeError::DhParamsUnreadable(e))
                &&& dh_gen_of(data) matches Err(e) ==> dh_gen_in(packet) == Err::<DhGenFields, HandshakeError>(
                    HandshakeError::DhGenUnreadable(e),
                )
                &&& dh_gen_of(data) matches Ok(m) ==> dh_gen_in(packet) == Ok::<DhGenFields, HandshakeError>(m)
            },
        },
{
}

/// Whatever is taken as the parameters of the exchange has its own digest in front;
/// what has not is refused, and so is what ends within a digest.
pub proof fn parameters_have_their_digest(plain: Seq<u8>)
    ensures
        plain.len() < 20 <==> dh_inner_verdict(plain) == Err::<ServerDhInnerFields, HandshakeError>(
            HandshakeError::DhInnerTooShort,
        ),
        plain.len() >= 20 ==> match server_dh_inner_of(plain.skip(20)) {
            Err(e) => dh_inner_verdict(plain) == Err::<ServerDhInnerFields, HandshakeError>(
                HandshakeError::DhInnerUnreadable(e),
            ),
            Ok(m) => {
                &&& plain.take(20) == sha1_of(plain.skip(20).take(m.consumed))@ ==> dh_inner_verdict(plain) == Ok::<
                    ServerDhInnerFields,
                    HandshakeError,
                >(m)
                &&& plain.take(20) != sha1_of(plain.skip(20).take(m.consumed))@ ==> dh_inner_verdict(plain) == Err::<
                    ServerDhInnerFields,
                    HandshakeError,
                >(HandshakeError::DhInnerHashMismatch)
            },
        },
{
    if plain.len() >= 20 {
        assert(crate::handshake::inner_rest(plain) =~= plain.skip(20));
        assert(crate::handshake::inner_digest(plain) =~= plain.take(20));
        if let Ok(m) = server_dh_inner_of(plain.skip(20)) {
            assert(plain.skip(20).subrange(0, m.consumed) =~= plain.skip(20).take(m.consumed));
        }
    }
}

/// A packet that was sent is read by the server as its payload, with an
/// identifier greater than the last one; the identifiers of encrypted messages
/// stay. Where nothing was sent, all identifiers stay.
pub proof fn sent_packets(e: HandshakeError, packet: Seq<u8>, payload: Seq<u8>, before: MsgIds, after: MsgIds)
    ensures
        crate::handshake::sent(packet, payload, before, after) && payload.len() < 0x1_0000_0000 ==> {
            &&& plaintext_of(packet) == Ok::<(Seq<u8>, int), PlaintextError>((payload, after.plaintext as int))
            &&& packet.len() == 20 + payload.len()
            &&& after.plaintext > before.plaintext
            &&& after.plaintext % 4 == 1
            &&& after.response == before.response
        },
        crate::handshake::no_id(e, before, after) ==> {
            &&& after.plaintext == before.plaintext
            &&& after.response == before.response
            &&& e is MsgId
            &&& e == HandshakeError::MsgId(MsgIdError::Exhausted) ==> before.plaintext > i64::MAX - 4
        },
{
    if crate::handshake::sent(packet, payload, before, after) && payload.len() < 0x1_0000_0000 {
        crate::packet::plaintext_reads_back(payload, after.plaintext);
        crate::packet::plaintext_fields(payload, after.plaintext);
    }
}

/// The client's secrets, byte for byte: the number of their form, the product and
/// its two factors, and the three nonces.
#[verifier::rlimit(50)]
pub proof fn secrets_layout(nonce: Seq<u8>, server_nonce: Seq<u8>, new_nonce: Seq<u8>)
    requires
        nonce.len() == 16,
        server_nonce.len() == 16,
        new_nonce.len() == 32,
    ensures
        ({
            let s = crate::handshake::secrets_form(nonce, server_nonce, new_nonce);
            &&& s.len() == 80
            &&& s.take(16) == seq![
                0xecu8, 0x5au8, 0xc9u8, 0x83u8,
                3u8, 0x23u8, 0xbdu8, 0x89u8,
                2u8, 0x06u8, 0xb9u8, 0u8,
                2u8, 0x05u8, 0x51u8, 0u8,
            ]
            &&& s.subrange(16, 32) == nonce
            &&& s.subrange(32, 48) == server_nonce
            &&& s.skip(48) == new_nonce
        }),
        0x23bd89 == 0x06b9 * 0x0551,
{
    let s = crate::handshake::secrets_form(nonce, server_nonce, new_nonce);
    crate::handshake::lemma_pq_forms();
    let pq = seq![0x23u8, 0xbdu8, 0x89u8];
    let p = seq![0x06u8, 0xb9u8];
    let q = seq![0x05u8, 0x51u8];
    reveal_with_fuel(le_bytes, 5);
    assert(le_u32(0x83c95aec) =~= seq![0xecu8, 0x5au8, 0xc9u8, 0x83u8]);
    assert(tl_bytes(pq) =~= seq![3u8, 0x23u8, 0xbdu8, 0x89u8]);
    assert(tl_bytes(p) =~= seq![2u8, 0x06u8, 0xb9u8, 0u8]);
    assert(tl_bytes(q) =~= seq![2u8, 0x05u8, 0x51u8, 0u8]);
    assert(s.take(16) =~= seq![
        0xecu8, 0x5au8, 0xc9u8, 0x83u8,
        3u8, 0x23u8, 0xbdu8, 0x89u8,
        2u8, 0x06u8, 0xb9u8, 0u8,
        2u8, 0x05u8, 0x51u8, 0u8,
    ]);
    assert(s.subrange(16, 32) =~= nonce);
    assert(s.subrange(32, 48) =~= server_nonce);
    assert(s.skip(48) =~= new_nonce);
}

/// What is given to the cipher for the secrets: the attempt's own key, a vector of
/// zero bytes, the padded secrets backwards and the digest of key and secrets.
pub proof fn padding_jobs(job: CipherJob, state: SecretsPadded)
    requires
        crate::handshake::is_padding_job(job, state),
    ensures
        job.key@ == state.temp_key@,
        forall|i: int| 0 <= i < 32 ==> #[trigger] job.iv@[i] == 0,
        job.data@.len() == state.padded@.len() + 32,
        job.data@.take(state.padded@.len() as int).reverse() == state.padded@,
        job.data@.skip(state.padded@.len() as int) == sha256_of(state.temp_key@ + state.padded@)@,
{
    crate::rsa_pad::inner_block_has_the_digest(state.temp_key@, state.padded@);
    assert(job.data@.take(state.padded@.len() as int).reverse() =~= state.padded@);
}

/// What is given to the cipher for the client's power: the temporary key and
/// vector, and whole blocks, in which the digest comes first, then the form that
/// it is the digest of, with the nonces and the power, then fewer than sixteen
/// bytes of filling.
#[verifier::rlimit(50)]
pub proof fn power_jobs(job: CipherJob, state: DhParamsGiven, g_b: Seq<u8>, filling: Seq<u8>)
    requires
        crate::handshake::is_power_job(job, state, g_b, filling),
        filling.len() == 15,
        g_b.len() < 0x100_0000,
    ensures
        job.key@ == state.tmp_key@,
        job.iv@ == state.tmp_iv@,
        job.data@.len() % 16 == 0,
        ({
            let n = (44 + tl_bytes(g_b).len()) as int;
            let form = job.data@.subrange(20, 20 + n);
            &&& 20 + n <= job.data@.len() < 36 + n
            &&& job.data@.take(20) == sha1_of(form)@
            &&& form.take(4) == le_u32(0x6643b654)
            &&& form.subrange(4, 20) == state.nonce@
            &&& form.subrange(20, 36) == state.server_nonce@
            &&& i64_of_le(form.subrange(36, 44)) == 0
            &&& crate::tl::tl_bytes_at(form, 44) == Some((g_b, n))
            &&& job.data@.skip(20 + n) == filling.take(job.data@.len() - 20 - n)
        }),
{
    let form = crate::tl::client_dh_inner_form(state.nonce@, state.server_nonce@, 0, g_b);
    let n = (44 + tl_bytes(g_b).len()) as int;
    let head = le_u32(0x6643b654) + state.nonce@ + state.server_nonce@ + le_i64(0);
    lemma_le_i64_back(0);
    crate::bytes::lemma_le_bytes_len(0x6643b654, 4);
    assert(form.len() == n);
    assert(job.data@.take(20) =~= sha1_of(form)@);
    assert(job.data@.subrange(20, 20 + n) =~= form);
    assert(form.take(4) =~= le_u32(0x6643b654));
    assert(form.subrange(4, 20) =~= state.nonce@);
    assert(form.subrange(20, 36) =~= state.server_nonce@);
    assert(form.subrange(36, 44) =~= le_i64(0));
    crate::tl::tl_bytes_read_back(head, g_b, Seq::empty());
    assert(head + tl_bytes(g_b) + Seq::<u8>::empty() =~= form);
    assert(job.data@.skip(20 + n) =~= filling.take(job.data@.len() - 20 - n));
}

/// Filling brings a length to the next multiple of sixteen, and no further.
pub proof fn block_gap_is_least(n: int)
    requires
        n >= 0,
    ensures
        (n + crate::handshake::block_gap(n)) % 16 == 0,
        0 <= crate::handshake::block_gap(n) < 16,
{
}

/// The third answer is the client's own where both nonces are, and proves the key
/// exactly where its hash is that of the client's second nonce, the number one
/// and the key that the client computes.
pub proof fn third_answer_is_judged(m: DhGenFields, state: PowerChosen)
    ensures
        crate::handshake::answers(m, state) <==> m.nonce == state.nonce@ && m.server_nonce == state.server_nonce@,
        crate::handshake::proves_key(m, state) <==> m.new_nonce_hash == sha1_of(
            state.new_nonce@.push(1u8) + sha1_of(agreed_key(state))@.take(8),
        )@.skip(4),
{
    crate::dh::key_proof_parts(state.new_nonce@, agreed_key(state), 1);
}

/// Under a modulus of at most 2048 bits the agreed key is the server's power
/// raised to the client's exponent, in 256 bytes.
pub proof fn agreed_key_is_the_power(state: PowerChosen)
    requires
        0 < be_value(state.p@) <= pow2(2048),
    ensures
        agreed_key(state).len() == 256,
        be_value(agreed_key(state)) == pow(be_value(state.g_a@) as int, be_value(state.b@)) % (be_value(
            state.p@,
        ) as int),
{
    crate::dh::shared_key_is_the_power(be_value(state.g_a@), be_value(state.b@), be_value(state.p@));
}

/// A fingerprint keeps its bits, whatever its sign.
pub proof fn fingerprints_keep_their_bits(v: i64)
    ensures
        0 <= crate::handshake::fingerprint_of(v) <= u64::MAX,
        le_bytes(crate::handshake::fingerprint_of(v) as nat, 8) == le_i64(v),
{
}

proof fn lemma_factor_forms()
    ensures
        tl_bytes(crate::bignum::minimal_u64(crate::handshake::P)) + tl_bytes(
            crate::bignum::minimal_u64(crate::handshake::Q),
        ) == seq![2u8, 0x06u8, 0xb9u8, 0u8, 2u8, 0x05u8, 0x51u8, 0u8],
{
    crate::handshake::lemma_pq_forms();
    let p = seq![0x06u8, 0xb9u8];
    let q = seq![0x05u8, 0x51u8];
    assert(tl_bytes(p) =~= seq![2u8, 0x06u8, 0xb9u8, 0u8]);
    assert(tl_bytes(q) =~= seq![2u8, 0x05u8, 0x51u8, 0u8]);
    assert(tl_bytes(p) + tl_bytes(q) =~= seq![2u8, 0x06u8, 0xb9u8, 0u8, 2u8, 0x05u8, 0x51u8, 0u8]);
}

proof fn lemma_second_message_parts(id: Seq<u8>, a: Seq<u8>, b: Seq<u8>, c: Seq<u8>, d: Seq<u8>, secrets: Seq<u8>)
    requires
        id.len() == 4,
        a.len() == 16,
        b.len() == 16,
        c.len() == 8,
        d.len() == 8,
        secrets.len() < 0x100_0000,
    ensures
        ({
            let s = id + a + b + c + d + tl_bytes(secrets);
            &&& s.take(4) == id
            &&& s.subrange(4, 20) == a
            &&& s.subrange(20, 36) == b
            &&& s.subrange(36, 44) == c
            &&& s.subrange(44, 52) == d
            &&& crate::tl::tl_bytes_at(s, 52) == Some((secrets, s.len() as int))
        }),
{
    let head = id + a + b + c + d;
    let s = head + tl_bytes(secrets);
    crate::tl::tl_bytes_read_back(head, secrets, Seq::empty());
    assert(s + Seq::<u8>::empty() =~= s);
    assert(s.take(4) =~= id);
    assert(s.subrange(4, 20) =~= a);
    assert(s.subrange(20, 36) =~= b);
    assert(s.subrange(36, 44) =~= c);
    assert(s.subrange(44, 52) =~= d);
}

/// What the server reads in the second message: both nonces, the two factors, the
/// fingerprint and the covered secrets, and nothing behind them.
#[verifier::rlimit(50)]
pub proof fn server_reads_the_second_message(
    nonce: Seq<u8>,
    server_nonce: Seq<u8>,
    fingerprint: u64,
    secrets: Seq<u8>,
)
    requires
        nonce.len() == 16,
        server_nonce.len() == 16,
        secrets.len() < 0x100_0000,
    ensures
        ({
            let s = req_dh_params_form(nonce, server_nonce, fingerprint, secrets);
            &&& s.take(4) == le_u32(0xd712e4be)
            &&& s.subrange(4, 20) == nonce
            &&& s.subrange(20, 36) == server_nonce
            &&& s.subrange(36, 44) == seq![2u8, 0x06u8, 0xb9u8, 0u8, 2u8, 0x05u8, 0x51u8, 0u8]
            &&& crate::bytes::le_value(s.subrange(44, 52)) == fingerprint
            &&& crate::tl::tl_bytes_at(s, 52) == Some((secrets, s.len() as int))
        }),
{
    let s = req_dh_params_form(nonce, server_nonce, fingerprint, secrets);
    let p = tl_bytes(crate::bignum::minimal_u64(crate::handshake::P));
    let q = tl_bytes(crate::bignum::minimal_u64(crate::handshake::Q));
    let f = le_bytes(fingerprint as nat, 8);
    let front = le_u32(0xd712e4be) + nonce + server_nonce;
    second_message_layout(nonce, server_nonce, fingerprint, secrets);
    lemma_factor_forms();
    crate::bytes::lemma_le_bytes_len(0xd712e4be, 4);
    crate::bytes::lemma_le_bytes_len(fingerprint as nat, 8);
    crate::bytes::lemma_pow256_values();
    crate::bytes::le_value_of_le_bytes(fingerprint as nat, 8);
    assert(front + p + q =~= front + (p + q));
    lemma_second_message_parts(le_u32(0xd712e4be), nonce, server_nonce, p + q, f, secrets);
}

/// What the server reads in the third message: both nonces and the encrypted
/// power, and nothing behind them.
pub proof fn server_reads_the_third_message(nonce: Seq<u8>, server_nonce: Seq<u8>, encrypted: Seq<u8>)
    requires
        nonce.len() == 16,
        server_nonce.len() == 16,
        encrypted.len() < 0x100_0000,
    ensures
        ({
            let s = set_client_dh_params_form(nonce, server_nonce, encrypted);
            &&& s.take(4) == le_u32(0xf5045f1f)
            &&& s.subrange(4, 20) == nonce
            &&& s.subrange(20, 36) == server_nonce
            &&& crate::tl::tl_bytes_at(s, 36) == Some((encrypted, s.len() as int))
        }),
{
    let s = set_client_dh_params_form(nonce, server_nonce, encrypted);
    let head = le_u32(0xf5045f1f) + nonce + server_nonce;
    third_message_layout(nonce, server_nonce, encrypted);
    crate::bytes::lemma_le_bytes_len(0xf5045f1f, 4);
    assert(s.take(4) =~= le_u32(0xf5045f1f));
    assert(s.subrange(4, 20) =~= nonce);
    assert(s.subrange(20, 36) =~= server_nonce);
    crate::tl::tl_bytes_read_back(head, encrypted, Seq::empty());
    assert(head + tl_bytes(encrypted) + Seq::<u8>::empty() =~= s);
}

/// The exchange ends with a key exactly on a packet that has the accepting
/// answer's number, both nonces and the proof of the agreed key behind a plaintext
/// header, with at least as many bytes announced and there; what follows them has
/// no say.
pub proof fn exchange_ends_with_a_key(packet: Seq<u8>, state: PowerChosen)
    ensures
        crate::handshake::ends_with_a_key(packet, state) <==> {
            &&& packet.len() >= 72
            &&& 52 <= crate::bytes::le_value(packet.subrange(16, 20)) <= packet.len() - 20
            &&& packet.subrange(20, 24) == le_u32(0x3bcbf734)
            &&& packet.subrange(24, 40) == state.nonce@
            &&& packet.subrange(40, 56) == state.server_nonce@
            &&& packet.subrange(56, 72) == sha1_of(
                state.new_nonce@.push(1u8) + sha1_of(agreed_key(state))@.take(8),
            )@.skip(4)
        },
{
    crate::dh::key_proof_parts(state.new_nonce@, agreed_key(state), 1);
    if crate::handshake::ends_with_a_key(packet, state) {
        read_third_answers(packet);
    }
    if packet.len() >= 72 && 52 <= crate::bytes::le_value(packet.subrange(16, 20)) <= packet.len() - 20
        && packet.subrange(20, 24) == le_u32(0x3bcbf734) {
        lemma_payload(packet, 0, 4);
        lemma_payload(packet, 4, 20);
        lemma_payload(packet, 20, 36);
        lemma_payload(packet, 36, 52);
        lemma_word((plaintext_of(packet)->Ok_0).0, 0, 0x3bcbf734);
    }
}

/// What a client gives to the cipher of an honest second answer: the answer's
/// contents, under a key and vector cut from the digests of the nonces. Of any
/// other nonces it gives nothing.
pub proof fn second_answer_is_opened(
    state: DhParamsAsked,
    n: Seq<u8>,
    sn: Seq<u8>,
    answer: Seq<u8>,
    msg_id: i64,
    rest: Seq<u8>,
    tail: Seq<u8>,
)
    requires
        n.len() == 16,
        sn.len() == 16,
        answer.len() < 0x100_0000,
        rest.len() < 0x8000_0000,
    ensures
        ({
            let form = server_dh_params_form(
                ServerDhParamsFields::Granted { nonce: n, server_nonce: sn, encrypted_answer: answer },
            );
            let r = crate::handshake::to_be_decrypted(state, plaintext_form(form + rest, msg_id) + tail);
            if n == state.nonce@ && sn == state.server_nonce@ {
                &&& r matches Some((key, iv, data))
                &&& data == answer
                &&& key.take(20) == sha1_of(state.new_nonce@ + state.server_nonce@)@
                &&& key.skip(20) + iv.take(8) == sha1_of(state.server_nonce@ + state.new_nonce@)@
                &&& iv.subrange(8, 28) == sha1_of(state.new_nonce@ + state.new_nonce@)@
                &&& iv.skip(28) == state.new_nonce@.take(4)
            } else {
                r is None
            }
        }),
{
    second_answer_before_a_tail(state.nonce@, state.server_nonce@, n, sn, answer, msg_id, rest, tail);
    crate::dh::temporary_key_parts(state.server_nonce@, state.new_nonce@);
}

/// The second message is sent exactly where the outer block is below the key's
/// modulus. The server then reads in it both nonces, the fingerprint, and the power
/// of the block's number.
pub proof fn second_message_is_sent(state: SecretsPadded, encrypted: Seq<u8>)
    requires
        be_value(state.key.n@) <= pow2(2048),
    ensures
        ({
            let m = be_value(crate::rsa_pad::outer_block(state.temp_key@, encrypted));
            let n = be_value(state.key.n@);
            &&& crate::handshake::second_message_of(state, encrypted) is Some <==> m < n
            &&& crate::handshake::second_message_of(state, encrypted) matches Some(s) ==> {
                &&& s.subrange(4, 20) == state.nonce@
                &&& s.subrange(20, 36) == state.server_nonce@
                &&& crate::bytes::le_value(s.subrange(44, 52)) == state.fingerprint
                &&& crate::tl::tl_bytes_at(s, 52) matches Some((c, end)) && c.len() == 256 && end == s.len()
                    && be_value(c) == pow(m as int, be_value(state.key.e@)) % (n as int)
            }
        }),
{
    let m = be_value(crate::rsa_pad::outer_block(state.temp_key@, encrypted));
    let n = be_value(state.key.n@);
    let e = be_value(state.key.e@);
    crate::rsa_pad::rsa_gives_the_power(m, n, e);
    if m < n {
        crate::rsa_pad::rsa_block_is_256_bytes(m, n, e);
        server_reads_the_second_message(
            state.nonce@,
            state.server_nonce@,
            state.fingerprint,
            crate::rsa_pad::rsa_of(m, n, e)->0,
        );
    }
}

} // verus!
