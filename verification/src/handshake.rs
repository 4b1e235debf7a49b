//! The key exchange from the client's side, as a chain of states. Each state
//! takes what its owner received or had encrypted, and gives the next state with
//! what its owner has to send or to run through the block cipher.

use vstd::arithmetic::power::pow;
use vstd::prelude::*;

use crate::bignum::{be_minimal, minimal_u64};
use crate::bytes::{be_value, le_bytes, le_u32, zeros};
use crate::dh::{power_fault, GroupError};
use crate::digest::sha1_of;
use crate::msg_id::{issued, MsgIdError, MsgIds};
use crate::packet::{plaintext_form, plaintext_of, EnvelopeError, MessageError, PlaintextError, Sealed};
use crate::server_key::{KeyError, ServerKey};
use crate::session::VpnSession;
use crate::tl::{DhGen, DhGenAnswer, ResPq, ServerDhInner, ServerDhParams, TlError};

verus! {

/// The product that the exchange names, and its two factors.
pub const PQ: u64 = 2342281;

pub const P: u64 = 1721;

pub const Q: u64 = 1361;

/// The length of the client's secrets.
pub const SECRETS: usize = 80;

/// Why the key exchange was broken off.
#[derive(Clone, Copy, Debug, PartialEq, Eq)]
pub enum HandshakeError {
    /// No identifier could be issued for a message.
    MsgId(MsgIdError),
    /// A packet is no plaintext packet.
    Plaintext(PlaintextError),
    /// The first answer cannot be read.
    ResPqUnreadable(TlError),
    /// The first answer has another nonce.
    ResPqNonceMismatch,
    /// The first answer names no public key.
    NoFingerprint,
    /// The server's public key is not used.
    Key(KeyError),
    /// The client's secrets are too long to be padded.
    DataTooLong,
    /// The second answer cannot be read.
    DhParamsUnreadable(TlError),
    /// The second answer is a refusal.
    DhParamsRefused,
    /// The second answer has another nonce.
    DhParamsNonceMismatch,
    /// The decrypted parameters end within their digest.
    DhInnerTooShort,
    /// The decrypted parameters cannot be read.
    DhInnerUnreadable(TlError),
    /// The decrypted parameters do not have the digest in front of them.
    DhInnerHashMismatch,
    /// A power of the exchange is refused.
    Group(GroupError),
    /// The third answer cannot be read.
    DhGenUnreadable(TlError),
    /// The third answer does not accept the client's power.
    DhGenRefused(DhGenAnswer),
    /// The third answer has another nonce.
    DhGenNonceMismatch,
    /// The server holds another key.
    KeyProofMismatch,
    /// The configuration packet is refused before it is decrypted.
    Envelope(EnvelopeError),
    /// The decrypted configuration message is refused.
    Message(MessageError),
}

/// A run of the block cipher that the exchange asks for.
#[derive(Debug)]
pub struct CipherJob {
    pub key: [u8; 32],
    pub iv: [u8; 32],
    pub data: Vec<u8>,
}

/// The state after the first message: the client's nonce.
#[derive(Debug)]
pub struct ReqPqSent {
    pub nonce: [u8; 16],
}

/// The state after the first answer: both nonces and the public key that the
/// server named.
#[derive(Debug)]
pub struct KeyNamed {
    pub nonce: [u8; 16],
    pub server_nonce: [u8; 16],
    pub fingerprint: u64,
    pub key: ServerKey,
}

/// The state while the client's secrets are padded: the padded secrets and the
/// random key of the present attempt.
#[derive(Debug)]
pub struct SecretsPadded {
    pub nonce: [u8; 16],
    pub server_nonce: [u8; 16],
    pub new_nonce: [u8; 32],
    pub fingerprint: u64,
    pub key: ServerKey,
    pub padded: Vec<u8>,
    pub temp_key: [u8; 32],
}

/// The state after the second message: all three nonces.
#[derive(Debug)]
pub struct DhParamsAsked {
    pub nonce: [u8; 16],
    pub server_nonce: [u8; 16],
    pub new_nonce: [u8; 32],
}

/// The state after the second answer: the key under which its contents are
/// encrypted.
#[derive(Debug)]
pub struct DhParamsGiven {
    pub nonce: [u8; 16],
    pub server_nonce: [u8; 16],
    pub new_nonce: [u8; 32],
    pub tmp_key: [u8; 32],
    pub tmp_iv: [u8; 32],
}

/// The state from the choice of the client's exponent on: the modulus, the
/// server's power and the client's exponent, in big-endian bytes.
#[derive(Debug)]
pub struct PowerChosen {
    pub nonce: [u8; 16],
    pub server_nonce: [u8; 16],
    pub new_nonce: [u8; 32],
    pub p: Vec<u8>,
    pub g_a: Vec<u8>,
    pub b: Vec<u8>,
}

/// The state after the third answer: the key, and what both sides derive.
#[derive(Debug)]
pub struct KeyAgreed {
    pub auth_key: [u8; 256],
    pub auth_key_id: i64,
    pub salt: i64,
    pub session_id: [u8; 8],
}

/// Whether no identifier could be issued for a packet, so that the identifiers are
/// as they were.
pub open spec fn no_id(e: HandshakeError, before: MsgIds, after: MsgIds) -> bool {
    &&& after == before
    &&& e matches HandshakeError::MsgId(why) && (why is Exhausted ==> before.plaintext > i64::MAX - 4)
}

/// Whether `packet` is the plaintext packet with the given payload and a fresh
/// identifier.
pub open spec fn sent(packet: Seq<u8>, payload: Seq<u8>, before: MsgIds, after: MsgIds) -> bool {
    &&& issued(before.plaintext, after.plaintext)
    &&& after.response == before.response
    &&& packet == plaintext_form(payload, after.plaintext)
}

/// The plaintext packet with the given payload and a fresh identifier.
fn send(payload: &[u8], ids: &mut MsgIds) -> (r: Result<Vec<u8>, HandshakeError>)
    ensures
        match r {
            Ok(packet) => sent(packet@, payload@, *old(ids), *final(ids)),
            Err(e) => no_id(e, *old(ids), *final(ids)),
        },
{
    match crate::packet::write_plaintext_raw(payload, ids) {
        Ok(packet) => Ok(packet),
        Err(e) => Err(HandshakeError::MsgId(e)),
    }
}

/// The first message, which asks for the server's nonce and its public keys.
pub fn req_pq_multi(nonce: &[u8; 16]) -> (r: Vec<u8>)
    ensures
        r@ == crate::tl::req_pq_multi_form(nonce@),
{
    crate::tl::encode_req_pq_multi(nonce)
}

/// Opens the exchange with the given nonce.
pub fn start_with(nonce: [u8; 16], ids: &mut MsgIds) -> (r: Result<(ReqPqSent, Vec<u8>), HandshakeError>)
    ensures
        match r {
            Ok((next, packet)) => {
                &&& next.nonce == nonce
                &&& sent(packet@, crate::tl::req_pq_multi_form(nonce@), *old(ids), *final(ids))
            },
            Err(e) => no_id(e, *old(ids), *final(ids)),
        },
{
    let payload: Vec<u8> = req_pq_multi(&nonce);
    match send(payload.as_slice(), ids) {
        Ok(packet) => Ok((ReqPqSent { nonce }, packet)),
        Err(e) => Err(e),
    }
}

/// Opens the exchange with a random nonce.
pub fn start(ids: &mut MsgIds) -> (r: Result<(ReqPqSent, Vec<u8>), HandshakeError>)
    ensures
        match r {
            Ok((next, packet)) => sent(
                packet@,
                crate::tl::req_pq_multi_form(next.nonce@),
                *old(ids),
                *final(ids),
            ),
            Err(e) => no_id(e, *old(ids), *final(ids)),
        },
{
    let nonce: [u8; 16] = crate::random::random_array::<16>();
    start_with(nonce, ids)
}

/// What the first answer gives to a client that sent `nonce`: the server's nonce
/// and the fingerprint of the first key it names.
pub open spec fn res_pq_verdict(nonce: Seq<u8>, packet: Seq<u8>) -> Result<(Seq<u8>, i64), HandshakeError> {
    match plaintext_of(packet) {
        Err(e) => Err(HandshakeError::Plaintext(e)),
        Ok((data, _)) => match crate::tl::res_pq_of(data) {
            Err(e) => Err(HandshakeError::ResPqUnreadable(e)),
            Ok(m) => if m.nonce != nonce {
                Err(HandshakeError::ResPqNonceMismatch)
            } else if m.fingerprints.len() == 0 {
                Err(HandshakeError::NoFingerprint)
            } else {
                Ok((m.server_nonce, m.fingerprints[0]))
            },
        },
    }
}

/// The bit pattern of a fingerprint, read as an unsigned number.
pub open spec fn fingerprint_of(v: i64) -> int {
    crate::bytes::twos_64(v) as int
}

impl ReqPqSent {
    /// Checks the first answer: the server's nonce and the fingerprint of the
    /// first key it names.
    pub fn check_res_pq(&self, payload: &[u8]) -> (r: Result<([u8; 16], u64), HandshakeError>)
        ensures
            match r {
                Ok((server_nonce, fingerprint)) => res_pq_verdict(self.nonce@, payload@) matches Ok(
                    (sn, fp),
                ) && sn == server_nonce@ && fingerprint == fingerprint_of(fp),
                Err(e) => res_pq_verdict(self.nonce@, payload@) == Err::<(Seq<u8>, i64), HandshakeError>(e),
            },
    {
        let (data, _msg_id) = match crate::packet::parse_plaintext(payload) {
            Ok(v) => v,
            Err(e) => return Err(HandshakeError::Plaintext(e)),
        };
        let m: ResPq = match crate::tl::decode_res_pq(data.as_slice()) {
            Ok(v) => v,
            Err(e) => return Err(HandshakeError::ResPqUnreadable(e)),
        };
        if !crate::bytes::same_bytes(m.nonce.as_slice(), self.nonce.as_slice()) {
            return Err(HandshakeError::ResPqNonceMismatch);
        }
        if m.fingerprints.len() == 0 {
            return Err(HandshakeError::NoFingerprint);
        }
        let first: i64 = m.fingerprints[0];
        proof {
            assert(first >= 0 ==> (first as u64) as int == first as int) by (bit_vector);
            assert(first < 0 ==> (first as u64) as int == first as int + 0x1_0000_0000_0000_0000) by (bit_vector);
        }
        Ok((m.server_nonce, first as u64))
    }

    /// Takes the first answer and loads the public key that it names.
    pub fn on_res_pq(self, payload: &[u8]) -> (r: Result<KeyNamed, HandshakeError>)
        ensures
            match res_pq_verdict(self.nonce@, payload@) {
                Err(e) => r == Err::<KeyNamed, HandshakeError>(e),
                Ok((server_nonce, fp)) => match r {
                    Ok(next) => {
                        &&& fingerprint_of(fp) == crate::server_key::SERVER_FINGERPRINT
                        &&& next.nonce == self.nonce
                        &&& next.server_nonce@ == server_nonce
                        &&& next.fingerprint == fingerprint_of(fp)
                        &&& crate::server_key::pkcs1_public_key(
                            crate::server_key::SERVER_PUBLIC_KEY_PEM@,
                        ) == Some((next.key.n@, next.key.e@))
                        &&& 2 <= be_value(next.key.e@) < be_value(next.key.n@)
                    },
                    Err(e) => if fingerprint_of(fp) != crate::server_key::SERVER_FINGERPRINT {
                        e == HandshakeError::Key(
                            KeyError::FingerprintMismatch { got: fingerprint_of(fp) as u64 },
                        )
                    } else {
                        &&& e == HandshakeError::Key(KeyError::Unreadable)
                        &&& crate::server_key::pkcs1_public_key(
                            crate::server_key::SERVER_PUBLIC_KEY_PEM@,
                        ) is None
                    },
                },
            },
    {
        let (server_nonce, fingerprint) = match self.check_res_pq(payload) {
            Ok(v) => v,
            Err(e) => return Err(e),
        };
        match crate::server_key::load_public_key_by_fingerprint(fingerprint) {
            Ok(key) => Ok(KeyNamed { nonce: self.nonce, server_nonce, fingerprint, key }),
            Err(e) => Err(HandshakeError::Key(e)),
        }
    }
}

/// The client's secrets as they are padded and encrypted for the server.
pub open spec fn secrets_form(nonce: Seq<u8>, server_nonce: Seq<u8>, new_nonce: Seq<u8>) -> Seq<u8> {
    crate::tl::pq_inner_data_form(
        minimal_u64(PQ),
        minimal_u64(P),
        minimal_u64(Q),
        nonce,
        server_nonce,
        new_nonce,
    )
}

/// The cipher run of an attempt to pad the secrets: the inner block under the
/// attempt's random key, with an initialization vector of zeros.
pub open spec fn is_padding_job(job: CipherJob, state: SecretsPadded) -> bool {
    &&& job.key == state.temp_key
    &&& job.iv@ == zeros(32)
    &&& job.data@ == crate::rsa_pad::inner_block(state.temp_key@, state.padded@)
}

/// The shortest forms of the three numbers of the exchange.
pub proof fn lemma_pq_forms()
    ensures
        minimal_u64(PQ) == seq![0x23u8, 0xbdu8, 0x89u8],
        minimal_u64(P) == seq![0x06u8, 0xb9u8],
        minimal_u64(Q) == seq![0x05u8, 0x51u8],
        P * Q == PQ,
{
    reveal_with_fuel(be_minimal, 4);
    assert(minimal_u64(PQ) =~= seq![0x23u8, 0xbdu8, 0x89u8]);
    assert(minimal_u64(P) =~= seq![0x06u8, 0xb9u8]);
    assert(minimal_u64(Q) =~= seq![0x05u8, 0x51u8]);
}

/// The client's secrets have their fixed length, so that they can be padded.
pub proof fn secrets_can_be_padded(nonce: Seq<u8>, server_nonce: Seq<u8>, new_nonce: Seq<u8>)
    requires
        nonce.len() == 16,
        server_nonce.len() == 16,
        new_nonce.len() == 32,
    ensures
        secrets_form(nonce, server_nonce, new_nonce).len() == SECRETS,
        SECRETS <= crate::rsa_pad::MAX_DATA,
{
    lemma_pq_forms();
    crate::bytes::lemma_le_bytes_len(0x83c95aec, 4);
    crate::tl::lemma_tl_header_len(3);
    crate::tl::lemma_tl_header_len(2);
}

/// The client's secrets as they are padded and encrypted for the server.
pub fn client_secrets(nonce: &[u8; 16], server_nonce: &[u8; 16], new_nonce: &[u8; 32]) -> (r: Vec<u8>)
    ensures
        r@ == secrets_form(nonce@, server_nonce@, new_nonce@),
{
    crate::tl::encode_pq_inner_data(
        crate::bignum::big_endian_minimal(PQ),
        crate::bignum::big_endian_minimal(P),
        crate::bignum::big_endian_minimal(Q),
        nonce,
        server_nonce,
        new_nonce,
    )
}

impl SecretsPadded {
    /// The same secrets with a fresh random key, and the cipher run of that attempt.
    pub fn attempt(self) -> (r: (SecretsPadded, CipherJob))
        ensures
            is_padding_job(r.1, r.0),
            r.0 == (SecretsPadded { temp_key: r.0.temp_key, ..self }),
    {
        let temp_key: [u8; 32] = crate::random::random_array::<32>();
        self.attempt_with(temp_key)
    }

    /// The same secrets with the given key, and the cipher run of that attempt.
    pub fn attempt_with(self, temp_key: [u8; 32]) -> (r: (SecretsPadded, CipherJob))
        ensures
            r.0 == (SecretsPadded { temp_key, ..self }),
            is_padding_job(r.1, r.0),
    {
        let data: Vec<u8> = crate::rsa_pad::make_inner_block(&temp_key, self.padded.as_slice());
        let iv: [u8; 32] = [0u8; 32];
        assert(iv@ =~= zeros(32));
        (SecretsPadded { temp_key, ..self }, CipherJob { key: temp_key, iv, data })
    }
}

impl KeyNamed {
    /// Takes the fingerprint that was computed of the loaded key, and begins to pad
    /// the secrets with the given second nonce, padding and key.
    pub fn on_fingerprint_with(self, computed: u64, new_nonce: [u8; 32], padding: &[u8], temp_key: [u8; 32]) -> (r:
        Result<(SecretsPadded, CipherJob), HandshakeError>)
        requires
            padding@.len() == crate::rsa_pad::PADDED - SECRETS,
        ensures
            if computed == crate::server_key::SERVER_FINGERPRINT {
                &&& r matches Ok((next, job))
                &&& next.nonce == self.nonce
                &&& next.server_nonce == self.server_nonce
                &&& next.new_nonce == new_nonce
                &&& next.fingerprint == self.fingerprint
                &&& next.key == self.key
                &&& next.padded@ == secrets_form(self.nonce@, self.server_nonce@, new_nonce@) + padding@
                &&& next.temp_key == temp_key
                &&& is_padding_job(job, next)
            } else {
                r == Err::<(SecretsPadded, CipherJob), HandshakeError>(
                    HandshakeError::Key(KeyError::ComputedMismatch { computed }),
                )
            },
    {
        match crate::server_key::confirm_fingerprint(computed) {
            Ok(_) => {},
            Err(e) => return Err(HandshakeError::Key(e)),
        }
        let data: Vec<u8> = client_secrets(&self.nonce, &self.server_nonce, &new_nonce);
        proof {
            secrets_can_be_padded(self.nonce@, self.server_nonce@, new_nonce@);
        }
        let padded: Vec<u8> = match crate::rsa_pad::pad_data_with(data.as_slice(), padding) {
            Ok(v) => v,
            Err(_) => return Err(HandshakeError::DataTooLong),
        };
        let state = SecretsPadded {
            nonce: self.nonce,
            server_nonce: self.server_nonce,
            new_nonce,
            fingerprint: self.fingerprint,
            key: self.key,
            padded,
            temp_key,
        };
        Ok(state.attempt_with(temp_key))
    }

    /// Takes the fingerprint that was computed of the loaded key, draws the
    /// client's second nonce and begins to pad the secrets.
    pub fn on_fingerprint(self, computed: u64) -> (r: Result<(SecretsPadded, CipherJob), HandshakeError>)
        ensures
            match r {
                Ok((next, job)) => {
                    &&& computed == crate::server_key::SERVER_FINGERPRINT
                    &&& next.nonce == self.nonce
                    &&& next.server_nonce == self.server_nonce
                    &&& next.fingerprint == self.fingerprint
                    &&& next.key == self.key
                    &&& next.padded@.len() == crate::rsa_pad::PADDED
                    &&& next.padded@.subrange(0, SECRETS as int) == secrets_form(
                        next.nonce@,
                        next.server_nonce@,
                        next.new_nonce@,
                    )
                    &&& is_padding_job(job, next)
                },
                Err(e) => {
                    &&& computed != crate::server_key::SERVER_FINGERPRINT
                    &&& e == HandshakeError::Key(KeyError::ComputedMismatch { computed })
                },
            },
    {
        let new_nonce: [u8; 32] = crate::random::random_array::<32>();
        let padding: Vec<u8> = crate::random::random_bytes(crate::rsa_pad::PADDED - SECRETS);
        let temp_key: [u8; 32] = crate::random::random_array::<32>();
        proof {
            let secrets = secrets_form(self.nonce@, self.server_nonce@, new_nonce@);
            secrets_can_be_padded(self.nonce@, self.server_nonce@, new_nonce@);
            assert((secrets + padding@).subrange(0, SECRETS as int) =~= secrets);
        }
        self.on_fingerprint_with(computed, new_nonce, padding.as_slice(), temp_key)
    }
}

/// The second message: the nonces, the factors, the key's fingerprint and the
/// encrypted secrets.
pub open spec fn req_dh_params_form(
    nonce: Seq<u8>,
    server_nonce: Seq<u8>,
    fingerprint: u64,
    secrets: Seq<u8>,
) -> Seq<u8> {
    let head = le_u32(0xd712e4be) + nonce + server_nonce;
    let factors = crate::tl::tl_appended(crate::tl::tl_appended(head, minimal_u64(P)), minimal_u64(Q));
    crate::tl::tl_appended(factors + le_bytes(fingerprint as nat, 8), secrets)
}

/// The second message.
pub fn req_dh_params(nonce: &[u8; 16], server_nonce: &[u8; 16], fingerprint: u64, secrets: &[u8]) -> (r: Vec<u8>)
    ensures
        r@ == req_dh_params_form(nonce@, server_nonce@, fingerprint, secrets@),
{
    let mut body: Vec<u8> = Vec::new();
    crate::bytes::push_u32_le(&mut body, crate::tl::req_dh_params_id());
    crate::bytes::push_slice(&mut body, nonce.as_slice());
    crate::bytes::push_slice(&mut body, server_nonce.as_slice());
    assert(body@ =~= le_u32(0xd712e4be) + nonce@ + server_nonce@);
    let p_bytes: Vec<u8> = crate::bignum::big_endian_minimal(P);
    let q_bytes: Vec<u8> = crate::bignum::big_endian_minimal(Q);
    crate::tl::serialize_bytes_tl(&mut body, p_bytes.as_slice());
    crate::tl::serialize_bytes_tl(&mut body, q_bytes.as_slice());
    crate::bytes::push_le(&mut body, fingerprint, 8);
    crate::tl::serialize_bytes_tl(&mut body, secrets);
    body
}

/// The second message that an encrypted inner block leads to; nothing where the
/// block does not fit under the key's modulus.
pub open spec fn second_message_of(state: SecretsPadded, encrypted: Seq<u8>) -> Option<Seq<u8>> {
    match crate::rsa_pad::rsa_of(
        be_value(crate::rsa_pad::outer_block(state.temp_key@, encrypted)),
        be_value(state.key.n@),
        be_value(state.key.e@),
    ) {
        Some(secrets) => Some(req_dh_params_form(state.nonce@, state.server_nonce@, state.fingerprint, secrets)),
        None => None,
    }
}

/// What comes of an attempt to encrypt the padded secrets.
pub enum RsaStep {
    /// The block did not fit under the key's modulus: another attempt.
    Retry(SecretsPadded, CipherJob),
    /// The second message is ready.
    Send(DhParamsAsked, Vec<u8>),
}

impl SecretsPadded {
    /// Takes the inner block after the cipher, covers it with RSA and makes the
    /// second message; tries again with a fresh random key where the block does
    /// not fit under the key's modulus.
    pub fn on_inner_block(self, encrypted: &[u8], ids: &mut MsgIds) -> (r: Result<RsaStep, HandshakeError>)
        ensures
            match crate::rsa_pad::rsa_of(
                be_value(crate::rsa_pad::outer_block(self.temp_key@, encrypted@)),
                be_value(self.key.n@),
                be_value(self.key.e@),
            ) {
                None => {
                    &&& r matches Ok(RsaStep::Retry(next, job)) && is_padding_job(job, next) && next == (
                    SecretsPadded { temp_key: next.temp_key, ..self })
                    &&& *final(ids) == *old(ids)
                },
                Some(secrets) => match r {
                    Ok(RsaStep::Send(next, packet)) => {
                        &&& next == (DhParamsAsked {
                            nonce: self.nonce,
                            server_nonce: self.server_nonce,
                            new_nonce: self.new_nonce,
                        })
                        &&& sent(
                            packet@,
                            req_dh_params_form(self.nonce@, self.server_nonce@, self.fingerprint, secrets),
                            *old(ids),
                            *final(ids),
                        )
                    },
                    Ok(RsaStep::Retry(_, _)) => false,
                    Err(e) => no_id(e, *old(ids), *final(ids)),
                },
            },
            match r {
                Ok(RsaStep::Retry(_, _)) => second_message_of(self, encrypted@) is None,
                Ok(RsaStep::Send(_, packet)) => second_message_of(self, encrypted@) matches Some(message) && packet@
                    == plaintext_form(message, final(ids).plaintext),
                Err(_) => second_message_of(self, encrypted@) is Some,
            },
    {
        let block: Vec<u8> = crate::rsa_pad::make_outer_block(&self.temp_key, encrypted);
        match crate::rsa_pad::rsa_encrypt_block(block.as_slice(), &self.key) {
            None => {
                let (next, job) = self.attempt();
                Ok(RsaStep::Retry(next, job))
            },
            Some(secrets) => {
                let body: Vec<u8> = req_dh_params(
                    &self.nonce,
                    &self.server_nonce,
                    self.fingerprint,
                    secrets.as_slice(),
                );
                match send(body.as_slice(), ids) {
                    Ok(packet) => Ok(
                        RsaStep::Send(
                            DhParamsAsked {
                                nonce: self.nonce,
                                server_nonce: self.server_nonce,
                                new_nonce: self.new_nonce,
                            },
                            packet,
                        ),
                    ),
                    Err(e) => Err(e),
                }
            },
        }
    }
}

/// What the second answer gives to a client with the given nonces: the
/// parameters of the exchange, still encrypted.
pub open spec fn dh_params_verdict(nonce: Seq<u8>, server_nonce: Seq<u8>, packet: Seq<u8>) -> Result<
    Seq<u8>,
    HandshakeError,
> {
    match plaintext_of(packet) {
        Err(e) => Err(HandshakeError::Plaintext(e)),
        Ok((data, _)) => match crate::tl::server_dh_params_of(data) {
            Err(e) => Err(HandshakeError::DhParamsUnreadable(e)),
            Ok(crate::tl::ServerDhParamsFields::Refused { .. }) => Err(HandshakeError::DhParamsRefused),
            Ok(crate::tl::ServerDhParamsFields::Granted { nonce: n, server_nonce: sn, encrypted_answer }) => {
                if n != nonce || sn != server_nonce {
                    Err(HandshakeError::DhParamsNonceMismatch)
                } else {
                    Ok(encrypted_answer)
                }
            },
        },
    }
}

/// What a second answer gives to the cipher: the temporary key and vector, and the
/// parameters that are encrypted with them.
pub open spec fn to_be_decrypted(state: DhParamsAsked, packet: Seq<u8>) -> Option<(Seq<u8>, Seq<u8>, Seq<u8>)> {
    match dh_params_verdict(state.nonce@, state.server_nonce@, packet) {
        Ok(answer) => Some(
            (
                crate::dh::temp_key(state.server_nonce@, state.new_nonce@),
                crate::dh::temp_iv(state.server_nonce@, state.new_nonce@),
                answer,
            ),
        ),
        Err(_) => None,
    }
}

impl DhParamsAsked {
    /// Takes the second answer and derives the key under which its contents are
    /// encrypted.
    pub fn on_dh_params(self, payload: &[u8]) -> (r: Result<(DhParamsGiven, CipherJob), HandshakeError>)
        ensures
            match dh_params_verdict(self.nonce@, self.server_nonce@, payload@) {
                Err(e) => r == Err::<(DhParamsGiven, CipherJob), HandshakeError>(e),
                Ok(answer) => {
                    &&& r matches Ok((next, job))
                    &&& next.nonce == self.nonce
                    &&& next.server_nonce == self.server_nonce
                    &&& next.new_nonce == self.new_nonce
                    &&& next.tmp_key@ == crate::dh::temp_key(self.server_nonce@, self.new_nonce@)
                    &&& next.tmp_iv@ == crate::dh::temp_iv(self.server_nonce@, self.new_nonce@)
                    &&& job.key == next.tmp_key
                    &&& job.iv == next.tmp_iv
                    &&& job.data@ == answer
                },
            },
            to_be_decrypted(self, payload@) == match r {
                Ok((_, job)) => Some((job.key@, job.iv@, job.data@)),
                Err(_) => None::<(Seq<u8>, Seq<u8>, Seq<u8>)>,
            },
    {
        let (data, _msg_id) = match crate::packet::parse_plaintext(payload) {
            Ok(v) => v,
            Err(e) => return Err(HandshakeError::Plaintext(e)),
        };
        let params: ServerDhParams = match crate::tl::decode_server_dh_params(data.as_slice()) {
            Ok(v) => v,
            Err(e) => return Err(HandshakeError::DhParamsUnreadable(e)),
        };
        match params {
            ServerDhParams::Refused { .. } => Err(HandshakeError::DhParamsRefused),
            ServerDhParams::Granted { nonce, server_nonce, encrypted_answer } => {
                if !crate::bytes::same_bytes(nonce.as_slice(), self.nonce.as_slice())
                    || !crate::bytes::same_bytes(server_nonce.as_slice(), self.server_nonce.as_slice()) {
                    return Err(HandshakeError::DhParamsNonceMismatch);
                }
                let (tmp_key, tmp_iv) = crate::dh::derive_temp_key_iv(&self.server_nonce, &self.new_nonce);
                let next = DhParamsGiven {
                    nonce: self.nonce,
                    server_nonce: self.server_nonce,
                    new_nonce: self.new_nonce,
                    tmp_key,
                    tmp_iv,
                };
                Ok((next, CipherJob { key: tmp_key, iv: tmp_iv, data: encrypted_answer }))
            },
        }
    }
}

/// The digest that stands in front of the decrypted parameters.
pub open spec fn inner_digest(plain: Seq<u8>) -> Seq<u8> {
    plain.subrange(0, 20)
}

/// What follows the digest.
pub open spec fn inner_rest(plain: Seq<u8>) -> Seq<u8> {
    plain.subrange(20, plain.len() as int)
}

/// The parameters in the decrypted second answer, which must have the digest in
/// front of them. Bytes behind the parameters are filling.
pub open spec fn dh_inner_verdict(plain: Seq<u8>) -> Result<crate::tl::ServerDhInnerFields, HandshakeError> {
    if plain.len() < 20 {
        Err(HandshakeError::DhInnerTooShort)
    } else {
        match crate::tl::server_dh_inner_of(inner_rest(plain)) {
            Err(e) => Err(HandshakeError::DhInnerUnreadable(e)),
            Ok(m) => if sha1_of(inner_rest(plain).subrange(0, m.consumed))@ != inner_digest(plain) {
                Err(HandshakeError::DhInnerHashMismatch)
            } else {
                Ok(m)
            },
        }
    }
}

/// The parameters in the decrypted second answer.
pub fn check_dh_inner(plain: &[u8]) -> (r: Result<ServerDhInner, HandshakeError>)
    ensures
        match r {
            Ok(m) => dh_inner_verdict(plain@) == Ok::<crate::tl::ServerDhInnerFields, HandshakeError>(m@),
            Err(e) => dh_inner_verdict(plain@) == Err::<crate::tl::ServerDhInnerFields, HandshakeError>(e),
        },
{
    if plain.len() < 20 {
        return Err(HandshakeError::DhInnerTooShort);
    }
    let expected: Vec<u8> = crate::bytes::copy_range(plain, 0, 20);
    let rest: Vec<u8> = crate::bytes::copy_range(plain, 20, plain.len());
    let m: ServerDhInner = match crate::tl::decode_server_dh_inner(rest.as_slice()) {
        Ok(v) => v,
        Err(e) => return Err(HandshakeError::DhInnerUnreadable(e)),
    };
    let inner: Vec<u8> = crate::bytes::copy_range(rest.as_slice(), 0, m.consumed);
    let digest: [u8; 20] = crate::digest::sha1(inner.as_slice());
    if !crate::bytes::same_bytes(digest.as_slice(), expected.as_slice()) {
        return Err(HandshakeError::DhInnerHashMismatch);
    }
    Ok(m)
}

/// The generator as an unsigned number of 64 bits; a negative one stands for its
/// bit pattern.
pub open spec fn generator_of(g: i32) -> nat {
    if g >= 0 {
        g as nat
    } else {
        (g + 0x1_0000_0000_0000_0000) as nat
    }
}

/// The power that the client sends: `g^b mod p`.
pub open spec fn client_power_of(g: i32, b: Seq<u8>, p: Seq<u8>) -> nat {
    (pow(generator_of(g) as int, be_value(b)) % (be_value(p) as int)) as nat
}

/// What is wrong with the powers of the exchange, if anything: the server's is
/// looked at first.
pub open spec fn exchange_fault(g: i32, g_a: Seq<u8>, b: Seq<u8>, p: Seq<u8>) -> Option<GroupError> {
    match power_fault(be_value(g_a), be_value(p)) {
        Some(e) => Some(e),
        None => power_fault(client_power_of(g, b, p), be_value(p)),
    }
}

/// The client's power, in the shortest big-endian form, where both powers of the
/// exchange are in order.
pub fn client_power(g: i32, g_a: &[u8], b: &[u8], p: &[u8]) -> (r: Result<Vec<u8>, GroupError>)
    ensures
        match r {
            Ok(g_b) => {
                &&& exchange_fault(g, g_a@, b@, p@) is None
                &&& g_b@ == be_minimal(client_power_of(g, b@, p@))
            },
            Err(e) => exchange_fault(g, g_a@, b@, p@) == Some(e),
        },
{
    match crate::dh::validate_g_a(g_a, p) {
        Ok(_) => {},
        Err(e) => return Err(e),
    }
    proof {
        assert(g >= 0 ==> (g as u64) as int == g as int) by (bit_vector);
        assert(g < 0 ==> (g as u64) as int == g as int + 0x1_0000_0000_0000_0000) by (bit_vector);
    }
    let g_bytes: Vec<u8> = crate::bignum::big_endian_minimal(g as u64);
    let g_b: Vec<u8> = crate::bignum::mod_pow(g_bytes.as_slice(), b, p);
    proof {
        crate::bignum::minimal_form_is_unique(g_b@);
    }
    match crate::dh::validate_g_a(g_b.as_slice(), p) {
        Ok(_) => Ok(g_b),
        Err(e) => Err(e),
    }
}

/// The number of bytes that bring a length of `n` to a multiple of sixteen.
pub open spec fn block_gap(n: int) -> int {
    (16 - n % 16) % 16
}

/// The client's power with its digest in front, before encryption and without
/// filling.
pub open spec fn client_dh_block(nonce: Seq<u8>, server_nonce: Seq<u8>, g_b: Seq<u8>) -> Seq<u8> {
    let form = crate::tl::client_dh_inner_form(nonce, server_nonce, 0, g_b);
    sha1_of(form)@ + form
}

/// `digest`, `form` and as many bytes of `filling` as bring them to a multiple of
/// sixteen.
pub fn filled_block(digest: &[u8; 20], form: &[u8], filling: &[u8; 15]) -> (r: Vec<u8>)
    requires
        form@.len() + 36 <= usize::MAX,
    ensures
        r@ == digest@ + form@ + filling@.take(block_gap((20 + form@.len()) as int)),
{
    let gap: usize = (16 - (20 + form.len()) % 16) % 16;
    let tail: Vec<u8> = crate::bytes::copy_range(filling.as_slice(), 0, gap);
    let mut r: Vec<u8> = Vec::new();
    crate::bytes::push_slice(&mut r, digest.as_slice());
    crate::bytes::push_slice(&mut r, form);
    crate::bytes::push_slice(&mut r, tail.as_slice());
    assert(tail@ =~= filling@.take(gap as int));
    assert(r@ =~= digest@ + form@ + tail@);
    r
}

impl PowerChosen {
    /// Whether the modulus is greater than the server's power, as it is once the
    /// power was checked.
    pub open spec fn wf(self) -> bool {
        be_value(self.g_a@) < be_value(self.p@)
    }
}

/// Whether `job` encrypts the client's power `g_b`, filled up to a multiple of
/// sixteen from `filling`, under the temporary key of `state`.
pub open spec fn is_power_job(job: CipherJob, state: DhParamsGiven, g_b: Seq<u8>, filling: Seq<u8>) -> bool {
    let block = client_dh_block(state.nonce@, state.server_nonce@, g_b);
    &&& job.key == state.tmp_key
    &&& job.iv == state.tmp_iv
    &&& job.data@ == block + filling.take(block_gap(block.len() as int))
}

impl DhParamsGiven {
    /// Takes the parameters of the exchange, the client's exponent `b` and bytes to
    /// fill up with, and makes the client's power ready for the cipher.
    pub fn choose_power(self, m: &ServerDhInner, b: Vec<u8>, filling: &[u8; 15]) -> (r: Result<
        (PowerChosen, CipherJob),
        HandshakeError,
    >)
        ensures
            match exchange_fault(m.g, m.g_a@, b@, m.dh_prime@) {
                Some(e) => r == Err::<(PowerChosen, CipherJob), HandshakeError>(HandshakeError::Group(e)),
                None => {
                    &&& r matches Ok((next, job))
                    &&& next.nonce == self.nonce
                    &&& next.server_nonce == self.server_nonce
                    &&& next.new_nonce == self.new_nonce
                    &&& next.p@ == m.dh_prime@
                    &&& next.g_a@ == m.g_a@
                    &&& next.b == b
                    &&& next.wf()
                    &&& is_power_job(job, self, be_minimal(client_power_of(m.g, b@, m.dh_prime@)), filling@)
                },
            },
    {
        let g_b: Vec<u8> = match client_power(m.g, m.g_a.as_slice(), b.as_slice(), m.dh_prime.as_slice()) {
            Ok(v) => v,
            Err(e) => return Err(HandshakeError::Group(e)),
        };
        proof {
            crate::bignum::be_minimal_is_minimal(client_power_of(m.g, b@, m.dh_prime@));
            crate::bignum::lemma_minimal_length(g_b@, 256);
            crate::bignum::lemma_pow256_is_pow2(256);
            crate::bytes::lemma_le_bytes_len(0x6643b654, 4);
            crate::bytes::lemma_le_bytes_len(0, 8);
            crate::tl::lemma_tl_header_len(g_b@.len());
        }
        let ghost g_b_bytes = g_b@;
        let form: Vec<u8> = crate::tl::encode_client_dh_inner(&self.nonce, &self.server_nonce, 0, g_b);
        let digest: [u8; 20] = crate::digest::sha1(form.as_slice());
        let data: Vec<u8> = filled_block(&digest, form.as_slice(), filling);
        assert(digest@ + form@ =~= client_dh_block(self.nonce@, self.server_nonce@, g_b_bytes));
        let next = PowerChosen {
            nonce: self.nonce,
            server_nonce: self.server_nonce,
            new_nonce: self.new_nonce,
            p: crate::bytes::copy_range(m.dh_prime.as_slice(), 0, m.dh_prime.len()),
            g_a: crate::bytes::copy_range(m.g_a.as_slice(), 0, m.g_a.len()),
            b,
        };
        assert(next.p@ =~= m.dh_prime@);
        assert(next.g_a@ =~= m.g_a@);
        Ok((next, CipherJob { key: self.tmp_key, iv: self.tmp_iv, data }))
    }

    /// Takes the decrypted second answer, draws the client's exponent and the
    /// filling, and makes the client's power ready for the cipher.
    pub fn on_dh_answer(self, plain: &[u8]) -> (r: Result<(PowerChosen, CipherJob), HandshakeError>)
        ensures
            match dh_inner_verdict(plain@) {
                Err(e) => r == Err::<(PowerChosen, CipherJob), HandshakeError>(e),
                Ok(m) => match r {
                    Ok((next, job)) => {
                        &&& exchange_fault(m.g, m.g_a, next.b@, m.dh_prime) is None
                        &&& next.nonce == self.nonce
                        &&& next.server_nonce == self.server_nonce
                        &&& next.new_nonce == self.new_nonce
                        &&& next.p@ == m.dh_prime
                        &&& next.g_a@ == m.g_a
                        &&& next.b@.len() == 256
                        &&& next.wf()
                        &&& exists|filling: Seq<u8>|
                            filling.len() == 15 && #[trigger] is_power_job(
                                job,
                                self,
                                be_minimal(client_power_of(m.g, next.b@, m.dh_prime)),
                                filling,
                            )
                    },
                    Err(e) => exists|b: Seq<u8>|
                        {
                            &&& b.len() == 256
                            &&& #[trigger] exchange_fault(m.g, m.g_a, b, m.dh_prime) is Some
                            &&& e == HandshakeError::Group(
                                exchange_fault(m.g, m.g_a, b, m.dh_prime)->0,
                            )
                        },
                },
            },
    {
        let m: ServerDhInner = match check_dh_inner(plain) {
            Ok(v) => v,
            Err(e) => return Err(e),
        };
        let b: Vec<u8> = crate::random::random_bytes(256);
        let filling: [u8; 15] = crate::random::random_array::<15>();
        self.choose_power(&m, b, &filling)
    }
}

/// The third message: the nonces and the client's encrypted power.
pub open spec fn set_client_dh_params_form(nonce: Seq<u8>, server_nonce: Seq<u8>, encrypted: Seq<u8>) -> Seq<u8> {
    crate::tl::tl_appended(le_u32(0xf5045f1f) + nonce + server_nonce, encrypted)
}

/// The third message.
pub fn set_client_dh_params(nonce: &[u8; 16], server_nonce: &[u8; 16], encrypted: &[u8]) -> (r: Vec<u8>)
    ensures
        r@ == set_client_dh_params_form(nonce@, server_nonce@, encrypted@),
{
    let mut body: Vec<u8> = Vec::new();
    crate::bytes::push_u32_le(&mut body, crate::tl::set_client_dh_params_id());
    crate::bytes::push_slice(&mut body, nonce.as_slice());
    crate::bytes::push_slice(&mut body, server_nonce.as_slice());
    assert(body@ =~= le_u32(0xf5045f1f) + nonce@ + server_nonce@);
    crate::tl::serialize_bytes_tl(&mut body, encrypted);
    body
}

/// What the third answer holds.
pub open spec fn dh_gen_in(packet: Seq<u8>) -> Result<crate::tl::DhGenFields, HandshakeError> {
    match plaintext_of(packet) {
        Err(e) => Err(HandshakeError::Plaintext(e)),
        Ok((data, _)) => match crate::tl::dh_gen_of(data) {
            Err(e) => Err(HandshakeError::DhGenUnreadable(e)),
            Ok(m) => Ok(m),
        },
    }
}

/// The key that the third answer must prove.
pub open spec fn agreed_key(state: PowerChosen) -> Seq<u8> {
    crate::dh::shared_key_of(be_value(state.g_a@), be_value(state.b@), be_value(state.p@))
}

/// Whether the third answer's contents hold the client's nonces.
pub open spec fn answers(m: crate::tl::DhGenFields, state: PowerChosen) -> bool {
    m.nonce == state.nonce@ && m.server_nonce == state.server_nonce@
}

/// Whether the third answer's contents prove the key that the client computes.
pub open spec fn proves_key(m: crate::tl::DhGenFields, state: PowerChosen) -> bool {
    m.new_nonce_hash == crate::dh::new_nonce_hash(state.new_nonce@, agreed_key(state), 1)
}

/// Whether a packet is a third answer that ends the exchange with a key: one that
/// accepts the client's power, holds both nonces and proves the key.
pub open spec fn ends_with_a_key(packet: Seq<u8>, state: PowerChosen) -> bool {
    dh_gen_in(packet) matches Ok(m) && m.verdict == DhGen::Done && answers(m, state) && proves_key(m, state)
}

impl PowerChosen {
    /// Takes the client's power after the cipher and makes the third message.
    pub fn on_power_block(&self, encrypted: &[u8], ids: &mut MsgIds) -> (r: Result<Vec<u8>, HandshakeError>)
        ensures
            match r {
                Ok(packet) => sent(
                    packet@,
                    set_client_dh_params_form(self.nonce@, self.server_nonce@, encrypted@),
                    *old(ids),
                    *final(ids),
                ),
                Err(e) => no_id(e, *old(ids), *final(ids)),
            },
    {
        let body: Vec<u8> = set_client_dh_params(&self.nonce, &self.server_nonce, encrypted);
        send(body.as_slice(), ids)
    }

    /// Takes the third answer, computes the key and checks the server's proof of it.
    pub fn on_dh_gen(self, payload: &[u8]) -> (r: Result<KeyAgreed, HandshakeError>)
        requires
            self.wf(),
        ensures
            match dh_gen_in(payload@) {
                Err(e) => r == Err::<KeyAgreed, HandshakeError>(e),
                Ok(m) => if m.verdict != DhGen::Done {
                    r matches Err(HandshakeError::DhGenRefused(answer)) && answer@ == m
                } else if !answers(m, self) {
                    r == Err::<KeyAgreed, HandshakeError>(HandshakeError::DhGenNonceMismatch)
                } else if !proves_key(m, self) {
                    r == Err::<KeyAgreed, HandshakeError>(HandshakeError::KeyProofMismatch)
                } else {
                    &&& r matches Ok(next)
                    &&& next.auth_key@ == agreed_key(self)
                    &&& next.auth_key_id == crate::dh::key_id_form(sha1_of(agreed_key(self))@)
                    &&& next.salt == crate::dh::salt_of(self.new_nonce@, self.server_nonce@)
                    &&& next.session_id@ == crate::dh::session_id_of(self.new_nonce@, self.server_nonce@)
                },
            },
            r is Ok <==> ends_with_a_key(payload@, self),
    {
        let (data, _msg_id) = match crate::packet::parse_plaintext(payload) {
            Ok(v) => v,
            Err(e) => return Err(HandshakeError::Plaintext(e)),
        };
        let answer: DhGenAnswer = match crate::tl::decode_dh_gen(data.as_slice()) {
            Ok(v) => v,
            Err(e) => return Err(HandshakeError::DhGenUnreadable(e)),
        };
        match answer.verdict {
            DhGen::Done => {},
            _ => return Err(HandshakeError::DhGenRefused(answer)),
        }
        if !crate::bytes::same_bytes(answer.nonce.as_slice(), self.nonce.as_slice())
            || !crate::bytes::same_bytes(answer.server_nonce.as_slice(), self.server_nonce.as_slice()) {
            return Err(HandshakeError::DhGenNonceMismatch);
        }
        let auth_key: [u8; 256] = crate::dh::shared_key(self.g_a.as_slice(), self.b.as_slice(), self.p.as_slice());
        let expected: [u8; 16] = crate::dh::compute_new_nonce_hash(&self.new_nonce, &auth_key, 1);
        if !crate::bytes::same_bytes(answer.new_nonce_hash.as_slice(), expected.as_slice()) {
            return Err(HandshakeError::KeyProofMismatch);
        }
        let auth_key_id: i64 = crate::dh::auth_key_id(&auth_key);
        let salt: i64 = crate::dh::compute_salt(&self.new_nonce, &self.server_nonce);
        let session_id: [u8; 8] = crate::dh::compute_session_id(&self.new_nonce, &self.server_nonce);
        Ok(KeyAgreed { auth_key, auth_key_id, salt, session_id })
    }
}

impl KeyAgreed {
    /// Takes out of the configuration packet what is left to decrypt.
    pub fn receive_vpn_config(&self, payload: &[u8]) -> (r: Result<Sealed, HandshakeError>)
        ensures
            match crate::packet::envelope_of(payload@, self.auth_key_id) {
                Ok((msg_key, data)) => r matches Ok(sealed) && sealed.msg_key@ == msg_key && sealed.data@ == data,
                Err(e) => r == Err::<Sealed, HandshakeError>(HandshakeError::Envelope(e)),
            },
    {
        match crate::packet::open_envelope(payload, self.auth_key_id) {
            Ok(sealed) => Ok(sealed),
            Err(e) => Err(HandshakeError::Envelope(e)),
        }
    }

    /// Whether the body that a configuration message of the session announces
    /// lies within the message.
    pub fn config_length_fits(&self, plain: &[u8]) -> (r: bool)
        ensures
            r == crate::packet::config_fits(plain@, self.session_id@),
    {
        crate::packet::config_length_fits(plain, &self.session_id)
    }

    /// The body of the decrypted configuration message.
    pub fn vpn_config_body(&self, plain: &[u8]) -> (r: Result<Vec<u8>, HandshakeError>)
        requires
            crate::packet::config_fits(plain@, self.session_id@),
        ensures
            match crate::packet::config_body_of(plain@, self.session_id@) {
                Ok(body) => r matches Ok(v) && v@ == body,
                Err(e) => r == Err::<Vec<u8>, HandshakeError>(HandshakeError::Message(e)),
            },
    {
        match crate::packet::open_config_message(plain, &self.session_id) {
            Ok(body) => Ok(body),
            Err(e) => Err(HandshakeError::Message(e)),
        }
    }

    /// The session with the agreed key.
    pub fn into_session(self) -> (r: VpnSession)
        ensures
            r == (VpnSession {
                auth_key: self.auth_key,
                auth_key_id: self.auth_key_id,
                salt: self.salt,
                session_id: self.session_id,
                server_seq_no: 1,
            }),
    {
        VpnSession::new(self.auth_key, self.auth_key_id, self.salt, self.session_id)
    }
}

} // verus!
