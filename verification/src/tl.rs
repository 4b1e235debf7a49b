//! The binary form of the messages of the key exchange, after the TL scheme:
//! little-endian numbers, and byte strings with a length in front and zero
//! bytes up to the next multiple of four behind.

use grammers_tl_types::deserialize::Error;
use grammers_tl_types::{enums, functions, types};
use grammers_tl_types::{Cursor, Deserializable, Identifiable, Serializable};
use vstd::prelude::*;

use crate::bytes::{i32_of_le, i64_of_le, le_bytes, le_i64, le_u32, le_value, zeros};

verus! {

/// The number of zero bytes that bring a length of `n` to a multiple of four.
pub open spec fn align_gap(n: nat) -> nat {
    ((4 - n % 4) % 4) as nat
}

/// What stands before a byte string of length `n`: one byte for a short one,
/// else the byte 254 and the three low bytes of the length.
pub open spec fn tl_header(n: nat) -> Seq<u8> {
    if n < 254 {
        seq![n as u8]
    } else {
        seq![254u8] + le_bytes(n, 3)
    }
}

/// `buf` with the byte string `b` behind it, filled up with zero bytes to a
/// multiple of four.
pub open spec fn tl_appended(buf: Seq<u8>, b: Seq<u8>) -> Seq<u8> {
    let s = buf + tl_header(b.len()) + b;
    s + zeros(align_gap(s.len()))
}

/// The form of the byte string `b` alone.
pub open spec fn tl_bytes(b: Seq<u8>) -> Seq<u8> {
    tl_appended(Seq::empty(), b)
}

/// The byte string that stands at `at` in `s`, and the place behind it and its
/// filling; nothing where `s` ends before that place.
pub open spec fn tl_bytes_at(s: Seq<u8>, at: int) -> Option<(Seq<u8>, int)> {
    if at + 1 > s.len() || (s[at] == 254 && at + 4 > s.len()) {
        None
    } else {
        let start = if s[at] == 254 { at + 4 } else { at + 1 };
        let len = if s[at] == 254 { le_value(s.subrange(at + 1, at + 4)) as int } else { s[at] as int };
        let next = start + len + align_gap((start + len - at) as nat);
        if next > s.len() {
            None
        } else {
            Some((s.subrange(start, start + len), next))
        }
    }
}

/// Appends the byte string `bytes` to `buf`, with its length in front and zero
/// bytes behind up to a multiple of four.
pub fn serialize_bytes_tl(buf: &mut Vec<u8>, bytes: &[u8])
    ensures
        final(buf)@ == tl_appended(old(buf)@, bytes@),
{
    let len: usize = bytes.len();
    let ghost before = buf@;
    if len < 254 {
        buf.push(len as u8);
    } else {
        buf.push(254);
        buf.push((len % 256) as u8);
        buf.push((len / 256 % 256) as u8);
        buf.push((len / 65536 % 256) as u8);
        proof {
            reveal_with_fuel(le_bytes, 4);
            assert(len / 256 / 256 == len / 65536);
            assert(le_bytes(len as nat, 3) =~= seq![
                (len % 256) as u8,
                (len / 256 % 256) as u8,
                (len / 65536 % 256) as u8,
            ]);
        }
    }
    assert(buf@ =~= before + tl_header(len as nat));
    crate::bytes::push_slice(buf, bytes);
    let gap: usize = (4 - (buf.len() % 4)) % 4;
    crate::bytes::push_zeros(buf, gap);
}

pub proof fn lemma_tl_header_len(n: nat)
    ensures
        tl_header(n).len() == if n < 254 { 1nat } else { 4nat },
{
    crate::bytes::lemma_le_bytes_len(n, 3);
}

/// Appending keeps what was there, and leaves a length that is a multiple of four.
pub proof fn tl_appended_is_aligned(buf: Seq<u8>, b: Seq<u8>)
    ensures
        tl_appended(buf, b).len() % 4 == 0,
        tl_appended(buf, b).len() >= buf.len() + b.len(),
        tl_appended(buf, b).subrange(0, buf.len() as int) == buf,
{
    lemma_tl_header_len(b.len());
    assert(tl_appended(buf, b).subrange(0, buf.len() as int) =~= buf);
}

/// Behind a buffer whose length is a multiple of four, a byte string has the
/// same form as alone.
pub proof fn tl_appended_to_aligned(buf: Seq<u8>, b: Seq<u8>)
    requires
        buf.len() % 4 == 0,
    ensures
        tl_appended(buf, b) == buf + tl_bytes(b),
        tl_bytes(b).len() % 4 == 0,
{
    lemma_tl_header_len(b.len());
    assert(Seq::<u8>::empty() + tl_header(b.len()) + b =~= tl_header(b.len()) + b);
    assert(tl_appended(buf, b) =~= buf + tl_bytes(b));
}

/// A byte string that was appended at a multiple of four is read back whole,
/// whatever follows it, as long as its length fits in three bytes.
pub proof fn tl_bytes_read_back(buf: Seq<u8>, b: Seq<u8>, rest: Seq<u8>)
    requires
        buf.len() % 4 == 0,
        b.len() < 0x100_0000,
    ensures
        tl_bytes_at(buf + tl_bytes(b) + rest, buf.len() as int) == Some(
            (b, (buf.len() + tl_bytes(b).len()) as int),
        ),
{
    let s = buf + tl_bytes(b) + rest;
    let at = buf.len() as int;
    let head = tl_header(b.len());
    lemma_tl_header_len(b.len());
    tl_appended_to_aligned(Seq::empty(), b);
    assert(Seq::<u8>::empty() + head + b =~= head + b);
    assert(tl_bytes(b) =~= head + b + zeros(align_gap((head + b).len())));
    if b.len() < 254 {
        assert(s[at] == head[0]);
        assert(s.subrange(at + 1, at + 1 + b.len()) =~= b);
    } else {
        assert(s[at] == head[0]);
        assert(s.subrange(at + 1, at + 4) =~= le_bytes(b.len(), 3));
        crate::bytes::lemma_pow256_values();
        crate::bytes::le_value_of_le_bytes(b.len(), 3);
        assert(s.subrange(at + 4, at + 4 + b.len()) =~= b);
    }
}

/// Why a message could not be read.
#[derive(Clone, Copy, Debug, PartialEq, Eq, Structural)]
pub enum TlError {
    /// The bytes end before the message does.
    UnexpectedEof,
    /// The bytes begin with the number of another message.
    UnexpectedConstructor { id: u32 },
}

/// What a reader returned, with the message taken by its contents.
pub open spec fn outcome<T: View>(r: Result<T, TlError>) -> Result<T::V, TlError> {
    match r {
        Ok(v) => Ok(v@),
        Err(e) => Err(e),
    }
}

/// The number in the four bytes of `s` from `at` on.
pub open spec fn word(s: Seq<u8>, at: int) -> nat {
    le_value(s.subrange(at, at + 4))
}

/// The list of 64-bit numbers that stands at `at` in `s`.
pub open spec fn tl_longs_at(s: Seq<u8>, at: int) -> Result<Seq<i64>, TlError> {
    if at + 4 > s.len() {
        Err(TlError::UnexpectedEof)
    } else if word(s, at) != 0x1cb5c415 {
        Err(TlError::UnexpectedConstructor { id: word(s, at) as u32 })
    } else if at + 8 > s.len() || at + 8 + 8 * word(s, at + 4) > s.len() {
        Err(TlError::UnexpectedEof)
    } else {
        Ok(
            Seq::new(
                word(s, at + 4),
                |i: int| i64_of_le(s.subrange(at + 8 + 8 * i, at + 16 + 8 * i)) as i64,
            ),
        )
    }
}

/// The contents of `resPQ`, the server's first answer.
pub struct ResPqFields {
    pub nonce: Seq<u8>,
    pub server_nonce: Seq<u8>,
    pub pq: Seq<u8>,
    pub fingerprints: Seq<i64>,
}

/// `resPQ`, the server's first answer: the nonces, the product to factor and the
/// fingerprints of the server's public keys.
pub struct ResPq {
    pub nonce: [u8; 16],
    pub server_nonce: [u8; 16],
    pub pq: Vec<u8>,
    pub fingerprints: Vec<i64>,
}

impl View for ResPq {
    type V = ResPqFields;

    open spec fn view(&self) -> ResPqFields {
        ResPqFields {
            nonce: self.nonce@,
            server_nonce: self.server_nonce@,
            pq: self.pq@,
            fingerprints: self.fingerprints@,
        }
    }
}

/// How `s` reads as `resPQ#05162463 nonce:int128 server_nonce:int128 pq:bytes
/// server_public_key_fingerprints:Vector<long>`.
pub open spec fn res_pq_of(s: Seq<u8>) -> Result<ResPqFields, TlError> {
    if s.len() < 4 {
        Err(TlError::UnexpectedEof)
    } else if word(s, 0) != 0x05162463 {
        Err(TlError::UnexpectedConstructor { id: word(s, 0) as u32 })
    } else if s.len() < 36 {
        Err(TlError::UnexpectedEof)
    } else {
        match tl_bytes_at(s, 36) {
            None => Err(TlError::UnexpectedEof),
            Some((pq, at)) => match tl_longs_at(s, at) {
                Err(e) => Err(e),
                Ok(fingerprints) => Ok(
                    ResPqFields {
                        nonce: s.subrange(4, 20),
                        server_nonce: s.subrange(20, 36),
                        pq,
                        fingerprints,
                    },
                ),
            },
        }
    }
}

/// `enums::ResPq::deserialize`: reads `resPQ` from the front of `data`, as the
/// scheme lays it out.
#[verifier::external_body]
pub(crate) fn decode_res_pq(data: &[u8]) -> (r: Result<ResPq, TlError>)
    ensures
        outcome(r) == res_pq_of(data@),
{
    match enums::ResPq::deserialize(&mut Cursor::from_slice(data)) {
        Ok(enums::ResPq::Pq(m)) => Ok(ResPq {
            nonce: m.nonce,
            server_nonce: m.server_nonce,
            pq: m.pq,
            fingerprints: m.server_public_key_fingerprints,
        }),
        Err(Error::UnexpectedEof) => Err(TlError::UnexpectedEof),
        Err(Error::UnexpectedConstructor { id }) => Err(TlError::UnexpectedConstructor { id }),
    }
}

/// The contents of `Server_DH_Params`.
pub enum ServerDhParamsFields {
    Granted { nonce: Seq<u8>, server_nonce: Seq<u8>, encrypted_answer: Seq<u8> },
    Refused { nonce: Seq<u8>, server_nonce: Seq<u8>, new_nonce_hash: Seq<u8> },
}

/// `Server_DH_Params`, the server's second answer: the encrypted parameters of
/// the exchange, or a refusal.
pub enum ServerDhParams {
    Granted { nonce: [u8; 16], server_nonce: [u8; 16], encrypted_answer: Vec<u8> },
    Refused { nonce: [u8; 16], server_nonce: [u8; 16], new_nonce_hash: [u8; 16] },
}

impl View for ServerDhParams {
    type V = ServerDhParamsFields;

    open spec fn view(&self) -> ServerDhParamsFields {
        match *self {
            ServerDhParams::Granted { nonce, server_nonce, encrypted_answer } => ServerDhParamsFields::Granted {
                nonce: nonce@,
                server_nonce: server_nonce@,
                encrypted_answer: encrypted_answer@,
            },
            ServerDhParams::Refused { nonce, server_nonce, new_nonce_hash } => ServerDhParamsFields::Refused {
                nonce: nonce@,
                server_nonce: server_nonce@,
                new_nonce_hash: new_nonce_hash@,
            },
        }
    }
}

/// How `s` reads as `server_DH_params_ok#d0e8075c nonce:int128
/// server_nonce:int128 encrypted_answer:bytes` or `server_DH_params_fail#79cb045d
/// nonce:int128 server_nonce:int128 new_nonce_hash:int128`.
pub open spec fn server_dh_params_of(s: Seq<u8>) -> Result<ServerDhParamsFields, TlError> {
    if s.len() < 4 {
        Err(TlError::UnexpectedEof)
    } else if word(s, 0) == 0xd0e8075c {
        if s.len() < 36 {
            Err(TlError::UnexpectedEof)
        } else {
            match tl_bytes_at(s, 36) {
                None => Err(TlError::UnexpectedEof),
                Some((encrypted_answer, _)) => Ok(
                    ServerDhParamsFields::Granted {
                        nonce: s.subrange(4, 20),
                        server_nonce: s.subrange(20, 36),
                        encrypted_answer,
                    },
                ),
            }
        }
    } else if word(s, 0) == 0x79cb045d {
        if s.len() < 52 {
            Err(TlError::UnexpectedEof)
        } else {
            Ok(
                ServerDhParamsFields::Refused {
                    nonce: s.subrange(4, 20),
                    server_nonce: s.subrange(20, 36),
                    new_nonce_hash: s.subrange(36, 52),
                },
            )
        }
    } else {
        Err(TlError::UnexpectedConstructor { id: word(s, 0) as u32 })
    }
}

/// `enums::ServerDhParams::deserialize`: reads `Server_DH_Params` from the front
/// of `data`, as the scheme lays it out.
#[verifier::external_body]
pub(crate) fn decode_server_dh_params(data: &[u8]) -> (r: Result<ServerDhParams, TlError>)
    ensures
        outcome(r) == server_dh_params_of(data@),
{
    match enums::ServerDhParams::deserialize(&mut Cursor::from_slice(data)) {
        Ok(enums::ServerDhParams::Ok(m)) => Ok(ServerDhParams::Granted {
            nonce: m.nonce,
            server_nonce: m.server_nonce,
            encrypted_answer: m.encrypted_answer,
        }),
        Ok(enums::ServerDhParams::Fail(m)) => Ok(ServerDhParams::Refused {
            nonce: m.nonce, server_nonce: m.server_nonce, new_nonce_hash: m.new_nonce_hash,
        }),
        Err(Error::UnexpectedEof) => Err(TlError::UnexpectedEof),
        Err(Error::UnexpectedConstructor { id }) => Err(TlError::UnexpectedConstructor { id }),
    }
}

/// The contents of `Server_DH_inner_data`, and the length of its form.
pub struct ServerDhInnerFields {
    pub nonce: Seq<u8>,
    pub server_nonce: Seq<u8>,
    pub g: i32,
    pub dh_prime: Seq<u8>,
    pub g_a: Seq<u8>,
    pub server_time: i32,
    pub consumed: int,
}

/// `Server_DH_inner_data`, the parameters of the exchange: the generator, the
/// modulus and the server's power, and the number of bytes they were read from.
pub struct ServerDhInner {
    pub nonce: [u8; 16],
    pub server_nonce: [u8; 16],
    pub g: i32,
    pub dh_prime: Vec<u8>,
    pub g_a: Vec<u8>,
    pub server_time: i32,
    pub consumed: usize,
}

impl View for ServerDhInner {
    type V = ServerDhInnerFields;

    open spec fn view(&self) -> ServerDhInnerFields {
        ServerDhInnerFields {
            nonce: self.nonce@,
            server_nonce: self.server_nonce@,
            g: self.g,
            dh_prime: self.dh_prime@,
            g_a: self.g_a@,
            server_time: self.server_time,
            consumed: self.consumed as int,
        }
    }
}

/// How `s` reads as `server_DH_inner_data#b5890dba nonce:int128
/// server_nonce:int128 g:int dh_prime:bytes g_a:bytes server_time:int`.
pub open spec fn server_dh_inner_of(s: Seq<u8>) -> Result<ServerDhInnerFields, TlError> {
    if s.len() < 4 {
        Err(TlError::UnexpectedEof)
    } else if word(s, 0) != 0xb5890dba {
        Err(TlError::UnexpectedConstructor { id: word(s, 0) as u32 })
    } else if s.len() < 40 {
        Err(TlError::UnexpectedEof)
    } else {
        match tl_bytes_at(s, 40) {
            None => Err(TlError::UnexpectedEof),
            Some((dh_prime, at)) => match tl_bytes_at(s, at) {
                None => Err(TlError::UnexpectedEof),
                Some((g_a, end)) => if end + 4 > s.len() {
                    Err(TlError::UnexpectedEof)
                } else {
                    Ok(
                        ServerDhInnerFields {
                            nonce: s.subrange(4, 20),
                            server_nonce: s.subrange(20, 36),
                            g: i32_of_le(s.subrange(36, 40)) as i32,
                            dh_prime,
                            g_a,
                            server_time: i32_of_le(s.subrange(end, end + 4)) as i32,
                            consumed: end + 4,
                        },
                    )
                },
            },
        }
    }
}

/// `enums::ServerDhInnerData::deserialize`: reads `Server_DH_inner_data` from
/// the front of `data`, as the scheme lays it out, and tells by `Cursor::pos`
/// how many bytes it took.
#[verifier::external_body]
pub(crate) fn decode_server_dh_inner(data: &[u8]) -> (r: Result<ServerDhInner, TlError>)
    ensures
        outcome(r) == server_dh_inner_of(data@),
{
    let mut cursor = Cursor::from_slice(data);
    match enums::ServerDhInnerData::deserialize(&mut cursor) {
        Ok(enums::ServerDhInnerData::Data(m)) => Ok(ServerDhInner {
            nonce: m.nonce, server_nonce: m.server_nonce, g: m.g, dh_prime: m.dh_prime,
            g_a: m.g_a, server_time: m.server_time, consumed: cursor.pos(),
        }),
        Err(Error::UnexpectedEof) => Err(TlError::UnexpectedEof),
        Err(Error::UnexpectedConstructor { id }) => Err(TlError::UnexpectedConstructor { id }),
    }
}

/// What the server said of the client's power.
#[derive(Clone, Copy, Debug, PartialEq, Eq, Structural)]
pub enum DhGen {
    Done,
    Retry,
    Fail,
}

/// The contents of `Set_client_DH_params_answer`.
pub struct DhGenFields {
    pub verdict: DhGen,
    pub nonce: Seq<u8>,
    pub server_nonce: Seq<u8>,
    pub new_nonce_hash: Seq<u8>,
}

/// `Set_client_DH_params_answer`, the server's third answer.
#[derive(Clone, Copy, Debug, PartialEq, Eq)]
pub struct DhGenAnswer {
    pub verdict: DhGen,
    pub nonce: [u8; 16],
    pub server_nonce: [u8; 16],
    pub new_nonce_hash: [u8; 16],
}

impl View for DhGenAnswer {
    type V = DhGenFields;

    open spec fn view(&self) -> DhGenFields {
        DhGenFields {
            verdict: self.verdict,
            nonce: self.nonce@,
            server_nonce: self.server_nonce@,
            new_nonce_hash: self.new_nonce_hash@,
        }
    }
}

/// The verdict that a constructor number stands for.
pub open spec fn dh_gen_of_id(id: nat) -> Option<DhGen> {
    if id == 0x3bcbf734 {
        Some(DhGen::Done)
    } else if id == 0x46dc1fb9 {
        Some(DhGen::Retry)
    } else if id == 0xa69dae02 {
        Some(DhGen::Fail)
    } else {
        None
    }
}

/// How `s` reads as `dh_gen_ok#3bcbf734`, `dh_gen_retry#46dc1fb9` or
/// `dh_gen_fail#a69dae02`, each with `nonce:int128 server_nonce:int128
/// new_nonce_hash:int128`.
pub open spec fn dh_gen_of(s: Seq<u8>) -> Result<DhGenFields, TlError> {
    if s.len() < 4 {
        Err(TlError::UnexpectedEof)
    } else {
        match dh_gen_of_id(word(s, 0)) {
            None => Err(TlError::UnexpectedConstructor { id: word(s, 0) as u32 }),
            Some(verdict) => if s.len() < 52 {
                Err(TlError::UnexpectedEof)
            } else {
                Ok(
                    DhGenFields {
                        verdict,
                        nonce: s.subrange(4, 20),
                        server_nonce: s.subrange(20, 36),
                        new_nonce_hash: s.subrange(36, 52),
                    },
                )
            },
        }
    }
}

/// `enums::SetClientDhParamsAnswer::deserialize`: reads
/// `Set_client_DH_params_answer` from the front of `data`, as the scheme lays it
/// out.
#[verifier::external_body]
pub(crate) fn decode_dh_gen(data: &[u8]) -> (r: Result<DhGenAnswer, TlError>)
    ensures
        outcome(r) == dh_gen_of(data@),
{
    let (verdict, nonce, server_nonce, new_nonce_hash) =
        match enums::SetClientDhParamsAnswer::deserialize(&mut Cursor::from_slice(data)) {
        Ok(enums::SetClientDhParamsAnswer::DhGenOk(m)) => (DhGen::Done, m.nonce, m.server_nonce, m.new_nonce_hash1),
        Ok(enums::SetClientDhParamsAnswer::DhGenRetry(m)) => (DhGen::Retry, m.nonce, m.server_nonce, m.new_nonce_hash2),
        Ok(enums::SetClientDhParamsAnswer::DhGenFail(m)) => (DhGen::Fail, m.nonce, m.server_nonce, m.new_nonce_hash3),
        Err(Error::UnexpectedEof) => return Err(TlError::UnexpectedEof),
        Err(Error::UnexpectedConstructor { id }) => return Err(TlError::UnexpectedConstructor { id }),
    };
    Ok(DhGenAnswer { verdict, nonce, server_nonce, new_nonce_hash })
}

/// The form of `req_pq_multi#be7e8ef1 nonce:int128`.
pub open spec fn req_pq_multi_form(nonce: Seq<u8>) -> Seq<u8> {
    le_u32(0xbe7e8ef1) + nonce
}

/// `serialize` of `functions::ReqPqMulti`: the form of `req_pq_multi`.
#[verifier::external_body]
pub(crate) fn encode_req_pq_multi(nonce: &[u8; 16]) -> (r: Vec<u8>)
    ensures
        r@ == req_pq_multi_form(nonce@),
{
    functions::ReqPqMulti { nonce: *nonce }.to_bytes()
}

/// The form of `p_q_inner_data#83c95aec pq:bytes p:bytes q:bytes nonce:int128
/// server_nonce:int128 new_nonce:int256`.
pub open spec fn pq_inner_data_form(
    pq: Seq<u8>,
    p: Seq<u8>,
    q: Seq<u8>,
    nonce: Seq<u8>,
    server_nonce: Seq<u8>,
    new_nonce: Seq<u8>,
) -> Seq<u8> {
    le_u32(0x83c95aec) + tl_bytes(pq) + tl_bytes(p) + tl_bytes(q) + nonce + server_nonce + new_nonce
}

/// `serialize` of `enums::PQInnerData::Data`: the form of `p_q_inner_data`.
#[verifier::external_body]
pub(crate) fn encode_pq_inner_data(
    pq: Vec<u8>,
    p: Vec<u8>,
    q: Vec<u8>,
    nonce: &[u8; 16],
    server_nonce: &[u8; 16],
    new_nonce: &[u8; 32],
) -> (r: Vec<u8>)
    ensures
        r@ == pq_inner_data_form(pq@, p@, q@, nonce@, server_nonce@, new_nonce@),
{
    enums::PQInnerData::Data(
        types::PQInnerData { pq, p, q, nonce: *nonce, server_nonce: *server_nonce, new_nonce: *new_nonce },
    ).to_bytes()
}

/// The form of `client_DH_inner_data#6643b654 nonce:int128 server_nonce:int128
/// retry_id:long g_b:bytes`.
pub open spec fn client_dh_inner_form(nonce: Seq<u8>, server_nonce: Seq<u8>, retry_id: i64, g_b: Seq<u8>) -> Seq<u8> {
    le_u32(0x6643b654) + nonce + server_nonce + le_i64(retry_id) + tl_bytes(g_b)
}

/// `serialize` of `enums::ClientDhInnerData::Data`: the form of
/// `client_DH_inner_data`.
#[verifier::external_body]
pub(crate) fn encode_client_dh_inner(
    nonce: &[u8; 16],
    server_nonce: &[u8; 16],
    retry_id: i64,
    g_b: Vec<u8>,
) -> (r: Vec<u8>)
    ensures
        r@ == client_dh_inner_form(nonce@, server_nonce@, retry_id, g_b@),
{
    enums::ClientDhInnerData::Data(
        types::ClientDhInnerData { nonce: *nonce, server_nonce: *server_nonce, retry_id, g_b },
    ).to_bytes()
}

/// `functions::ReqDhParams::CONSTRUCTOR_ID`: the number of `req_DH_params`.
#[verifier::external_body]
pub(crate) fn req_dh_params_id() -> (r: u32)
    ensures
        r == 0xd712e4be,
{
    functions::ReqDhParams::CONSTRUCTOR_ID
}

/// `functions::SetClientDhParams::CONSTRUCTOR_ID`: the number of
/// `set_client_DH_params`.
#[verifier::external_body]
pub(crate) fn set_client_dh_params_id() -> (r: u32)
    ensures
        r == 0xf5045f1f,
{
    functions::SetClientDhParams::CONSTRUCTOR_ID
}

/// The filling brings a length to the next multiple of four, and no further.
pub proof fn align_gap_is_least(n: nat)
    ensures
        (n + align_gap(n)) % 4 == 0,
        align_gap(n) < 4,
{
}

/// What stands before a byte string: its length alone where it is under 254, else
/// the byte 254 and the low three bytes of its length.
pub proof fn headers_tell_the_length(n: nat)
    ensures
        n < 254 ==> tl_header(n) == seq![n as u8],
        n >= 254 ==> tl_header(n).len() == 4 && tl_header(n)[0] == 254 && le_value(tl_header(n).skip(1)) == n
            % 0x100_0000,
{
    lemma_tl_header_len(n);
    if n >= 254 {
        crate::bytes::lemma_pow256_values();
        crate::bytes::le_bytes_keep_the_low_part(n, 3);
        assert(tl_header(n).skip(1) =~= le_bytes(n, 3));
    }
}

/// Appending puts the header, the byte string and fewer than four zero bytes
/// behind what was there.
pub proof fn tl_appended_parts(buf: Seq<u8>, b: Seq<u8>)
    ensures
        ({
            let s = tl_appended(buf, b);
            let at = (buf.len() + tl_header(b.len()).len()) as int;
            let end = at + b.len();
            &&& s.take(buf.len() as int) == buf
            &&& s.subrange(buf.len() as int, at) == tl_header(b.len())
            &&& s.subrange(at, end) == b
            &&& end <= s.len() < end + 4
            &&& s.len() % 4 == 0
            &&& forall|i: int| end <= i < s.len() ==> #[trigger] s[i] == 0
        }),
{
    let s = tl_appended(buf, b);
    let at = (buf.len() + tl_header(b.len()).len()) as int;
    let end = at + b.len();
    assert(s.take(buf.len() as int) =~= buf);
    assert(s.subrange(buf.len() as int, at) =~= tl_header(b.len()));
    assert(s.subrange(at, end) =~= b);
}

} // verus!
