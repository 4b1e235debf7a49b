//! The packets of the tunnel: plaintext ones, which carry the key exchange, and
//! encrypted ones.

use vstd::prelude::*;

use crate::bytes::{i32_of_le, i64_of_le, le_bytes, le_i32, le_i64, le_value, zeros};
use crate::msg_id::{MsgIdError, MsgIds};

verus! {

/// Why a plaintext packet was refused.
#[derive(Clone, Copy, Debug, PartialEq, Eq, Structural)]
pub enum PlaintextError {
    /// The packet ends within its header.
    TooShort,
    /// The packet ends before the payload that its header announces does.
    LengthMismatch,
}

/// A plaintext packet: eight zero bytes in place of a key identifier, the
/// message identifier, the payload's length and the payload.
pub open spec fn plaintext_form(payload: Seq<u8>, msg_id: i64) -> Seq<u8> {
    zeros(8) + le_i64(msg_id) + le_bytes(payload.len(), 4) + payload
}

/// The length that the header of a plaintext packet announces.
pub open spec fn plaintext_len(packet: Seq<u8>) -> nat {
    le_value(packet.subrange(16, 20))
}

/// What a plaintext packet holds: its payload and its message identifier.
pub open spec fn plaintext_of(packet: Seq<u8>) -> Result<(Seq<u8>, int), PlaintextError> {
    if packet.len() < 20 {
        Err(PlaintextError::TooShort)
    } else if packet.len() < 20 + plaintext_len(packet) {
        Err(PlaintextError::LengthMismatch)
    } else {
        Ok((packet.subrange(20, 20 + plaintext_len(packet) as int), i64_of_le(packet.subrange(8, 16))))
    }
}

/// The plaintext packet with the given payload and message identifier.
pub fn plaintext_packet(payload: &[u8], msg_id: i64) -> (r: Vec<u8>)
    ensures
        r@ == plaintext_form(payload@, msg_id),
{
    let mut packet: Vec<u8> = Vec::new();
    crate::bytes::push_zeros(&mut packet, 8);
    crate::bytes::push_i64_le(&mut packet, msg_id);
    crate::bytes::push_le(&mut packet, payload.len() as u64, 4);
    crate::bytes::push_slice(&mut packet, payload);
    assert(packet@ =~= plaintext_form(payload@, msg_id));
    packet
}

/// The plaintext packet with the given payload and the next message identifier.
pub fn write_plaintext_raw(payload: &[u8], ids: &mut MsgIds) -> (r: Result<Vec<u8>, MsgIdError>)
    ensures
        final(ids).response == old(ids).response,
        match r {
            Ok(packet) => {
                &&& crate::msg_id::issued(old(ids).plaintext, final(ids).plaintext)
                &&& packet@ == plaintext_form(payload@, final(ids).plaintext)
            },
            Err(e) => {
                &&& final(ids).plaintext == old(ids).plaintext
                &&& e is Exhausted ==> old(ids).plaintext > i64::MAX - 4
            },
        },
{
    match crate::msg_id::generate_plaintext_msg_id(ids) {
        Ok(msg_id) => Ok(plaintext_packet(payload, msg_id)),
        Err(e) => Err(e),
    }
}

/// The payload and the message identifier of a plaintext packet.
pub fn parse_plaintext(payload: &[u8]) -> (r: Result<(Vec<u8>, i64), PlaintextError>)
    ensures
        match r {
            Ok((data, msg_id)) => plaintext_of(payload@) == Ok::<(Seq<u8>, int), PlaintextError>(
                (data@, msg_id as int),
            ),
            Err(e) => plaintext_of(payload@) == Err::<(Seq<u8>, int), PlaintextError>(e),
        },
{
    if payload.len() < 20 {
        return Err(PlaintextError::TooShort);
    }
    let msg_id: i64 = crate::bytes::read_i64_le(payload, 8);
    let msg_len: u32 = crate::bytes::read_u32_le(payload, 16);
    if ((payload.len() - 20) as u64) < msg_len as u64 {
        return Err(PlaintextError::LengthMismatch);
    }
    let data: Vec<u8> = crate::bytes::copy_range(payload, 20, 20 + msg_len as usize);
    Ok((data, msg_id))
}

/// A plaintext packet reads back as the payload and the identifier it was made
/// of, as long as the payload's length fits in its header.
pub proof fn plaintext_reads_back(payload: Seq<u8>, msg_id: i64)
    requires
        payload.len() < 0x1_0000_0000,
    ensures
        plaintext_of(plaintext_form(payload, msg_id)) == Ok::<(Seq<u8>, int), PlaintextError>(
            (payload, msg_id as int),
        ),
{
    let packet = plaintext_form(payload, msg_id);
    crate::bytes::lemma_le_bytes_len(crate::bytes::twos_64(msg_id), 8);
    crate::bytes::lemma_le_bytes_len(payload.len(), 4);
    crate::bytes::lemma_pow256_values();
    crate::bytes::le_value_of_le_bytes(payload.len(), 4);
    crate::bytes::le_value_of_le_bytes(crate::bytes::twos_64(msg_id), 8);
    assert(packet.subrange(8, 16) =~= le_i64(msg_id));
    assert(packet.subrange(16, 20) =~= le_bytes(payload.len(), 4));
    assert(packet.subrange(20, 20 + payload.len() as int) =~= payload);
}

/// Why an encrypted packet was refused before it was decrypted.
#[derive(Clone, Copy, Debug, PartialEq, Eq, Structural)]
pub enum EnvelopeError {
    /// The packet ends within its header.
    TooShort,
    /// The packet was encrypted with another key.
    KeyIdMismatch,
}

/// What is left to decrypt of an encrypted packet.
#[derive(Debug)]
pub struct Sealed {
    /// The key of the message, which the cipher's key is derived with.
    pub msg_key: [u8; 16],
    /// The whole cipher blocks of the packet.
    pub data: Vec<u8>,
}

/// An encrypted packet: the identifier of the key, the key of the message and
/// the cipher text.
pub open spec fn envelope_form(auth_key_id: i64, msg_key: Seq<u8>, encrypted: Seq<u8>) -> Seq<u8> {
    le_i64(auth_key_id) + msg_key + encrypted
}

/// What is left to decrypt of a packet: the key of the message and the whole
/// cipher blocks; bytes past the last whole block are dropped.
pub open spec fn envelope_of(packet: Seq<u8>, auth_key_id: i64) -> Result<(Seq<u8>, Seq<u8>), EnvelopeError> {
    if packet.len() < 24 {
        Err(EnvelopeError::TooShort)
    } else if i64_of_le(packet.subrange(0, 8)) != auth_key_id {
        Err(EnvelopeError::KeyIdMismatch)
    } else {
        Ok((packet.subrange(8, 24), packet.subrange(24, 24 + (packet.len() - 24) / 16 * 16)))
    }
}

/// The encrypted packet made of its three parts.
pub fn encrypted_packet(auth_key_id: i64, msg_key: &[u8; 16], encrypted: &[u8]) -> (r: Vec<u8>)
    ensures
        r@ == envelope_form(auth_key_id, msg_key@, encrypted@),
{
    let mut packet: Vec<u8> = Vec::new();
    crate::bytes::push_i64_le(&mut packet, auth_key_id);
    crate::bytes::push_slice(&mut packet, msg_key.as_slice());
    crate::bytes::push_slice(&mut packet, encrypted);
    assert(packet@ =~= envelope_form(auth_key_id, msg_key@, encrypted@));
    packet
}

/// Checks the header of an encrypted packet and takes out what is left to
/// decrypt.
pub fn open_envelope(payload: &[u8], auth_key_id: i64) -> (r: Result<Sealed, EnvelopeError>)
    ensures
        match r {
            Ok(sealed) => envelope_of(payload@, auth_key_id) == Ok::<
                (Seq<u8>, Seq<u8>),
                EnvelopeError,
            >((sealed.msg_key@, sealed.data@)),
            Err(e) => envelope_of(payload@, auth_key_id) == Err::<(Seq<u8>, Seq<u8>), EnvelopeError>(e),
        },
{
    if payload.len() < 24 {
        return Err(EnvelopeError::TooShort);
    }
    if crate::bytes::read_i64_le(payload, 0) != auth_key_id {
        return Err(EnvelopeError::KeyIdMismatch);
    }
    let msg_key: [u8; 16] = crate::bytes::array_at::<16>(payload, 8);
    let whole: usize = (payload.len() - 24) / 16 * 16;
    let data: Vec<u8> = crate::bytes::copy_range(payload, 24, 24 + whole);
    Ok(Sealed { msg_key, data })
}

/// An encrypted packet gives back the parts it was made of, as long as its
/// cipher text is made of whole blocks; under any other key it is refused.
pub proof fn envelope_reads_back(auth_key_id: i64, msg_key: Seq<u8>, encrypted: Seq<u8>, key_id: i64)
    requires
        msg_key.len() == 16,
        encrypted.len() % 16 == 0,
    ensures
        envelope_of(envelope_form(auth_key_id, msg_key, encrypted), key_id) == if key_id == auth_key_id {
            Ok::<(Seq<u8>, Seq<u8>), EnvelopeError>((msg_key, encrypted))
        } else {
            Err(EnvelopeError::KeyIdMismatch)
        },
{
    let packet = envelope_form(auth_key_id, msg_key, encrypted);
    crate::bytes::lemma_le_bytes_len(crate::bytes::twos_64(auth_key_id), 8);
    crate::bytes::lemma_pow256_values();
    crate::bytes::le_value_of_le_bytes(crate::bytes::twos_64(auth_key_id), 8);
    assert(packet.subrange(0, 8) =~= le_i64(auth_key_id));
    assert(packet.subrange(8, 24) =~= msg_key);
    assert(packet.subrange(24, 24 + encrypted.len() as int) =~= encrypted);
}

/// Why a decrypted message was refused.
#[derive(Clone, Copy, Debug, PartialEq, Eq, Structural)]
pub enum MessageError {
    /// The message ends within its header.
    TooShort,
    /// The message belongs to another session.
    SessionMismatch,
    /// The body that the header announces is too short or does not fit.
    SizeMismatch,
}

/// A message before encryption: the salt, the session, the message identifier,
/// the sequence number, the body's length and the body.
pub open spec fn message_form(salt: i64, session_id: Seq<u8>, msg_id: i64, seq_no: i32, body: Seq<u8>) -> Seq<u8> {
    le_i64(salt) + session_id + le_i64(msg_id) + le_i32(seq_no) + le_bytes(body.len(), 4) + body
}

/// The message made of its parts.
pub fn message_bytes(salt: i64, session_id: &[u8; 8], msg_id: i64, seq_no: i32, body: &[u8]) -> (r: Vec<u8>)
    ensures
        r@ == message_form(salt, session_id@, msg_id, seq_no, body@),
{
    let mut plaintext: Vec<u8> = Vec::new();
    crate::bytes::push_i64_le(&mut plaintext, salt);
    crate::bytes::push_slice(&mut plaintext, session_id.as_slice());
    crate::bytes::push_i64_le(&mut plaintext, msg_id);
    crate::bytes::push_i32_le(&mut plaintext, seq_no);
    crate::bytes::push_le(&mut plaintext, body.len() as u64, 4);
    crate::bytes::push_slice(&mut plaintext, body);
    assert(plaintext@ =~= message_form(salt, session_id@, msg_id, seq_no, body@));
    plaintext
}

/// The body length that the header of a decrypted message announces.
pub open spec fn message_len(plain: Seq<u8>) -> int {
    i32_of_le(plain.subrange(28, 32))
}

/// Whether a decrypted message has a whole header and belongs to the session.
pub open spec fn in_session(plain: Seq<u8>, session_id: Seq<u8>) -> bool {
    plain.len() >= 32 && plain.subrange(8, 16) == session_id
}

/// Whether a decrypted message of the session announces a negative length that
/// reaches back into its own header.
pub open spec fn reaches_back(plain: Seq<u8>, session_id: Seq<u8>) -> bool {
    in_session(plain, session_id) && -32 <= message_len(plain) < 0
}

/// What a decrypted message from the server carries: the body where its
/// constructor is `wanted`, nothing where it is another one.
pub open spec fn server_body_of(plain: Seq<u8>, session_id: Seq<u8>, wanted: u32) -> Result<
    Option<Seq<u8>>,
    MessageError,
> {
    let len = message_len(plain);
    if plain.len() < 32 {
        Err(MessageError::TooShort)
    } else if plain.subrange(8, 16) != session_id {
        Err(MessageError::SessionMismatch)
    } else if len < 4 || plain.len() < 32 + len {
        Err(MessageError::SizeMismatch)
    } else if le_value(plain.subrange(32, 36)) == wanted {
        Ok(Some(plain.subrange(32, 32 + len)))
    } else {
        Ok(None)
    }
}

/// Checks the header of a decrypted message as far as the session: nothing where
/// it is in order.
fn check_session(plain: &[u8], session_id: &[u8; 8]) -> (r: Option<MessageError>)
    ensures
        r == if plain@.len() < 32 {
            Some(MessageError::TooShort)
        } else if plain@.subrange(8, 16) != session_id@ {
            Some(MessageError::SessionMismatch)
        } else {
            None
        },
{
    if plain.len() < 32 {
        return Some(MessageError::TooShort);
    }
    let theirs: [u8; 8] = crate::bytes::array_at::<8>(plain, 8);
    if !crate::bytes::same_bytes(theirs.as_slice(), session_id.as_slice()) {
        return Some(MessageError::SessionMismatch);
    }
    None
}

/// Whether a decrypted message of the session announces a negative length that
/// reaches back into its own header.
pub fn length_reaches_back(plain: &[u8], session_id: &[u8; 8]) -> (r: bool)
    ensures
        r == reaches_back(plain@, session_id@),
{
    if check_session(plain, session_id).is_some() {
        return false;
    }
    let len: i32 = crate::bytes::read_i32_le(plain, 28);
    -32 <= len && len < 0
}

/// The body of a decrypted message from the server where its constructor is
/// `wanted`; a message with another constructor is passed over.
pub fn open_server_message(plain: &[u8], session_id: &[u8; 8], wanted: u32) -> (r: Result<
    Option<Vec<u8>>,
    MessageError,
>)
    requires
        !reaches_back(plain@, session_id@),
    ensures
        match r {
            Ok(Some(body)) => server_body_of(plain@, session_id@, wanted) == Ok::<
                Option<Seq<u8>>,
                MessageError,
            >(Some(body@)),
            Ok(None) => server_body_of(plain@, session_id@, wanted) == Ok::<
                Option<Seq<u8>>,
                MessageError,
            >(None),
            Err(e) => server_body_of(plain@, session_id@, wanted) == Err::<
                Option<Seq<u8>>,
                MessageError,
            >(e),
        },
{
    match check_session(plain, session_id) {
        Some(e) => return Err(e),
        None => {},
    }
    let len: i32 = crate::bytes::read_i32_le(plain, 28);
    if len < 4 || ((plain.len() - 32) as u64) < len as u64 {
        return Err(MessageError::SizeMismatch);
    }
    let constructor_id: u32 = crate::bytes::read_u32_le(plain, 32);
    if constructor_id == wanted {
        let end: usize = 32 + len as usize;
        Ok(Some(crate::bytes::copy_range(plain, 32, end)))
    } else {
        Ok(None)
    }
}

/// The body of a decrypted configuration message.
pub open spec fn config_body_of(plain: Seq<u8>, session_id: Seq<u8>) -> Result<Seq<u8>, MessageError> {
    if plain.len() < 32 {
        Err(MessageError::TooShort)
    } else if plain.subrange(8, 16) != session_id {
        Err(MessageError::SessionMismatch)
    } else {
        Ok(plain.subrange(32, 32 + message_len(plain)))
    }
}

/// Whether the body that a configuration message of the session announces lies
/// within the message.
pub open spec fn config_fits(plain: Seq<u8>, session_id: Seq<u8>) -> bool {
    in_session(plain, session_id) ==> 0 <= message_len(plain) && 32 + message_len(plain) <= plain.len()
}

/// Whether the body that a configuration message of the session announces lies
/// within the message.
pub fn config_length_fits(plain: &[u8], session_id: &[u8; 8]) -> (r: bool)
    ensures
        r == config_fits(plain@, session_id@),
{
    if check_session(plain, session_id).is_some() {
        return true;
    }
    let len: i32 = crate::bytes::read_i32_le(plain, 28);
    len >= 0 && len as u64 <= (plain.len() - 32) as u64
}

/// The body of a decrypted configuration message.
pub fn open_config_message(plain: &[u8], session_id: &[u8; 8]) -> (r: Result<Vec<u8>, MessageError>)
    requires
        config_fits(plain@, session_id@),
    ensures
        match r {
            Ok(body) => config_body_of(plain@, session_id@) == Ok::<Seq<u8>, MessageError>(body@),
            Err(e) => config_body_of(plain@, session_id@) == Err::<Seq<u8>, MessageError>(e),
        },
{
    match check_session(plain, session_id) {
        Some(e) => return Err(e),
        None => {},
    }
    let len: i32 = crate::bytes::read_i32_le(plain, 28);
    let end: usize = 32 + len as usize;
    Ok(crate::bytes::copy_range(plain, 32, end))
}

/// A message of the session gives back its body: to a reader that wants its
/// constructor the body itself, to any other nothing; a body too short for a
/// constructor is refused. A reader of another session refuses the message.
pub proof fn message_reads_back(
    salt: i64,
    session_id: Seq<u8>,
    msg_id: i64,
    seq_no: i32,
    body: Seq<u8>,
    reader: Seq<u8>,
    wanted: u32,
)
    requires
        session_id.len() == 8,
        reader.len() == 8,
        body.len() < 0x8000_0000,
    ensures
        ({
            let plain = message_form(salt, session_id, msg_id, seq_no, body);
            &&& !reaches_back(plain, reader)
            &&& config_fits(plain, reader)
            &&& reader != session_id ==> server_body_of(plain, reader, wanted) == Err::<
                Option<Seq<u8>>,
                MessageError,
            >(MessageError::SessionMismatch) && config_body_of(plain, reader) == Err::<
                Seq<u8>,
                MessageError,
            >(MessageError::SessionMismatch)
            &&& reader == session_id ==> config_body_of(plain, reader) == Ok::<Seq<u8>, MessageError>(
                body,
            ) && server_body_of(plain, reader, wanted) == if body.len() < 4 {
                Err::<Option<Seq<u8>>, MessageError>(MessageError::SizeMismatch)
            } else if le_value(body.subrange(0, 4)) == wanted {
                Ok(Some(body))
            } else {
                Ok(None)
            }
        }),
{
    let plain = message_form(salt, session_id, msg_id, seq_no, body);
    crate::bytes::lemma_le_bytes_len(crate::bytes::twos_64(salt), 8);
    crate::bytes::lemma_le_bytes_len(crate::bytes::twos_64(msg_id), 8);
    crate::bytes::lemma_le_bytes_len(crate::bytes::twos_32(seq_no), 4);
    crate::bytes::lemma_le_bytes_len(body.len(), 4);
    crate::bytes::lemma_pow256_values();
    crate::bytes::le_value_of_le_bytes(body.len(), 4);
    assert(plain.subrange(8, 16) =~= session_id);
    assert(plain.subrange(28, 32) =~= le_bytes(body.len(), 4));
    assert(plain.subrange(32, 32 + body.len() as int) =~= body);
    if body.len() >= 4 {
        assert(plain.subrange(32, 36) =~= body.subrange(0, 4));
    }
}

/// A plaintext packet is read the same whatever follows it.
pub proof fn plaintext_reads_back_before_a_tail(payload: Seq<u8>, msg_id: i64, tail: Seq<u8>)
    requires
        payload.len() < 0x1_0000_0000,
    ensures
        plaintext_of(plaintext_form(payload, msg_id) + tail) == Ok::<(Seq<u8>, int), PlaintextError>(
            (payload, msg_id as int),
        ),
{
    let packet = plaintext_form(payload, msg_id) + tail;
    plaintext_fields(payload, msg_id);
    let form = plaintext_form(payload, msg_id);
    assert(packet.subrange(8, 16) =~= form.subrange(8, 16));
    assert(packet.subrange(16, 20) =~= form.subrange(16, 20));
    assert(packet.subrange(20, 20 + payload.len() as int) =~= payload);
}

/// What stands where in a plaintext packet: eight zero bytes, the identifier, the
/// low part of the payload's length, and the payload, with nothing behind it.
pub proof fn plaintext_fields(payload: Seq<u8>, msg_id: i64)
    ensures
        ({
            let packet = plaintext_form(payload, msg_id);
            &&& packet.len() == 20 + payload.len()
            &&& forall|i: int| 0 <= i < 8 ==> #[trigger] packet[i] == 0
            &&& i64_of_le(packet.subrange(8, 16)) == msg_id
            &&& le_value(packet.subrange(16, 20)) == payload.len() % 0x1_0000_0000
            &&& packet.skip(20) == payload
        }),
{
    let packet = plaintext_form(payload, msg_id);
    crate::bytes::numbers_read_back(msg_id, 0, 0);
    crate::bytes::lemma_le_bytes_len(payload.len(), 4);
    crate::bytes::lemma_pow256_values();
    crate::bytes::le_bytes_keep_the_low_part(payload.len(), 4);
    assert(packet.subrange(8, 16) =~= le_i64(msg_id));
    assert(packet.subrange(16, 20) =~= le_bytes(payload.len(), 4));
    assert(packet.skip(20) =~= payload);
}

/// A packet is plaintext exactly where it holds a header and as many bytes behind
/// it as the header announces; those bytes are the payload. The eight bytes in
/// front of the identifier have no say.
pub proof fn plaintext_packets(packet: Seq<u8>, other: Seq<u8>)
    ensures
        plaintext_of(packet) == Err::<(Seq<u8>, int), PlaintextError>(PlaintextError::TooShort) <==> packet.len()
            < 20,
        plaintext_of(packet) == Err::<(Seq<u8>, int), PlaintextError>(PlaintextError::LengthMismatch) <==> 20
            <= packet.len() < 20 + le_value(packet.subrange(16, 20)),
        plaintext_of(packet) matches Ok((payload, msg_id)) ==> msg_id == i64_of_le(packet.subrange(8, 16))
            && payload.len() == le_value(packet.subrange(16, 20)) && packet.skip(20).take(payload.len() as int)
            == payload,
        packet.len() >= 20 && other.len() == packet.len() && other.skip(8) == packet.skip(8) ==> plaintext_of(other)
            == plaintext_of(packet),
{
    if plaintext_of(packet) is Ok {
        let payload = (plaintext_of(packet)->Ok_0).0;
        assert(packet.skip(20).take(payload.len() as int) =~= payload);
    }
    if packet.len() >= 20 && other.len() == packet.len() && other.skip(8) == packet.skip(8) {
        assert forall|i: int| 8 <= i < packet.len() implies other[i] == packet[i] by {
            assert(other.skip(8)[i - 8] == packet.skip(8)[i - 8]);
        }
        assert(other.subrange(8, 16) =~= packet.subrange(8, 16));
        assert(other.subrange(16, 20) =~= packet.subrange(16, 20));
        if plaintext_of(packet) is Ok {
            let end = 20 + plaintext_len(packet) as int;
            assert(other.subrange(20, end) =~= packet.subrange(20, end));
        }
    }
}

/// What stands where in an encrypted packet.
pub proof fn envelope_fields(auth_key_id: i64, msg_key: Seq<u8>, encrypted: Seq<u8>)
    requires
        msg_key.len() == 16,
    ensures
        ({
            let packet = envelope_form(auth_key_id, msg_key, encrypted);
            &&& packet.len() == 24 + encrypted.len()
            &&& i64_of_le(packet.subrange(0, 8)) == auth_key_id
            &&& packet.subrange(8, 24) == msg_key
            &&& packet.skip(24) == encrypted
        }),
{
    let packet = envelope_form(auth_key_id, msg_key, encrypted);
    crate::bytes::numbers_read_back(auth_key_id, 0, 0);
    assert(packet.subrange(0, 8) =~= le_i64(auth_key_id));
    assert(packet.subrange(8, 24) =~= msg_key);
    assert(packet.skip(24) =~= encrypted);
}

/// An encrypted packet gives back its key of the message and its cipher text;
/// bytes behind the last whole block are dropped, and nothing else is.
pub proof fn envelope_drops_a_broken_block(auth_key_id: i64, msg_key: Seq<u8>, blocks: Seq<u8>, rest: Seq<u8>)
    requires
        msg_key.len() == 16,
        blocks.len() % 16 == 0,
        rest.len() < 16,
    ensures
        envelope_of(envelope_form(auth_key_id, msg_key, blocks + rest), auth_key_id) == Ok::<
            (Seq<u8>, Seq<u8>),
            EnvelopeError,
        >((msg_key, blocks)),
{
    let packet = envelope_form(auth_key_id, msg_key, blocks + rest);
    envelope_fields(auth_key_id, msg_key, blocks + rest);
    assert((packet.len() - 24) / 16 * 16 == blocks.len());
    assert(packet.subrange(24, 24 + blocks.len() as int) =~= blocks);
}

/// An encrypted packet is refused exactly where it ends within its header, or was
/// made with another key.
pub proof fn refused_envelopes(packet: Seq<u8>, auth_key_id: i64)
    ensures
        envelope_of(packet, auth_key_id) == Err::<(Seq<u8>, Seq<u8>), EnvelopeError>(EnvelopeError::TooShort)
            <==> packet.len() < 24,
        envelope_of(packet, auth_key_id) == Err::<(Seq<u8>, Seq<u8>), EnvelopeError>(EnvelopeError::KeyIdMismatch)
            <==> packet.len() >= 24 && packet.take(8) != le_i64(auth_key_id),
{
    if packet.len() >= 24 {
        assert(packet.take(8) =~= packet.subrange(0, 8));
        crate::bytes::any_eight_bytes_are_a_number(packet.take(8));
        crate::bytes::numbers_read_back(auth_key_id, 0, 0);
    }
}

/// A message gives back every field of its header, and its body with nothing
/// behind it.
pub proof fn message_fields(salt: i64, session_id: Seq<u8>, msg_id: i64, seq_no: i32, body: Seq<u8>)
    requires
        session_id.len() == 8,
    ensures
        ({
            let plain = message_form(salt, session_id, msg_id, seq_no, body);
            &&& plain.len() == 32 + body.len()
            &&& i64_of_le(plain.subrange(0, 8)) == salt
            &&& plain.subrange(8, 16) == session_id
            &&& i64_of_le(plain.subrange(16, 24)) == msg_id
            &&& i32_of_le(plain.subrange(24, 28)) == seq_no
            &&& le_value(plain.subrange(28, 32)) == body.len() % 0x1_0000_0000
            &&& plain.skip(32) == body
        }),
{
    let plain = message_form(salt, session_id, msg_id, seq_no, body);
    crate::bytes::numbers_read_back(salt, seq_no, 0);
    crate::bytes::numbers_read_back(msg_id, seq_no, 0);
    crate::bytes::lemma_le_bytes_len(body.len(), 4);
    crate::bytes::lemma_pow256_values();
    crate::bytes::le_bytes_keep_the_low_part(body.len(), 4);
    assert(plain.subrange(0, 8) =~= le_i64(salt));
    assert(plain.subrange(8, 16) =~= session_id);
    assert(plain.subrange(16, 24) =~= le_i64(msg_id));
    assert(plain.subrange(24, 28) =~= le_i32(seq_no));
    assert(plain.subrange(28, 32) =~= le_bytes(body.len(), 4));
    assert(plain.skip(32) =~= body);
}

/// A message is read the same whatever filling follows it.
#[verifier::rlimit(50)]
pub proof fn message_reads_back_before_filling(
    salt: i64,
    session_id: Seq<u8>,
    msg_id: i64,
    seq_no: i32,
    body: Seq<u8>,
    tail: Seq<u8>,
    reader: Seq<u8>,
    wanted: u32,
)
    requires
        session_id.len() == 8,
        reader.len() == 8,
        body.len() < 0x8000_0000,
    ensures
        ({
            let plain = message_form(salt, session_id, msg_id, seq_no, body) + tail;
            &&& !reaches_back(plain, reader)
            &&& config_fits(plain, reader)
            &&& reader != session_id ==> server_body_of(plain, reader, wanted) == Err::<
                Option<Seq<u8>>,
                MessageError,
            >(MessageError::SessionMismatch) && config_body_of(plain, reader) == Err::<
                Seq<u8>,
                MessageError,
            >(MessageError::SessionMismatch)
            &&& reader == session_id ==> config_body_of(plain, reader) == Ok::<Seq<u8>, MessageError>(body)
            &&& reader == session_id && body.len() < 4 ==> server_body_of(plain, reader, wanted) == Err::<
                Option<Seq<u8>>,
                MessageError,
            >(MessageError::SizeMismatch)
            &&& reader == session_id && body.len() >= 4 && le_value(body.take(4)) == wanted ==> server_body_of(
                plain,
                reader,
                wanted,
            ) == Ok::<Option<Seq<u8>>, MessageError>(Some(body))
            &&& reader == session_id && body.len() >= 4 && le_value(body.take(4)) != wanted ==> server_body_of(
                plain,
                reader,
                wanted,
            ) == Ok::<Option<Seq<u8>>, MessageError>(None)
        }),
{
    let form = message_form(salt, session_id, msg_id, seq_no, body);
    let plain = form + tail;
    message_fields(salt, session_id, msg_id, seq_no, body);
    assert(plain.subrange(8, 16) =~= form.subrange(8, 16));
    assert(plain.subrange(28, 32) =~= form.subrange(28, 32));
    assert(plain.subrange(32, 32 + body.len() as int) =~= body);
    if body.len() >= 4 {
        assert(plain.subrange(32, 36) =~= body.take(4));
    }
}

/// What is made of any decrypted message: it is refused where it ends within its
/// header, belongs to another session, or announces a body of less than four
/// bytes or more than there are. Else its body is given where it begins with the
/// wanted number. Neither the salt nor the numbers of the message have a say.
#[verifier::rlimit(50)]
pub proof fn server_messages(plain: Seq<u8>, session_id: Seq<u8>, wanted: u32, other: Seq<u8>)
    requires
        session_id.len() == 8,
    ensures
        server_body_of(plain, session_id, wanted) == Err::<Option<Seq<u8>>, MessageError>(MessageError::TooShort)
            <==> plain.len() < 32,
        server_body_of(plain, session_id, wanted) == Err::<Option<Seq<u8>>, MessageError>(
            MessageError::SessionMismatch,
        ) <==> plain.len() >= 32 && plain.subrange(8, 16) != session_id,
        plain.len() >= 32 && plain.subrange(8, 16) == session_id ==> ({
            let n = i32_of_le(plain.subrange(28, 32));
            let r = server_body_of(plain, session_id, wanted);
            &&& n < 4 || plain.len() - 32 < n <==> r == Err::<Option<Seq<u8>>, MessageError>(
                MessageError::SizeMismatch,
            )
            &&& 4 <= n <= plain.len() - 32 && le_value(plain.skip(32).take(4)) == wanted ==> r == Ok::<
                Option<Seq<u8>>,
                MessageError,
            >(Some(plain.skip(32).take(n)))
            &&& 4 <= n <= plain.len() - 32 && le_value(plain.skip(32).take(4)) != wanted ==> r == Ok::<
                Option<Seq<u8>>,
                MessageError,
            >(None)
        }),
        plain.len() >= 32 && other.len() == plain.len() && other.subrange(8, 16) == plain.subrange(8, 16)
            && other.skip(28) == plain.skip(28) ==> server_body_of(other, session_id, wanted) == server_body_of(
            plain,
            session_id,
            wanted,
        ),
        plain.len() >= 32 && other.len() == plain.len() && other.subrange(8, 16) == plain.subrange(8, 16)
            && other.skip(28) == plain.skip(28) && config_fits(plain, session_id) ==> config_body_of(
            other,
            session_id,
        ) == config_body_of(plain, session_id),
{
    if plain.len() >= 36 {
        assert(plain.skip(32).take(4) =~= plain.subrange(32, 36));
    }
    let n = i32_of_le(plain.subrange(28, 32));
    if plain.len() >= 32 && 0 <= n <= plain.len() - 32 {
        assert(plain.skip(32).take(n) =~= plain.subrange(32, 32 + n));
    }
    if plain.len() >= 32 && other.len() == plain.len() && other.subrange(8, 16) == plain.subrange(8, 16)
        && other.skip(28) == plain.skip(28) {
        assert forall|i: int| 28 <= i < plain.len() implies other[i] == plain[i] by {
            assert(other.skip(28)[i - 28] == plain.skip(28)[i - 28]);
        }
        assert(other.subrange(28, 32) =~= plain.subrange(28, 32));
        if plain.len() >= 36 {
            assert(other.subrange(32, 36) =~= plain.subrange(32, 36));
        }
        if 0 <= n <= plain.len() - 32 {
            assert(other.subrange(32, 32 + n) =~= plain.subrange(32, 32 + n));
        }
    }
}

/// What is made of any decrypted configuration message: its body is as long as it
/// announces, and stands behind the header.
pub proof fn config_messages(plain: Seq<u8>, session_id: Seq<u8>)
    requires
        session_id.len() == 8,
    ensures
        config_body_of(plain, session_id) == Err::<Seq<u8>, MessageError>(MessageError::TooShort) <==> plain.len()
            < 32,
        config_body_of(plain, session_id) == Err::<Seq<u8>, MessageError>(MessageError::SessionMismatch)
            <==> plain.len() >= 32 && plain.subrange(8, 16) != session_id,
        config_body_of(plain, session_id) != Err::<Seq<u8>, MessageError>(MessageError::SizeMismatch),
        config_body_of(plain, session_id) matches Ok(body) ==> (0 <= i32_of_le(plain.subrange(28, 32))
            <= plain.len() - 32 <==> config_fits(plain, session_id)) && (config_fits(plain, session_id) ==> body
            == plain.skip(32).take(i32_of_le(plain.subrange(28, 32)))),
        config_body_of(plain, session_id) is Err ==> config_fits(plain, session_id),
{
    let n = i32_of_le(plain.subrange(28, 32));
    if plain.len() >= 32 && 0 <= n <= plain.len() - 32 {
        assert(plain.skip(32).take(n) =~= plain.subrange(32, 32 + n));
    }
}

/// Which announced lengths reach back: of a message of the session, those from one
/// to thirty-two below zero.
pub proof fn lengths_that_reach_back(plain: Seq<u8>, session_id: Seq<u8>)
    ensures
        reaches_back(plain, session_id) <==> plain.len() >= 32 && plain.subrange(8, 16) == session_id && -32
            <= i32_of_le(plain.subrange(28, 32)) <= -1,
{
}

} // verus!
