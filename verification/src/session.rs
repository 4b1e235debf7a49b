//! An established session: its keys and the numbers of its messages.

use vstd::prelude::*;

use crate::msg_id::{MsgIdError, MsgIds};
use crate::packet::{EnvelopeError, MessageError, Sealed};

verus! {

/// What both sides agreed on, and the sequence number of the client's next
/// message that asks for an acknowledgement.
#[derive(Debug)]
pub struct VpnSession {
    pub auth_key: [u8; 256],
    pub auth_key_id: i64,
    pub salt: i64,
    pub session_id: [u8; 8],
    pub server_seq_no: i32,
}

impl VpnSession {
    /// A session that has sent nothing yet.
    pub fn new(auth_key: [u8; 256], auth_key_id: i64, salt: i64, session_id: [u8; 8]) -> (r: VpnSession)
        ensures
            r == (VpnSession { auth_key, auth_key_id, salt, session_id, server_seq_no: 1 }),
    {
        VpnSession { auth_key, auth_key_id, salt, session_id, server_seq_no: 1 }
    }

    /// Whether the session has a sequence number left for a message.
    pub open spec fn can_number(self, content_related: bool) -> bool {
        if content_related {
            self.server_seq_no <= i32::MAX - 2
        } else {
            self.server_seq_no > i32::MIN
        }
    }

    /// The sequence number of the next message: the session's own for one that
    /// asks for an acknowledgement, the number before it, never below zero, for
    /// one that does not.
    pub open spec fn seq_no(self, content_related: bool) -> i32 {
        if content_related {
            self.server_seq_no
        } else if self.server_seq_no - 1 < 0 {
            0
        } else {
            (self.server_seq_no - 1) as i32
        }
    }

    /// The session after a message was numbered: only a message that asks for an
    /// acknowledgement moves the number, by two.
    pub open spec fn numbered(self, content_related: bool) -> VpnSession {
        if content_related {
            VpnSession { server_seq_no: (self.server_seq_no + 2) as i32, ..self }
        } else {
            self
        }
    }

    /// Whether the session has a sequence number left for a message.
    pub fn has_number(&self, content_related: bool) -> (r: bool)
        ensures
            r == self.can_number(content_related),
    {
        if content_related {
            self.server_seq_no <= i32::MAX - 2
        } else {
            self.server_seq_no > i32::MIN
        }
    }

    /// Gives the next message its sequence number.
    pub fn next_seq_no(&mut self, content_related: bool) -> (r: i32)
        requires
            old(self).can_number(content_related),
        ensures
            r == old(self).seq_no(content_related),
            *final(self) == old(self).numbered(content_related),
    {
        let v: i32 = self.server_seq_no;
        if content_related {
            self.server_seq_no = v + 2;
            v
        } else if v - 1 < 0 {
            0
        } else {
            v - 1
        }
    }

    /// The bytes to encrypt of a message with the given body and identifier.
    pub fn seal_message(&mut self, body: &[u8], content_related: bool, msg_id: i64) -> (r: Vec<u8>)
        requires
            old(self).can_number(content_related),
        ensures
            r@ == crate::packet::message_form(
                old(self).salt,
                old(self).session_id@,
                msg_id,
                old(self).seq_no(content_related),
                body@,
            ),
            *final(self) == old(self).numbered(content_related),
    {
        let seq: i32 = self.next_seq_no(content_related);
        crate::packet::message_bytes(self.salt, &self.session_id, msg_id, seq, body)
    }

    /// The bytes to encrypt of the next message with the given body.
    ///
    /// Where no message identifier could be issued, the session stays.
    pub fn send_encrypted(&mut self, body: &[u8], content_related: bool, ids: &mut MsgIds) -> (r: Result<
        Vec<u8>,
        MsgIdError,
    >)
        requires
            old(self).can_number(content_related),
        ensures
            final(ids).plaintext == old(ids).plaintext,
            match r {
                Ok(plain) => {
                    &&& crate::msg_id::issued(old(ids).response, final(ids).response)
                    &&& plain@ == crate::packet::message_form(
                        old(self).salt,
                        old(self).session_id@,
                        final(ids).response,
                        old(self).seq_no(content_related),
                        body@,
                    )
                    &&& *final(self) == old(self).numbered(content_related)
                },
                Err(e) => {
                    &&& final(ids).response == old(ids).response
                    &&& e is Exhausted ==> old(ids).response > i64::MAX - 4
                    &&& *final(self) == *old(self)
                },
            },
    {
        match crate::msg_id::generate_response_msg_id(ids) {
            Ok(msg_id) => Ok(self.seal_message(body, content_related, msg_id)),
            Err(e) => Err(e),
        }
    }

    /// The packet that carries a message's cipher text.
    pub fn sealed_packet(&self, msg_key: &[u8; 16], encrypted: &[u8]) -> (r: Vec<u8>)
        ensures
            r@ == crate::packet::envelope_form(self.auth_key_id, msg_key@, encrypted@),
    {
        crate::packet::encrypted_packet(self.auth_key_id, msg_key, encrypted)
    }

    /// Takes out of a packet from the server what is left to decrypt.
    pub fn decrypt_server_message(&self, payload: &[u8]) -> (r: Result<Sealed, EnvelopeError>)
        ensures
            match r {
                Ok(sealed) => crate::packet::envelope_of(payload@, self.auth_key_id) == Ok::<
                    (Seq<u8>, Seq<u8>),
                    EnvelopeError,
                >((sealed.msg_key@, sealed.data@)),
                Err(e) => crate::packet::envelope_of(payload@, self.auth_key_id) == Err::<
                    (Seq<u8>, Seq<u8>),
                    EnvelopeError,
                >(e),
            },
    {
        crate::packet::open_envelope(payload, self.auth_key_id)
    }

    /// Whether a decrypted message of the session announces a negative length that
    /// reaches back into its own header.
    pub fn length_reaches_back(&self, plain: &[u8]) -> (r: bool)
        ensures
            r == crate::packet::reaches_back(plain@, self.session_id@),
    {
        crate::packet::length_reaches_back(plain, &self.session_id)
    }

    /// The body of a decrypted message from the server where its constructor is
    /// `wanted`; a message with another constructor is passed over.
    pub fn server_message_body(&self, plain: &[u8], wanted: u32) -> (r: Result<Option<Vec<u8>>, MessageError>)
        requires
            !crate::packet::reaches_back(plain@, self.session_id@),
        ensures
            match r {
                Ok(Some(body)) => crate::packet::server_body_of(plain@, self.session_id@, wanted) == Ok::<
                    Option<Seq<u8>>,
                    MessageError,
                >(Some(body@)),
                Ok(None) => crate::packet::server_body_of(plain@, self.session_id@, wanted) == Ok::<
                    Option<Seq<u8>>,
                    MessageError,
                >(None),
                Err(e) => crate::packet::server_body_of(plain@, self.session_id@, wanted) == Err::<
                    Option<Seq<u8>>,
                    MessageError,
                >(e),
            },
    {
        crate::packet::open_server_message(plain, &self.session_id, wanted)
    }
}

/// Sequence numbers keep their parity: a session whose number is odd and
/// positive gives odd numbers to messages that ask for an acknowledgement and
/// even ones to the others, and stays so; a new session is one.
pub proof fn seq_no_parity(s: VpnSession, content_related: bool)
    requires
        s.server_seq_no > 0,
        s.server_seq_no % 2 == 1,
        s.can_number(content_related),
    ensures
        s.seq_no(content_related) % 2 == if content_related { 1int } else { 0int },
        s.numbered(content_related).server_seq_no > 0,
        s.numbered(content_related).server_seq_no % 2 == 1,
        s.numbered(content_related).server_seq_no >= s.server_seq_no,
        content_related ==> s.numbered(content_related).server_seq_no > s.server_seq_no,
{
}

/// How messages are numbered: one that asks for an acknowledgement has the
/// session's number and moves it by two, so that the next such one is two
/// further; one that does not is numbered one below, never below zero, and moves
/// nothing. Nothing else of the session changes.
pub proof fn messages_are_numbered(s: VpnSession)
    ensures
        s.can_number(true) <==> s.server_seq_no + 2 <= i32::MAX,
        s.can_number(false) <==> s.server_seq_no - 1 >= i32::MIN,
        s.seq_no(true) == s.server_seq_no,
        s.server_seq_no >= 1 ==> s.seq_no(false) == s.server_seq_no - 1,
        s.server_seq_no < 1 ==> s.seq_no(false) == 0,
        s.can_number(true) ==> s.numbered(true).seq_no(true) == s.seq_no(true) + 2,
        s.can_number(true) && s.server_seq_no >= 0 ==> s.numbered(true).seq_no(false) == s.seq_no(true) + 1,
        s.numbered(false) == s,
        s.numbered(true).auth_key == s.auth_key,
        s.numbered(true).auth_key_id == s.auth_key_id,
        s.numbered(true).salt == s.salt,
        s.numbered(true).session_id == s.session_id,
{
}

/// What the server finds in a message of the session: its salt, its session, the
/// identifier, the number that was due and the body.
pub proof fn server_reads_the_message(s: VpnSession, content_related: bool, msg_id: i64, body: Seq<u8>)
    requires
        s.can_number(content_related),
        body.len() < 0x8000_0000,
    ensures
        ({
            let plain = crate::packet::message_form(
                s.salt,
                s.session_id@,
                msg_id,
                s.seq_no(content_related),
                body,
            );
            &&& crate::bytes::i64_of_le(plain.subrange(0, 8)) == s.salt
            &&& plain.subrange(8, 16) == s.session_id@
            &&& crate::bytes::i64_of_le(plain.subrange(16, 24)) == msg_id
            &&& crate::bytes::i32_of_le(plain.subrange(24, 28)) == if content_related {
                s.server_seq_no as int
            } else if s.server_seq_no > 0 {
                s.server_seq_no - 1
            } else {
                0
            }
            &&& crate::bytes::le_value(plain.subrange(28, 32)) == body.len()
            &&& plain.skip(32) == body
        }),
{
    crate::packet::message_fields(s.salt, s.session_id@, msg_id, s.seq_no(content_related), body);
}

} // verus!
