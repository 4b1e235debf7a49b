use barp_tunnel::msg_id::{MsgIdError, MsgIds};
use barp_tunnel::packet::{encrypted_packet, message_bytes, EnvelopeError, MessageError};
use barp_tunnel::random::random_array;
use barp_tunnel::session::VpnSession;

fn session() -> VpnSession {
    VpnSession::new([1; 256], 42, 7, [3; 8])
}

#[test]
fn sequence_numbers() {
    let mut s = session();
    assert_eq!(s.next_seq_no(false), 0);
    assert_eq!(s.next_seq_no(true), 1);
    assert_eq!(s.next_seq_no(true), 3);
    assert_eq!(s.next_seq_no(false), 4);
    assert_eq!(s.next_seq_no(true), 5);
    assert_eq!(s.server_seq_no, 7);
}

#[test]
fn sequence_numbers_are_never_negative() {
    let mut s = session();
    s.server_seq_no = 0;
    assert_eq!(s.next_seq_no(false), 0);
    assert_eq!(s.next_seq_no(true), 0);
    assert_eq!(s.server_seq_no, 2);
}

#[test]
fn numbers_run_out() {
    let mut s = session();
    assert!(s.has_number(true) && s.has_number(false));
    s.server_seq_no = i32::MAX - 2;
    assert!(s.has_number(true));
    s.server_seq_no = i32::MAX - 1;
    assert!(!s.has_number(true));
    assert!(s.has_number(false));
    s.server_seq_no = i32::MIN;
    assert!(!s.has_number(false));
}

#[test]
fn sealed_message() {
    let mut s = session();
    assert_eq!(s.seal_message(&[9, 8], true, 5), message_bytes(7, &[3; 8], 5, 1, &[9, 8]));
    assert_eq!(s.seal_message(&[], false, 6), message_bytes(7, &[3; 8], 6, 2, &[]));
}

#[test]
fn sent_message_carries_the_issued_id() {
    let mut s = session();
    let mut ids = MsgIds::new();
    let plain = s.send_encrypted(&[9, 8], true, &mut ids).unwrap();
    assert_eq!(plain, message_bytes(7, &[3; 8], ids.response, 1, &[9, 8]));
    assert_eq!(ids.plaintext, 0);
    assert_eq!(s.server_seq_no, 3);
}

#[test]
fn without_an_id_the_session_stays() {
    let mut s = session();
    let mut ids = MsgIds { plaintext: 0, response: i64::MAX };
    assert_eq!(s.send_encrypted(&[9], true, &mut ids), Err(MsgIdError::Exhausted));
    assert_eq!(s.server_seq_no, 1);
}

#[test]
fn packets_of_the_session() {
    let s = session();
    let packet = s.sealed_packet(&[5; 16], &[6; 16]);
    assert_eq!(packet, encrypted_packet(42, &[5; 16], &[6; 16]));
    let sealed = s.decrypt_server_message(&packet).unwrap();
    assert_eq!(sealed.msg_key, [5; 16]);
    assert_eq!(sealed.data, vec![6; 16]);
    assert_eq!(
        s.decrypt_server_message(&encrypted_packet(1, &[5; 16], &[])).unwrap_err(),
        EnvelopeError::KeyIdMismatch
    );
    assert_eq!(s.decrypt_server_message(&[]).unwrap_err(), EnvelopeError::TooShort);
}

#[test]
fn messages_of_the_session() {
    let s = session();
    let plain = message_bytes(0, &[3; 8], 1, 1, &[1, 0, 0, 0, 5]);
    assert!(!s.length_reaches_back(&plain));
    assert_eq!(s.server_message_body(&plain, 1), Ok(Some(vec![1, 0, 0, 0, 5])));
    assert_eq!(s.server_message_body(&plain, 2), Ok(None));
    let other = message_bytes(0, &[4; 8], 1, 1, &[1, 0, 0, 0, 5]);
    assert_eq!(s.server_message_body(&other, 1), Err(MessageError::SessionMismatch));
    let mut back = plain;
    back[28..32].copy_from_slice(&(-4i32).to_le_bytes());
    assert!(s.length_reaches_back(&back));
}

#[test]
fn random_arrays_differ() {
    let a: [u8; 32] = random_array::<32>();
    let b: [u8; 32] = random_array::<32>();
    assert_ne!(a, b);
    assert_ne!(a, [0; 32]);
}
