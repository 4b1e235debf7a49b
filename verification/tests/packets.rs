use barp_tunnel::msg_id::MsgIds;
use barp_tunnel::packet::{
    config_length_fits, encrypted_packet, length_reaches_back, message_bytes, open_config_message, open_envelope,
    open_server_message, parse_plaintext, plaintext_packet, write_plaintext_raw, EnvelopeError, MessageError,
    PlaintextError,
};

#[test]
fn plaintext_packet_layout() {
    let packet = plaintext_packet(&[1, 2, 3], 0x0102030405060708);
    assert_eq!(
        packet,
        vec![0, 0, 0, 0, 0, 0, 0, 0, 8, 7, 6, 5, 4, 3, 2, 1, 3, 0, 0, 0, 1, 2, 3]
    );
}

#[test]
fn plaintext_round_trip() {
    let packet = plaintext_packet(&[1, 2, 3], 5);
    assert_eq!(parse_plaintext(&packet), Ok((vec![1, 2, 3], 5)));
    let packet = plaintext_packet(&[], -2);
    assert_eq!(parse_plaintext(&packet), Ok((vec![], -2)));
}

#[test]
fn plaintext_ignores_what_follows() {
    let mut packet = plaintext_packet(&[1, 2, 3], 5);
    packet.push(9);
    assert_eq!(parse_plaintext(&packet), Ok((vec![1, 2, 3], 5)));
}

#[test]
fn plaintext_refusals() {
    assert_eq!(parse_plaintext(&[0; 19]), Err(PlaintextError::TooShort));
    let packet = plaintext_packet(&[1, 2, 3], 5);
    assert_eq!(parse_plaintext(&packet[..22]), Err(PlaintextError::LengthMismatch));
    assert_eq!(parse_plaintext(&packet[..20]), Err(PlaintextError::LengthMismatch));
}

#[test]
fn plaintext_key_field_is_not_looked_at() {
    let mut packet = plaintext_packet(&[4], 5);
    packet[0] = 1;
    assert_eq!(parse_plaintext(&packet), Ok((vec![4], 5)));
}

#[test]
fn written_plaintext_carries_the_issued_id() {
    let mut ids = MsgIds::new();
    let first = write_plaintext_raw(&[7, 8], &mut ids).unwrap();
    let (data, id) = parse_plaintext(&first).unwrap();
    assert_eq!(data, vec![7, 8]);
    assert_eq!(id, ids.plaintext);
    assert_eq!(id % 4, 1);
    assert_eq!(ids.response, 0);
    let second = write_plaintext_raw(&[], &mut ids).unwrap();
    assert!(parse_plaintext(&second).unwrap().1 > id);
}

#[test]
fn envelope_layout() {
    let packet = encrypted_packet(0x0102030405060708, &[0xaa; 16], &[1, 2]);
    let mut expected = vec![8, 7, 6, 5, 4, 3, 2, 1];
    expected.extend_from_slice(&[0xaa; 16]);
    expected.extend_from_slice(&[1, 2]);
    assert_eq!(packet, expected);
}

#[test]
fn envelope_opens_under_its_key() {
    let packet = encrypted_packet(-7, &[3; 16], &[5; 32]);
    let sealed = open_envelope(&packet, -7).unwrap();
    assert_eq!(sealed.msg_key, [3; 16]);
    assert_eq!(sealed.data, vec![5; 32]);
    assert_eq!(open_envelope(&packet, 7).unwrap_err(), EnvelopeError::KeyIdMismatch);
}

#[test]
fn envelope_drops_a_broken_block() {
    let packet = encrypted_packet(1, &[3; 16], &[5; 47]);
    assert_eq!(open_envelope(&packet, 1).unwrap().data.len(), 32);
    let packet = encrypted_packet(1, &[3; 16], &[5; 15]);
    assert_eq!(open_envelope(&packet, 1).unwrap().data.len(), 0);
}

#[test]
fn envelope_too_short() {
    let packet = encrypted_packet(1, &[3; 16], &[]);
    assert_eq!(open_envelope(&packet[..23], 1).unwrap_err(), EnvelopeError::TooShort);
    assert!(open_envelope(&packet, 1).is_ok());
}

#[test]
fn message_layout() {
    let plain = message_bytes(1, &[2; 8], 3, -1, &[9, 9]);
    assert_eq!(
        plain,
        vec![
            1, 0, 0, 0, 0, 0, 0, 0, 2, 2, 2, 2, 2, 2, 2, 2, 3, 0, 0, 0, 0, 0, 0, 0, 0xff, 0xff, 0xff, 0xff, 2, 0, 0,
            0, 9, 9
        ]
    );
}

fn with_length(len: i32, body: &[u8]) -> Vec<u8> {
    let mut plain = message_bytes(1, &[2; 8], 3, 4, body);
    plain[28..32].copy_from_slice(&len.to_le_bytes());
    plain
}

#[test]
fn server_message_by_constructor() {
    let plain = message_bytes(1, &[2; 8], 3, 4, &[0x78, 0x56, 0x34, 0x12, 5]);
    assert_eq!(
        open_server_message(&plain, &[2; 8], 0x12345678),
        Ok(Some(vec![0x78, 0x56, 0x34, 0x12, 5]))
    );
    assert_eq!(open_server_message(&plain, &[2; 8], 0x12345679), Ok(None));
}

#[test]
fn server_message_refusals() {
    let plain = message_bytes(1, &[2; 8], 3, 4, &[1, 2, 3, 4]);
    assert_eq!(open_server_message(&plain[..31], &[2; 8], 0), Err(MessageError::TooShort));
    assert_eq!(open_server_message(&plain, &[1; 8], 0), Err(MessageError::SessionMismatch));
    assert_eq!(
        open_server_message(&with_length(5, &[1, 2, 3, 4]), &[2; 8], 0),
        Err(MessageError::SizeMismatch)
    );
    assert_eq!(
        open_server_message(&with_length(3, &[1, 2, 3, 4]), &[2; 8], 0),
        Err(MessageError::SizeMismatch)
    );
    assert_eq!(
        open_server_message(&with_length(-33, &[1, 2, 3, 4]), &[2; 8], 0),
        Err(MessageError::SizeMismatch)
    );
}

#[test]
fn server_message_may_be_followed_by_padding() {
    let plain = with_length(4, &[1, 0, 0, 0, 7, 7, 7]);
    assert_eq!(open_server_message(&plain, &[2; 8], 1), Ok(Some(vec![1, 0, 0, 0])));
}

#[test]
fn lengths_that_reach_back() {
    assert!(length_reaches_back(&with_length(-1, &[0; 4]), &[2; 8]));
    assert!(length_reaches_back(&with_length(-32, &[0; 4]), &[2; 8]));
    assert!(!length_reaches_back(&with_length(-33, &[0; 4]), &[2; 8]));
    assert!(!length_reaches_back(&with_length(0, &[0; 4]), &[2; 8]));
    assert!(!length_reaches_back(&with_length(-1, &[0; 4]), &[1; 8]));
    assert!(!length_reaches_back(&[0; 31], &[0; 8]));
}

#[test]
fn config_message_body() {
    let plain = message_bytes(1, &[2; 8], 3, 4, &[1, 2, 3]);
    assert!(config_length_fits(&plain, &[2; 8]));
    assert_eq!(open_config_message(&plain, &[2; 8]), Ok(vec![1, 2, 3]));
    assert_eq!(open_config_message(&plain, &[1; 8]), Err(MessageError::SessionMismatch));
    assert_eq!(open_config_message(&plain[..31], &[2; 8]), Err(MessageError::TooShort));
    assert_eq!(open_config_message(&with_length(0, &[1]), &[2; 8]), Ok(vec![]));
}

#[test]
fn config_lengths_that_do_not_fit() {
    assert!(!config_length_fits(&with_length(4, &[1, 2, 3]), &[2; 8]));
    assert!(!config_length_fits(&with_length(-1, &[1, 2, 3]), &[2; 8]));
    assert!(config_length_fits(&with_length(2, &[1, 2, 3]), &[2; 8]));
}
