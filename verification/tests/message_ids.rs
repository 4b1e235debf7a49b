use barp_tunnel::msg_id::{
    generate_plaintext_msg_id, generate_response_msg_id, next_msg_id, next_msg_id_at, next_msg_id_by, wanted_id, MsgIdError, MsgIds,
};

#[test]
fn id_carries_seconds_and_fraction() {
    assert_eq!(wanted_id(1, 500_000_000), 0x1_8000_0001);
    assert_eq!(wanted_id(1_700_000_000, 123_456_789), 7301444403730242869);
    assert_eq!(wanted_id(0, 0), 1);
    assert_eq!(wanted_id(7, 999_999_999), (7 << 32) + 0xffff_fff9);
}

#[test]
fn id_keeps_the_low_seconds() {
    assert_eq!(wanted_id(0x1_0000_0001, 0), 0x1_0000_0001);
    assert_eq!(wanted_id(2_147_483_648, 123_456_789), -9223372036324532939);
}

#[test]
fn later_time_gives_its_own_id() {
    let mut last = wanted_id(100, 0);
    let id = next_msg_id_at(&mut last, 101, 0);
    assert_eq!(id, (101 << 32) + 1);
    assert_eq!(last, id);
}

#[test]
fn same_time_still_increases() {
    let mut last = 0;
    let first = next_msg_id_at(&mut last, 100, 5);
    let second = next_msg_id_at(&mut last, 100, 5);
    let third = next_msg_id_at(&mut last, 99, 0);
    assert_eq!(second, first + 4);
    assert_eq!(third, second + 4);
    assert_eq!(last, third);
}

#[test]
fn other_remainders_are_rounded_up() {
    let mut last = i64::MAX - 4;
    assert_eq!(next_msg_id_at(&mut last, 0, 0), i64::MAX - 2);
    let mut last = 1006;
    assert_eq!(next_msg_id_at(&mut last, 0, 0), 1009);
}

#[test]
fn clock_ids_increase_and_carry_the_time() {
    let mut last = 0;
    let now = std::time::SystemTime::now().duration_since(std::time::UNIX_EPOCH).unwrap().as_secs() as i64;
    let first = next_msg_id(&mut last).unwrap();
    let second = next_msg_id(&mut last).unwrap();
    assert!(second > first);
    assert_eq!(last, second);
    assert!((first >> 32) - now <= 2 && (first >> 32) >= now);
    assert_eq!(first % 4, 1);
}

#[test]
fn readings_of_the_clock() {
    let mut last = 5;
    assert_eq!(next_msg_id_by(&mut last, None), Err(MsgIdError::ClockBeforeEpoch));
    assert_eq!(last, 5);
    assert_eq!(next_msg_id_by(&mut last, Some((1, 0))), Ok(0x1_0000_0001));
    assert_eq!(next_msg_id_by(&mut last, Some((1, 0))), Ok(0x1_0000_0005));
    let mut last = i64::MAX - 3;
    assert_eq!(next_msg_id_by(&mut last, Some((1, 0))), Err(MsgIdError::Exhausted));
    assert_eq!(last, i64::MAX - 3);
}

#[test]
fn exhausted_ids_stay() {
    let mut last = i64::MAX;
    assert_eq!(next_msg_id(&mut last), Err(MsgIdError::Exhausted));
    assert_eq!(last, i64::MAX);
}

#[test]
fn the_two_kinds_count_apart() {
    let mut ids = MsgIds::new();
    let a = generate_plaintext_msg_id(&mut ids).unwrap();
    assert_eq!(ids.plaintext, a);
    assert_eq!(ids.response, 0);
    let b = generate_response_msg_id(&mut ids).unwrap();
    assert_eq!(ids.plaintext, a);
    assert_eq!(ids.response, b);
}
