use barp_tunnel::tl::serialize_bytes_tl;
use grammers_tl_types::Deserializable;

fn appended(buf: &[u8], bytes: &[u8]) -> Vec<u8> {
    let mut out = buf.to_vec();
    serialize_bytes_tl(&mut out, bytes);
    out
}

#[test]
fn short_strings() {
    assert_eq!(appended(&[], &[]), vec![0, 0, 0, 0]);
    assert_eq!(appended(&[], &[5]), vec![1, 5, 0, 0]);
    assert_eq!(appended(&[], &[5, 6, 7]), vec![3, 5, 6, 7]);
    assert_eq!(appended(&[], &[5, 6, 7, 8]), vec![4, 5, 6, 7, 8, 0, 0, 0]);
}

#[test]
fn the_whole_buffer_is_filled_up() {
    assert_eq!(appended(&[9], &[5]), vec![9, 1, 5, 0]);
    assert_eq!(appended(&[9, 9], &[5]), vec![9, 9, 1, 5]);
}

#[test]
fn long_strings() {
    let out = appended(&[], &[1; 253]);
    assert_eq!(out[0], 253);
    assert_eq!(out.len(), 256);
    let out = appended(&[], &[1; 254]);
    assert_eq!(&out[..4], &[254, 254, 0, 0]);
    assert_eq!(out.len(), 260);
    assert_eq!(&out[258..], &[0, 0]);
    let out = appended(&[], &[1; 0x010203]);
    assert_eq!(&out[..4], &[254, 3, 2, 1]);
    assert_eq!(out.len(), 4 + 0x010203 + 1);
}

#[test]
fn grammers_reads_them_back() {
    for len in [0usize, 1, 2, 3, 4, 252, 253, 254, 255, 256, 1000] {
        let bytes: Vec<u8> = (0..len).map(|i| i as u8).collect();
        assert_eq!(Vec::<u8>::from_bytes(&appended(&[], &bytes)), Ok(bytes));
    }
}
