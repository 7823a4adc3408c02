use mathtex::package::{pack_packaged_format, unpack_packaged_format, encode_packaged_payload, decode_packaged_payload};

#[test]
fn packaged_formats_round_trip() {
    let format = b"format image bytes".to_vec();
    let table = vec![(7usize, "lmroman10-regular.otf".to_string(), 655360), (9usize, "cmr10".to_string(), -1)];
    let packed = pack_packaged_format(&format, &table);
    assert_eq!(&packed[..8], &[b'M', b'T', b'X', b'P', b'K', b'G', 2, 1]);
    let (bytes, fonts) = unpack_packaged_format(&packed).expect("packed data unpacks");
    assert_eq!(bytes, format);
    assert_eq!(fonts, table);
}

#[test]
fn payload_layout_is_little_endian() {
    let payload = encode_packaged_payload(b"ab", &[(1usize, "x".to_string(), 2)]);
    assert_eq!(
        payload,
        vec![2, 0, 0, 0, 0, 0, 0, 0, b'a', b'b', 1, 0, 0, 0, 1, 0, 0, 0, 0, 0, 0, 0, 2, 0, 0, 0, 1, 0, 0, 0, b'x']
    );
    assert_eq!(decode_packaged_payload(&payload), Some((b"ab".to_vec(), vec![(1usize, "x".to_string(), 2)])));
}

#[test]
fn stored_payloads_unpack_without_compression() {
    let payload = encode_packaged_payload(b"", &[]);
    let mut file = vec![b'M', b'T', b'X', b'P', b'K', b'G', 2, 0];
    file.extend_from_slice(&(payload.len() as u64).to_le_bytes());
    file.extend_from_slice(&payload);
    assert_eq!(unpack_packaged_format(&file), Some((Vec::new(), Vec::new())));
}

#[test]
fn malformed_packages_are_rejected() {
    let packed = pack_packaged_format(b"x", &[]);
    let mut wrong_magic = packed.clone();
    wrong_magic[0] = b'N';
    assert_eq!(unpack_packaged_format(&wrong_magic), None);
    let mut wrong_version = packed.clone();
    wrong_version[6] = 3;
    assert_eq!(unpack_packaged_format(&wrong_version), None);
    let mut wrong_compression = packed.clone();
    wrong_compression[7] = 9;
    assert_eq!(unpack_packaged_format(&wrong_compression), None);
    let mut wrong_length = packed.clone();
    wrong_length[8] = wrong_length[8].wrapping_add(1);
    assert_eq!(unpack_packaged_format(&wrong_length), None);
    assert_eq!(unpack_packaged_format(&packed[..10]), None);
    let invalid_utf8 = vec![0, 0, 0, 0, 0, 0, 0, 0, 1, 0, 0, 0, 0, 0, 0, 0, 0, 0, 0, 0, 0, 0, 0, 0, 1, 0, 0, 0, 0xff];
    assert_eq!(decode_packaged_payload(&invalid_utf8), None);
}
