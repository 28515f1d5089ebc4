use appvar::{gen_checksum, parse_appvar, AppVar, DecodeError, VarEntry};

fn signature() -> Vec<u8> {
    vec![0x2a, 0x2a, 0x54, 0x49, 0x38, 0x33, 0x46, 0x2a, 0x1a, 0x0a, 0x00]
}

fn comment_bytes() -> Vec<u8> {
    let mut c = vec![0u8; 42];
    c[0] = b'h';
    c[1] = b'i';
    c[41] = 0x7f;
    c
}

/// A full buffer: signature, product id, comment, little-endian body
/// length, body, and a trailing checksum (`None` means the correct one).
fn build_buffer(product_id: u8, comment: &[u8], body: &[u8], checksum: Option<u16>) -> Vec<u8> {
    let mut out = signature();
    out.push(product_id);
    out.extend_from_slice(comment);
    out.extend_from_slice(&(body.len() as u16).to_le_bytes());
    out.extend_from_slice(body);
    let ck = match checksum {
        Some(c) => c,
        None => gen_checksum(body),
    };
    out.extend_from_slice(&ck.to_le_bytes());
    out
}

/// One record's bytes, with the redundant big-endian length field
/// chosen freely.
fn record_bytes(type_id: u8, name: &[u8], version: u8, flag: u8, be_len: u16, data: &[u8]) -> Vec<u8> {
    let mut r = vec![13, 0];
    r.extend_from_slice(&(data.len() as u16).to_le_bytes());
    r.push(type_id);
    r.extend_from_slice(name);
    r.push(version);
    r.push(flag);
    r.extend_from_slice(&be_len.to_be_bytes());
    r.extend_from_slice(data);
    r
}

#[test]
fn checksum_example() {
    assert_eq!(gen_checksum(&[0xff, 0xff]), 0x01fe);
    assert_eq!(gen_checksum(&[]), 0);
    assert_eq!(gen_checksum(&[1, 2, 3]), 6);
}

#[test]
fn checksum_keeps_low_16_bits() {
    let data = vec![0xffu8; 260];
    assert_eq!(gen_checksum(&data), ((260u32 * 255) % 65536) as u16);
}

#[test]
fn empty_container_encodes_to_header_and_zero_checksum() {
    let av = AppVar { comment: comment_bytes(), product_id: 0x0a, var_entries: vec![] };
    let encoded = av.encode();
    let mut expected = signature();
    expected.push(0x0a);
    expected.extend_from_slice(&comment_bytes());
    expected.extend_from_slice(&[0x00, 0x00]);
    expected.extend_from_slice(&[0x00, 0x00]);
    assert_eq!(encoded, expected);
    let back = parse_appvar(&encoded, true).unwrap();
    assert_eq!(back.var_entries.len(), 0);
    assert_eq!(back.product_id, 0x0a);
    assert_eq!(back.comment, comment_bytes());
}

#[test]
fn round_trip_two_records() {
    let av = AppVar {
        comment: comment_bytes(),
        product_id: 0x42,
        var_entries: vec![
            VarEntry {
                type_id: 0x15,
                data: vec![1, 2, 3, 4, 5],
                name: b"ABCDEFGH".to_vec(),
                archived: true,
                version: 2,
            },
            VarEntry {
                type_id: 0x06,
                data: vec![],
                name: b"XY\0\0\0\0\0\0".to_vec(),
                archived: false,
                version: 0,
            },
        ],
    };
    let encoded = av.encode();
    let back = parse_appvar(&encoded, true).unwrap();
    assert_eq!(back, av);
}

#[test]
fn encoded_record_byte_layout() {
    let av = AppVar {
        comment: vec![0u8; 42],
        product_id: 0,
        var_entries: vec![VarEntry {
            type_id: 0x15,
            data: vec![9, 8, 7],
            name: b"NAMENAME".to_vec(),
            archived: true,
            version: 5,
        }],
    };
    let encoded = av.encode();
    assert_eq!(&encoded[54..56], &[20, 0]);
    let rec = &encoded[56..76];
    assert_eq!(&rec[0..2], &[13, 0]);
    assert_eq!(&rec[2..4], &[3, 0]);
    assert_eq!(rec[4], 0x15);
    assert_eq!(&rec[5..13], b"NAMENAME");
    assert_eq!(rec[13], 5);
    assert_eq!(rec[14], 0x80);
    assert_eq!(&rec[15..17], &[0, 3]);
    assert_eq!(&rec[17..20], &[9, 8, 7]);
    let ck = gen_checksum(rec);
    assert_eq!(&encoded[76..78], &ck.to_le_bytes());
    assert_eq!(encoded.len(), 78);
}

#[test]
fn archived_flag_is_strict() {
    for (flag, expected) in [
        (0x80u8, true),
        (0x00u8, false),
        (0x01u8, false),
        (0xffu8, false),
        (0x81u8, false),
    ] {
        let body = record_bytes(1, b"VARNAME\0", 0, flag, 0, &[]);
        let buf = build_buffer(0, &[0u8; 42], &body, None);
        let av = parse_appvar(&buf, true).unwrap();
        assert_eq!(av.var_entries[0].archived, expected, "flag byte {flag:#04x}");
    }
}

#[test]
fn redundant_big_endian_length_is_ignored() {
    let body = record_bytes(7, b"AABBCCDD", 1, 0x00, 0xbeef, &[10, 20, 30, 40]);
    let buf = build_buffer(0, &[0u8; 42], &body, None);
    let av = parse_appvar(&buf, true).unwrap();
    assert_eq!(av.var_entries.len(), 1);
    assert_eq!(av.var_entries[0].data, vec![10, 20, 30, 40]);
}

#[test]
fn truncated_data_section_is_rejected() {
    let mut buf = signature();
    buf.push(0);
    buf.extend_from_slice(&[0u8; 42]);
    buf.extend_from_slice(&100u16.to_le_bytes());
    buf.extend_from_slice(&[0u8; 50]);
    assert_eq!(parse_appvar(&buf, true), Err(DecodeError::TruncatedDataSection));
    assert_eq!(parse_appvar(&buf, false), Err(DecodeError::TruncatedDataSection));
}

#[test]
fn corrupted_checksum_fails_only_when_verified() {
    let body = record_bytes(2, b"SOMENAME", 3, 0x80, 0, &[5, 6]);
    let good = build_buffer(1, &[0u8; 42], &body, None);
    let mut bad = good.clone();
    let last = bad.len() - 1;
    bad[last] ^= 0x55;
    assert_eq!(parse_appvar(&bad, true), Err(DecodeError::ChecksumMismatch));
    let skipped = parse_appvar(&bad, false).unwrap();
    let verified = parse_appvar(&good, true).unwrap();
    assert_eq!(skipped, verified);
}

#[test]
fn missing_checksum_fails_only_when_verified() {
    let body = record_bytes(2, b"SOMENAME", 3, 0x00, 0, &[5, 6]);
    let full = build_buffer(1, &[0u8; 42], &body, None);
    let without = &full[..full.len() - 2];
    assert_eq!(parse_appvar(without, true), Err(DecodeError::TruncatedChecksum));
    let av = parse_appvar(without, false).unwrap();
    assert_eq!(av.var_entries.len(), 1);
}

#[test]
fn signature_mismatch_is_rejected() {
    let body: Vec<u8> = vec![];
    let mut buf = build_buffer(0, &[0u8; 42], &body, None);
    buf[3] = b'Z';
    assert_eq!(parse_appvar(&buf, true), Err(DecodeError::SignatureMismatch));
    assert_eq!(parse_appvar(&[0x2a, 0x2a], true), Err(DecodeError::SignatureMismatch));
    assert_eq!(parse_appvar(&[], false), Err(DecodeError::SignatureMismatch));
}

#[test]
fn truncated_header_is_rejected() {
    let mut buf = signature();
    buf.push(7);
    buf.extend_from_slice(&[0u8; 20]);
    assert_eq!(parse_appvar(&buf, true), Err(DecodeError::TruncatedHeader));
}

#[test]
fn bad_record_marker_is_rejected() {
    let mut body = record_bytes(1, b"GOODNAME", 0, 0, 0, &[]);
    body[0] = 14;
    let buf = build_buffer(0, &[0u8; 42], &body, None);
    assert_eq!(parse_appvar(&buf, true), Err(DecodeError::BadMarker));
}

#[test]
fn truncated_record_payload_is_rejected() {
    let mut body = record_bytes(1, b"GOODNAME", 0, 0, 0, &[1, 2]);
    body[2] = 5;
    let buf = build_buffer(0, &[0u8; 42], &body, None);
    assert_eq!(parse_appvar(&buf, true), Err(DecodeError::TruncatedRecord));
}

#[test]
fn stray_byte_in_data_section_is_rejected() {
    let mut body = record_bytes(1, b"GOODNAME", 0, 0, 0, &[1, 2]);
    body.push(0);
    let buf = build_buffer(0, &[0u8; 42], &body, None);
    assert_eq!(parse_appvar(&buf, true), Err(DecodeError::TruncatedRecord));
}

#[test]
fn bytes_after_checksum_are_ignored() {
    let body = record_bytes(9, b"TRAILING", 1, 0x80, 3, &[1]);
    let mut buf = build_buffer(3, &[1u8; 42], &body, None);
    buf.extend_from_slice(&[0xde, 0xad, 0xbe, 0xef]);
    let av = parse_appvar(&buf, true).unwrap();
    assert_eq!(av.var_entries.len(), 1);
    assert_eq!(av.var_entries[0].data, vec![1]);
    assert!(av.var_entries[0].archived);
}

#[test]
fn decoded_container_re_encodes_to_same_data_section() {
    let body = record_bytes(7, b"AABBCCDD", 1, 0x00, 0xbeef, &[10, 20, 30, 40]);
    let buf = build_buffer(0x11, &comment_bytes(), &body, None);
    let av = parse_appvar(&buf, true).unwrap();
    let re = av.encode();
    let back = parse_appvar(&re, true).unwrap();
    assert_eq!(back, av);
}
