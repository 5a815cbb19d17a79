use gltfxmp::align_to_multiple_of_four;
use gltfxmp::codec::{decode_glb, encode_glb, try_encode_glb, GlbError};

fn le(n: u32) -> Vec<u8> {
    vec![
        (n & 0xFF) as u8,
        ((n >> 8) & 0xFF) as u8,
        ((n >> 16) & 0xFF) as u8,
        ((n >> 24) & 0xFF) as u8,
    ]
}

fn header(version: u32, total: u32) -> Vec<u8> {
    let mut h = b"glTF".to_vec();
    h.extend(le(version));
    h.extend(le(total));
    h
}

#[test]
fn align_table() {
    assert_eq!(align_to_multiple_of_four(0), 0);
    assert_eq!(align_to_multiple_of_four(1), 4);
    assert_eq!(align_to_multiple_of_four(4), 4);
    assert_eq!(align_to_multiple_of_four(5), 8);
}

#[test]
fn encode_pads_json_with_spaces() {
    let json = b"{}".to_vec();
    let out = encode_glb(&json, None);
    let mut expected = header(2, 4);
    expected.extend(le(4));
    expected.extend(b"JSON");
    expected.extend(b"{}  ");
    assert_eq!(out, expected);
}

#[test]
fn encode_appends_binary_chunk() {
    let json = b"null".to_vec();
    let bin = vec![1u8, 2, 3];
    let out = encode_glb(&json, Some(&bin));
    // The declared total counts only the padded JSON payload plus the
    // binary payload, not the header or chunk headers.
    let mut expected = header(2, 7);
    expected.extend(le(4));
    expected.extend(b"JSON");
    expected.extend(b"null");
    expected.extend(le(3));
    expected.extend(b"BIN\0");
    expected.extend([1u8, 2, 3]);
    assert_eq!(out, expected);
}

#[test]
fn round_trip_aligned_json_no_bin() {
    let json = b"null".to_vec();
    let out = encode_glb(&json, None);
    let glb = decode_glb(&out).unwrap();
    assert_eq!(glb.json, json);
    assert_eq!(glb.bin, None);
}

#[test]
fn round_trip_aligned_json_with_bin() {
    let json = b"{\"a\":1}\n".to_vec();
    let bin = vec![9u8, 8, 7, 6, 5];
    let out = encode_glb(&json, Some(&bin));
    let glb = decode_glb(&out).unwrap();
    assert_eq!(glb.json, json);
    assert_eq!(glb.bin, Some(bin));
}

#[test]
fn round_trip_unaligned_json() {
    let json = b"{\"k\":2}".to_vec();
    let bin = vec![0u8; 4];
    let out = encode_glb(&json, Some(&bin));
    let glb = decode_glb(&out).unwrap();
    // The JSON chunk's declared length is the padded one, so the decoded
    // payload carries the space padding; the semantic content is intact.
    assert_eq!(&glb.json[..json.len()], &json[..]);
    assert!(glb.json[json.len()..].iter().all(|b| *b == b' '));
    assert_eq!(glb.json.len() % 4, 0);
    assert_eq!(glb.bin, Some(bin));
}

#[test]
fn decode_rejects_bad_magic() {
    let mut bytes = b"glTG".to_vec();
    bytes.extend(le(2));
    bytes.extend(le(0));
    assert_eq!(decode_glb(&bytes), Err(GlbError::InvalidMagic));
}

#[test]
fn decode_rejects_bad_version() {
    let bytes = header(1, 0);
    assert_eq!(decode_glb(&bytes), Err(GlbError::UnsupportedVersion));
}

#[test]
fn decode_requires_a_json_chunk() {
    // A bare header has no chunk at all.
    let bytes = header(2, 0);
    assert_eq!(decode_glb(&bytes), Err(GlbError::MissingJsonChunk));
    // A first chunk of another type does not count either.
    let mut bytes = header(2, 4);
    bytes.extend(le(4));
    bytes.extend(b"BIN\0");
    bytes.extend([0u8; 4]);
    assert_eq!(decode_glb(&bytes), Err(GlbError::MissingJsonChunk));
}

#[test]
fn decode_rejects_truncated_input() {
    assert_eq!(decode_glb(&b"gl".to_vec()), Err(GlbError::Parse));
    // A truncated chunk header after the 12-byte container header.
    let mut bytes = header(2, 0);
    bytes.extend(le(4));
    assert_eq!(decode_glb(&bytes), Err(GlbError::Parse));
    // A JSON chunk whose declared length runs past the end.
    let mut bytes = header(2, 8);
    bytes.extend(le(8));
    bytes.extend(b"JSON");
    bytes.extend(b"{}  ");
    assert_eq!(decode_glb(&bytes), Err(GlbError::Parse));
}

#[test]
fn decode_skips_unknown_chunks() {
    let mut bytes = header(2, 0);
    bytes.extend(le(4));
    bytes.extend(b"JSON");
    bytes.extend(b"{}  ");
    bytes.extend(le(2));
    bytes.extend(b"XTRA");
    bytes.extend([0xAAu8, 0xBB]);
    bytes.extend(le(1));
    bytes.extend(b"BIN\0");
    bytes.extend([0x42u8]);
    let glb = decode_glb(&bytes).unwrap();
    assert_eq!(glb.json, b"{}  ".to_vec());
    assert_eq!(glb.bin, Some(vec![0x42u8]));
}

#[test]
fn decode_reads_but_ignores_declared_total() {
    // The header's declared total length is read, never used to bound
    // parsing.
    let mut bytes = header(2, 0xFFFF_FFFF);
    bytes.extend(le(4));
    bytes.extend(b"JSON");
    bytes.extend(b"{}  ");
    let glb = decode_glb(&bytes).unwrap();
    assert_eq!(glb.json, b"{}  ".to_vec());
    assert_eq!(glb.bin, None);
}

#[test]
fn try_encode_matches_encode() {
    let json = b"{}".to_vec();
    let bin = vec![7u8];
    let checked = try_encode_glb(&json, Some(&bin)).unwrap();
    assert_eq!(checked, encode_glb(&json, Some(&bin)));
}
