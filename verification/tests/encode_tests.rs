use protobuf::CodedInputStream;
use region_scan::encode::{decode_search_result, encode_search_result};
use region_scan::text::encode_text;
use region_scan::ChunkCoordinate;

fn coords(pairs: &[(i32, i32)]) -> Vec<ChunkCoordinate> {
    pairs.iter().map(|&(x, z)| ChunkCoordinate { x, z }).collect()
}

#[test]
fn binary_round_trip_of_two_coordinates() {
    let input = coords(&[(1, 2), (-5, 100)]);
    let bytes = encode_search_result(&input);
    let back = decode_search_result(&bytes).unwrap();
    assert_eq!(back, input);
}

#[test]
fn binary_round_trip_of_extreme_coordinates() {
    let input = coords(&[(i32::MIN, i32::MAX), (0, -1)]);
    let bytes = encode_search_result(&input);
    let back = decode_search_result(&bytes).unwrap();
    assert_eq!(back, input);
}

#[test]
fn empty_aggregate_encodes_to_empty_message() {
    let input: Vec<ChunkCoordinate> = Vec::new();
    let bytes = encode_search_result(&input);
    assert!(bytes.is_empty());
    let back = decode_search_result(&bytes).unwrap();
    assert!(back.is_empty());
}

#[test]
fn known_coordinate_encodes_to_expected_bytes() {
    // ChunkCoord { x: 1, z: 2 } nested twice under field 1 tags.
    let bytes = encode_search_result(&coords(&[(1, 2)]));
    assert_eq!(bytes, vec![0x0a, 0x06, 0x0a, 0x04, 0x08, 0x01, 0x10, 0x02]);
}

/// Reads the `SearchResult` message with the protobuf library's own
/// stream reader, as an independent conformant decoder.
fn decode_with_protobuf(bytes: &[u8]) -> Vec<(i32, i32)> {
    let mut out = Vec::new();
    let mut outer = CodedInputStream::from_bytes(bytes);
    while !outer.eof().unwrap() {
        let tag = outer.read_raw_varint32().unwrap();
        assert_eq!(tag, 0x0a, "SearchResult.result tag");
        let chunk_len = outer.read_raw_varint32().unwrap();
        let chunk_bytes = outer.read_raw_bytes(chunk_len).unwrap();
        let mut chunk = CodedInputStream::from_bytes(&chunk_bytes);
        let tag = chunk.read_raw_varint32().unwrap();
        assert_eq!(tag, 0x0a, "Chunk.coord tag");
        let coord_len = chunk.read_raw_varint32().unwrap();
        let coord_bytes = chunk.read_raw_bytes(coord_len).unwrap();
        assert!(chunk.eof().unwrap());
        let mut coord = CodedInputStream::from_bytes(&coord_bytes);
        let mut x: i32 = 0;
        let mut z: i32 = 0;
        while !coord.eof().unwrap() {
            match coord.read_raw_varint32().unwrap() {
                0x08 => x = coord.read_int32().unwrap(),
                0x10 => z = coord.read_int32().unwrap(),
                other => panic!("unexpected ChunkCoord tag {other}"),
            }
        }
        out.push((x, z));
    }
    out
}

#[test]
fn protobuf_library_reads_the_encoding_back() {
    let pairs = [(1, 2), (-5, 100), (i32::MIN, i32::MAX)];
    let bytes = encode_search_result(&coords(&pairs));
    assert_eq!(decode_with_protobuf(&bytes), pairs.to_vec());
}

#[test]
fn truncated_binary_message_is_rejected() {
    let mut bytes = encode_search_result(&coords(&[(1, 2), (-5, 100)]));
    bytes.pop();
    assert!(decode_search_result(&bytes).is_none());
}

#[test]
fn binary_message_with_wrong_tag_is_rejected() {
    let mut bytes = encode_search_result(&coords(&[(1, 2)]));
    bytes[0] = 0x08;
    assert!(decode_search_result(&bytes).is_none());
}

#[test]
fn binary_message_with_overlong_length_is_rejected() {
    let mut bytes = encode_search_result(&coords(&[(1, 2)]));
    bytes[1] = 0x7f;
    assert!(decode_search_result(&bytes).is_none());
}

#[test]
fn text_mode_prints_one_line_per_coordinate() {
    let out = encode_text(&coords(&[(3, 4), (-5, 100)]));
    assert_eq!(out, b"(3, 4)\n(-5, 100)\n".to_vec());
}

#[test]
fn text_mode_handles_extreme_values() {
    let out = encode_text(&coords(&[(i32::MIN, i32::MAX)]));
    assert_eq!(out, b"(-2147483648, 2147483647)\n".to_vec());
}

#[test]
fn text_mode_of_empty_aggregate_is_empty() {
    let out = encode_text(&Vec::new());
    assert!(out.is_empty());
}
