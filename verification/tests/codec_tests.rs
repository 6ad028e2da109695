use optm::codec::{
    decode_index_buffer, decode_vertex_buffer, encode_index_buffer, encode_vertex_buffer,
    index_round_trip, vertex_round_trip, Codec,
};
use optm::error::Error;
use optm::raw::RawCodec;

#[test]
fn index_buffer_round_trips() {
    let codec = RawCodec;
    let indices: Vec<u32> = vec![0, 1, 2, 2, 1, 3, 3, 1, 0];
    let encoded = encode_index_buffer(&codec, &indices, 4).unwrap();
    let decoded = decode_index_buffer(&codec, &encoded, indices.len(), 4).unwrap();
    assert_eq!(decoded, indices);
    assert_eq!(index_round_trip(&codec, &indices, 4), indices);
}

#[test]
fn index_buffer_round_trips_at_two_byte_width() {
    let codec = RawCodec;
    let indices: Vec<u32> = vec![0, 1, 65535, 2];
    let encoded = encode_index_buffer(&codec, &indices, 65536).unwrap();
    let decoded = decode_index_buffer(&codec, &encoded, indices.len(), 2).unwrap();
    assert_eq!(decoded, indices);
}

#[test]
fn two_byte_width_rejects_wide_indices() {
    let codec = RawCodec;
    let indices: Vec<u32> = vec![0, 65536];
    let encoded = encode_index_buffer(&codec, &indices, 70000).unwrap();
    match decode_index_buffer(&codec, &encoded, indices.len(), 2) {
        Err(Error::Native(code)) => assert_ne!(code, 0),
        other => panic!("expected a native error, got {:?}", other),
    }
}

#[test]
fn encoded_index_length_is_within_bound() {
    let codec = RawCodec;
    let indices: Vec<u32> = vec![7, 8, 9, 9, 8, 10];
    let bound = codec.index_encode_bound(indices.len(), 11);
    let encoded = encode_index_buffer(&codec, &indices, 11).unwrap();
    assert!(encoded.len() <= bound);
}

#[test]
fn invalid_index_width_is_a_memory_error_without_codec_call() {
    let codec = RawCodec;
    // Five bytes are not a well-formed stream: the codec itself would
    // report a native error. The width check fires first, so the result
    // is a memory error and the codec's verdict is never consulted.
    let encoded = vec![0u8; 5];
    assert_eq!(decode_index_buffer(&codec, &encoded, 2, 1), Err(Error::Memory));
    assert_eq!(decode_index_buffer(&codec, &encoded, 2, 3), Err(Error::Memory));
    assert_eq!(decode_index_buffer(&codec, &encoded, 2, 8), Err(Error::Memory));
}

#[test]
fn corrupt_index_stream_is_a_native_error() {
    let codec = RawCodec;
    let encoded = vec![1u8, 2, 3, 4, 5];
    match decode_index_buffer(&codec, &encoded, 1, 4) {
        Err(Error::Native(code)) => assert_ne!(code, 0),
        other => panic!("expected a native error, got {:?}", other),
    }
}

#[test]
fn index_count_mismatch_is_a_native_error() {
    let codec = RawCodec;
    let indices: Vec<u32> = vec![1, 2, 3];
    let encoded = encode_index_buffer(&codec, &indices, 4).unwrap();
    match decode_index_buffer(&codec, &encoded, 5, 4) {
        Err(Error::Native(code)) => assert_ne!(code, 0),
        other => panic!("expected a native error, got {:?}", other),
    }
}

#[test]
fn vertex_buffer_round_trips() {
    let codec = RawCodec;
    // Three vertices of four bytes each.
    let vertices: Vec<u8> = vec![1, 2, 3, 4, 5, 6, 7, 8, 9, 10, 11, 12];
    let encoded = encode_vertex_buffer(&codec, &vertices, 4).unwrap();
    let decoded = decode_vertex_buffer(&codec, &encoded, 3, 4).unwrap();
    assert_eq!(decoded, vertices);
    assert_eq!(vertex_round_trip(&codec, &vertices, 4), vertices);
    // The same bytes as two six-byte vertices.
    assert_eq!(vertex_round_trip(&codec, &vertices, 6), vertices);
}

#[test]
fn encoded_vertex_length_is_within_bound() {
    let codec = RawCodec;
    let vertices: Vec<u8> = vec![9u8; 24];
    let bound = codec.vertex_encode_bound(4, 6);
    let encoded = encode_vertex_buffer(&codec, &vertices, 6).unwrap();
    assert!(encoded.len() <= bound);
}

#[test]
fn corrupt_vertex_stream_is_a_native_error() {
    let codec = RawCodec;
    let encoded = vec![1u8, 2, 3];
    match decode_vertex_buffer(&codec, &encoded, 2, 2) {
        Err(Error::Native(code)) => assert_ne!(code, 0),
        other => panic!("expected a native error, got {:?}", other),
    }
}

#[test]
fn empty_buffers_round_trip() {
    let codec = RawCodec;
    let indices: Vec<u32> = Vec::new();
    let encoded = encode_index_buffer(&codec, &indices, 0).unwrap();
    assert_eq!(decode_index_buffer(&codec, &encoded, 0, 4).unwrap(), indices);
    let vertices: Vec<u8> = Vec::new();
    let encoded = encode_vertex_buffer(&codec, &vertices, 16).unwrap();
    assert_eq!(decode_vertex_buffer(&codec, &encoded, 0, 16).unwrap(), vertices);
}
