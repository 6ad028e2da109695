use optm::layout::{quantization_steps, EncodeHeader, EncodeObject, HEADER_SIZE, OBJECT_SIZE};

fn sample_header() -> EncodeHeader {
    EncodeHeader::new(
        2,
        100,
        300,
        1024,
        512,
        [1.5f32.to_bits(), (-2.0f32).to_bits(), 0.25f32.to_bits()],
        1.0f32.to_bits(),
        [0.0f32.to_bits(), 0.5f32.to_bits()],
        [0.125f32.to_bits(), 2.5f32.to_bits()],
    )
}

#[test]
fn header_new_stores_fields_verbatim() {
    let h = sample_header();
    assert_eq!(h.magic, [0x4f, 0x50, 0x54, 0x4d]);
    assert_eq!(h.magic, *b"OPTM");
    assert_eq!(h.group_count, 2);
    assert_eq!(h.vertex_count, 100);
    assert_eq!(h.index_count, 300);
    assert_eq!(h.vertex_data_size, 1024);
    assert_eq!(h.index_data_size, 512);
    assert_eq!(h.pos_offset, [1.5f32.to_bits(), (-2.0f32).to_bits(), 0.25f32.to_bits()]);
    assert_eq!(h.pos_scale, 1.0f32.to_bits());
    assert_eq!(h.uv_offset, [0.0f32.to_bits(), 0.5f32.to_bits()]);
    assert_eq!(h.uv_scale, [0.125f32.to_bits(), 2.5f32.to_bits()]);
    assert_eq!(h.reserved, [0, 0]);
}

#[test]
fn header_bytes_layout_is_little_endian() {
    let h = sample_header();
    let bytes = h.to_bytes();
    assert_eq!(bytes.len(), HEADER_SIZE);
    assert_eq!(&bytes[0..4], b"OPTM");
    assert_eq!(&bytes[4..8], &2u32.to_le_bytes());
    assert_eq!(&bytes[8..12], &100u32.to_le_bytes());
    assert_eq!(&bytes[12..16], &300u32.to_le_bytes());
    assert_eq!(&bytes[16..20], &1024u32.to_le_bytes());
    assert_eq!(&bytes[20..24], &512u32.to_le_bytes());
    assert_eq!(&bytes[24..28], &1.5f32.to_bits().to_le_bytes());
    assert_eq!(&bytes[28..32], &(-2.0f32).to_bits().to_le_bytes());
    assert_eq!(&bytes[32..36], &0.25f32.to_bits().to_le_bytes());
    assert_eq!(&bytes[36..40], &1.0f32.to_bits().to_le_bytes());
    assert_eq!(&bytes[40..44], &0.0f32.to_bits().to_le_bytes());
    assert_eq!(&bytes[44..48], &0.5f32.to_bits().to_le_bytes());
    assert_eq!(&bytes[48..52], &0.125f32.to_bits().to_le_bytes());
    assert_eq!(&bytes[52..56], &2.5f32.to_bits().to_le_bytes());
    assert_eq!(&bytes[56..64], &[0u8; 8]);
}

#[test]
fn header_bytes_round_trip() {
    let h = sample_header();
    let parsed = EncodeHeader::from_bytes(&h.to_bytes());
    assert_eq!(parsed, Some(h));
    assert_eq!(optm::layout::header_round_trip(&h), Some(h));
}

#[test]
fn header_from_bytes_rejects_bad_input() {
    let h = sample_header();
    let mut bytes = h.to_bytes();
    bytes.pop();
    assert_eq!(EncodeHeader::from_bytes(&bytes), None);

    let mut bytes = h.to_bytes();
    bytes[0] = b'X';
    assert_eq!(EncodeHeader::from_bytes(&bytes), None);

    assert_eq!(EncodeHeader::from_bytes(&Vec::new()), None);
}

#[test]
fn header_from_bytes_accepts_nonzero_reserved() {
    let h = sample_header();
    let mut bytes = h.to_bytes();
    bytes[56] = 7;
    let parsed = EncodeHeader::from_bytes(&bytes).unwrap();
    assert_eq!(parsed.reserved, [7, 0]);
}

#[test]
fn object_bytes_round_trip() {
    let o = EncodeObject { index_offset: 30, index_count: 12, material_length: 5, reserved: 0 };
    let bytes = o.to_bytes();
    assert_eq!(bytes.len(), OBJECT_SIZE);
    assert_eq!(&bytes[0..4], &30u32.to_le_bytes());
    assert_eq!(&bytes[4..8], &12u32.to_le_bytes());
    assert_eq!(&bytes[8..12], &5u32.to_le_bytes());
    assert_eq!(&bytes[12..16], &0u32.to_le_bytes());
    assert_eq!(EncodeObject::from_bytes(&bytes), Some(o));
    assert_eq!(optm::layout::object_round_trip(&o), Some(o));
    assert_eq!(EncodeObject::from_bytes(&bytes[0..12].to_vec()), None);
}

#[test]
fn reserializing_parsed_records_returns_the_bytes() {
    let mut bytes = sample_header().to_bytes();
    // Nonzero reserved words survive the round trip byte for byte.
    bytes[57] = 3;
    bytes[61] = 9;
    assert_eq!(optm::layout::header_reserialize(&bytes), Some(bytes.clone()));
    bytes.pop();
    assert_eq!(optm::layout::header_reserialize(&bytes), None);

    let obj_bytes: Vec<u8> = (1..=16).collect();
    assert_eq!(optm::layout::object_reserialize(&obj_bytes), Some(obj_bytes.clone()));
    assert_eq!(optm::layout::object_reserialize(&vec![0u8; 15]), None);
}

#[test]
fn quantization_steps_matches_bit_depth() {
    assert_eq!(quantization_steps(1), 1);
    assert_eq!(quantization_steps(8), 255);
    assert_eq!(quantization_steps(11), 2047);
    assert_eq!(quantization_steps(31), 0x7fff_ffff);
}

#[test]
fn stored_scale_is_normalized_by_steps() {
    // A raw scale of 255.0 at 8 position bits stores as exactly 1.0 ...
    let raw_scale = 255.0f32;
    let stored = raw_scale / quantization_steps(8) as f32;
    assert_eq!(stored, 1.0);
    let h = EncodeHeader::new(1, 1, 3, 0, 0, [0; 3], stored.to_bits(), [0; 2], [0; 2]);
    assert_eq!(h.pos_scale, 1.0f32.to_bits());

    // ... and at 1 position bit the divisor is 1: the scale is unchanged.
    let stored = raw_scale / quantization_steps(1) as f32;
    assert_eq!(stored, 255.0);
}
