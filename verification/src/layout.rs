//! Fixed-size binary records of the OPTM container, and their exact
//! little-endian byte layout.
//!
//! The container is, in order: one [`EncodeHeader`], `group_count`
//! [`EncodeObject`] records, the compressed vertex payload, and the
//! compressed index payload. All fields are 4-byte words; this module
//! fixes the serialized form as little-endian with no padding.
//!
//! The header's offset and scale fields are 32-bit IEEE-754 values. The
//! verified code never computes with them: it stores and serializes them
//! as their 32-bit bit patterns, so the layout contracts speak of exact
//! bytes. The stored scales are already normalized, that is divided by
//! the quantization step count of the chosen bit depth (see
//! [`quantization_steps`]); a decoder multiplies integer codes by the
//! stored scale directly.

use vstd::prelude::*;

verus! {

broadcast use vstd::array::group_array_axioms;

/// Serialized size of an [`EncodeHeader`] in bytes.
pub const HEADER_SIZE: usize = 64;

/// Serialized size of an [`EncodeObject`] in bytes.
pub const OBJECT_SIZE: usize = 16;

/// The little-endian bytes of a 32-bit word.
pub open spec fn u32_le_bytes(x: u32) -> Seq<u8> {
    seq![
        (x % 0x100) as u8,
        ((x / 0x100) % 0x100) as u8,
        ((x / 0x10000) % 0x100) as u8,
        ((x / 0x1000000) % 0x100) as u8,
    ]
}

/// The 32-bit word read from four little-endian bytes.
pub open spec fn u32_of_le_bytes(b: Seq<u8>) -> u32
    recommends
        b.len() == 4,
{
    (b[0] + b[1] * 0x100 + b[2] * 0x10000 + b[3] * 0x1000000) as u32
}

/// Law: reading back the little-endian bytes of a word yields the word.
pub proof fn lemma_u32_le_round_trip(x: u32)
    ensures
        u32_of_le_bytes(u32_le_bytes(x)) == x,
{
    assert(x % 0x100 + ((x / 0x100) % 0x100) * 0x100 + ((x / 0x10000) % 0x100) * 0x10000
        + ((x / 0x1000000) % 0x100) * 0x1000000 == x) by (bit_vector);
}

/// Law: serializing the word read from four bytes yields those bytes.
pub proof fn lemma_le_bytes_round_trip(b0: u8, b1: u8, b2: u8, b3: u8)
    ensures
        u32_le_bytes(u32_of_le_bytes(seq![b0, b1, b2, b3])) == seq![b0, b1, b2, b3],
{
    let x = u32_of_le_bytes(seq![b0, b1, b2, b3]);
    assert(((b0 + b1 * 0x100 + b2 * 0x10000 + b3 * 0x1000000) as u32) % 0x100 == b0
        && (((b0 + b1 * 0x100 + b2 * 0x10000 + b3 * 0x1000000) as u32) / 0x100) % 0x100 == b1
        && (((b0 + b1 * 0x100 + b2 * 0x10000 + b3 * 0x1000000) as u32) / 0x10000) % 0x100 == b2
        && (((b0 + b1 * 0x100 + b2 * 0x10000 + b3 * 0x1000000) as u32) / 0x1000000) % 0x100 == b3)
        by (bit_vector);
    assert(u32_le_bytes(x) =~= seq![b0, b1, b2, b3]);
}

/// Law: serializing the word read at offset `i` of `b` yields the same
/// four bytes of `b` back.
pub proof fn lemma_le_subrange_round_trip(b: Seq<u8>, i: int)
    requires
        0 <= i,
        i + 4 <= b.len(),
    ensures
        u32_le_bytes(u32_of_le_bytes(b.subrange(i, i + 4))) == b.subrange(i, i + 4),
{
    let s = b.subrange(i, i + 4);
    assert(s =~= seq![s[0], s[1], s[2], s[3]]);
    lemma_le_bytes_round_trip(s[0], s[1], s[2], s[3]);
}

/// Appends the little-endian bytes of `x` to `v`.
pub fn push_u32_le(v: &mut Vec<u8>, x: u32)
    ensures
        final(v)@ == old(v)@ + u32_le_bytes(x),
{
    v.push((x % 0x100) as u8);
    v.push(((x / 0x100) % 0x100) as u8);
    v.push(((x / 0x10000) % 0x100) as u8);
    v.push(((x / 0x1000000) % 0x100) as u8);
    proof {
        assert(v@ =~= old(v)@ + u32_le_bytes(x));
    }
}

/// Reads the little-endian word at byte offset `i` of `b`.
pub fn read_u32_le(b: &Vec<u8>, i: usize) -> (r: u32)
    requires
        i + 4 <= b@.len(),
    ensures
        r == u32_of_le_bytes(b@.subrange(i as int, i as int + 4)),
{
    let n = b.len();
    proof {
        assert(i + 4 <= n);
    }
    let r = b[i] as u32 + (b[i + 1] as u32) * 0x100 + (b[i + 2] as u32) * 0x10000
        + (b[i + 3] as u32) * 0x1000000;
    proof {
        let s = b@.subrange(i as int, i as int + 4);
        assert(s[0] == b@[i as int] && s[1] == b@[i as int + 1] && s[2] == b@[i as int + 2]
            && s[3] == b@[i as int + 3]);
    }
    r
}

/// Number of quantization steps of a bit depth: `(1 << bits) - 1`.
///
/// This is the divisor the header's stored scales are normalized by,
/// and the factor a decoder's integer codes run over. The bit depth
/// must lie in 1 to 31: 0 would make the divisor zero, and 32 or more
/// would overflow the shift.
pub fn quantization_steps(bits: u32) -> (r: u32)
    requires
        1 <= bits <= 31,
    ensures
        r == (1u32 << bits) - 1,
        r >= 1,
{
    proof {
        assert(1u32 <= (1u32 << bits) && (1u32 << bits) >= 2) by (bit_vector)
            requires
                1 <= bits <= 31,
        ;
    }
    (1u32 << bits) - 1
}

/// Container header: one per OPTM container, followed by the object
/// table and the two compressed payloads.
///
/// Offset and scale fields hold 32-bit IEEE-754 bit patterns; the
/// scales are already normalized by the quantization step count.
#[derive(Debug, Clone, Copy, PartialEq, Eq)]
pub struct EncodeHeader {
    /// The four ASCII bytes `O`, `P`, `T`, `M`; written verbatim, and
    /// checked verbatim by any reader before accepting a container.
    pub magic: [u8; 4],
    /// Number of [`EncodeObject`] records following the header.
    pub group_count: u32,
    /// Element count of the encoded vertex buffer.
    pub vertex_count: u32,
    /// Element count of the encoded index buffer.
    pub index_count: u32,
    /// Byte length of the compressed vertex payload.
    pub vertex_data_size: u32,
    /// Byte length of the compressed index payload.
    pub index_data_size: u32,
    /// Per-axis minimum of all positions: the dequantization translation.
    pub pos_offset: [u32; 3],
    /// Single shared position scale, normalized by the step count.
    pub pos_scale: u32,
    /// Per-axis minimum of all UV coordinates.
    pub uv_offset: [u32; 2],
    /// Per-axis UV scales, each normalized by the step count.
    pub uv_scale: [u32; 2],
    /// Zero-filled; readers must not reject nonzero values.
    pub reserved: [u32; 2],
}

/// The exact serialized bytes of a header.
pub open spec fn spec_header_bytes(h: EncodeHeader) -> Seq<u8> {
    h.magic@ + u32_le_bytes(h.group_count) + u32_le_bytes(h.vertex_count)
        + u32_le_bytes(h.index_count) + u32_le_bytes(h.vertex_data_size)
        + u32_le_bytes(h.index_data_size) + u32_le_bytes(h.pos_offset[0])
        + u32_le_bytes(h.pos_offset[1]) + u32_le_bytes(h.pos_offset[2])
        + u32_le_bytes(h.pos_scale) + u32_le_bytes(h.uv_offset[0])
        + u32_le_bytes(h.uv_offset[1]) + u32_le_bytes(h.uv_scale[0])
        + u32_le_bytes(h.uv_scale[1]) + u32_le_bytes(h.reserved[0])
        + u32_le_bytes(h.reserved[1])
}

impl EncodeHeader {
    /// Builds a header: the magic tag is written verbatim, counts,
    /// sizes, offsets and scales are stored verbatim, and the reserved
    /// words are zero-filled.
    ///
    /// The scale arguments must already be normalized: the raw scale of
    /// the bounds calculation divided by `quantization_steps(bits)` for
    /// the chosen position and UV bit depths, then taken as bit
    /// patterns.
    pub fn new(
        group_count: u32,
        vertex_count: u32,
        index_count: u32,
        vertex_data_size: u32,
        index_data_size: u32,
        pos_offset: [u32; 3],
        pos_scale: u32,
        uv_offset: [u32; 2],
        uv_scale: [u32; 2],
    ) -> (h: EncodeHeader)
        ensures
            h.magic@ == seq![0x4fu8, 0x50u8, 0x54u8, 0x4du8],
            h.group_count == group_count,
            h.vertex_count == vertex_count,
            h.index_count == index_count,
            h.vertex_data_size == vertex_data_size,
            h.index_data_size == index_data_size,
            h.pos_offset == pos_offset,
            h.pos_scale == pos_scale,
            h.uv_offset == uv_offset,
            h.uv_scale == uv_scale,
            h.reserved@ == seq![0u32, 0u32],
    {
        let h = EncodeHeader {
            magic: [0x4f, 0x50, 0x54, 0x4d],
            group_count,
            vertex_count,
            index_count,
            vertex_data_size,
            index_data_size,
            pos_offset,
            pos_scale,
            uv_offset,
            uv_scale,
            reserved: [0, 0],
        };
        proof {
            assert(h.magic@ =~= seq![0x4fu8, 0x50u8, 0x54u8, 0x4du8]);
            assert(h.reserved@ =~= seq![0u32, 0u32]);
        }
        h
    }

    /// Serializes the header to its 64 little-endian bytes.
    pub fn to_bytes(&self) -> (r: Vec<u8>)
        ensures
            r@ == spec_header_bytes(*self),
            r@.len() == HEADER_SIZE,
    {
        let mut v: Vec<u8> = Vec::new();
        v.push(self.magic[0]);
        v.push(self.magic[1]);
        v.push(self.magic[2]);
        v.push(self.magic[3]);
        proof {
            assert(v@ =~= self.magic@);
        }
        push_u32_le(&mut v, self.group_count);
        push_u32_le(&mut v, self.vertex_count);
        push_u32_le(&mut v, self.index_count);
        push_u32_le(&mut v, self.vertex_data_size);
        push_u32_le(&mut v, self.index_data_size);
        push_u32_le(&mut v, self.pos_offset[0]);
        push_u32_le(&mut v, self.pos_offset[1]);
        push_u32_le(&mut v, self.pos_offset[2]);
        push_u32_le(&mut v, self.pos_scale);
        push_u32_le(&mut v, self.uv_offset[0]);
        push_u32_le(&mut v, self.uv_offset[1]);
        push_u32_le(&mut v, self.uv_scale[0]);
        push_u32_le(&mut v, self.uv_scale[1]);
        push_u32_le(&mut v, self.reserved[0]);
        push_u32_le(&mut v, self.reserved[1]);
        v
    }

    /// Parses a header from its serialized bytes. Returns `Some`
    /// exactly when the input is 64 bytes long and starts with the
    /// magic tag; every field then holds the word at its layout offset.
    pub fn from_bytes(bytes: &Vec<u8>) -> (r: Option<EncodeHeader>)
        ensures
            (r is Some) <==> (bytes@.len() == HEADER_SIZE
                && bytes@.subrange(0, 4) == seq![0x4fu8, 0x50u8, 0x54u8, 0x4du8]),
            r matches Some(h) ==> {
                &&& h.magic@ == bytes@.subrange(0, 4)
                &&& h.group_count == u32_of_le_bytes(bytes@.subrange(4, 8))
                &&& h.vertex_count == u32_of_le_bytes(bytes@.subrange(8, 12))
                &&& h.index_count == u32_of_le_bytes(bytes@.subrange(12, 16))
                &&& h.vertex_data_size == u32_of_le_bytes(bytes@.subrange(16, 20))
                &&& h.index_data_size == u32_of_le_bytes(bytes@.subrange(20, 24))
                &&& h.pos_offset@ == seq![
                    u32_of_le_bytes(bytes@.subrange(24, 28)),
                    u32_of_le_bytes(bytes@.subrange(28, 32)),
                    u32_of_le_bytes(bytes@.subrange(32, 36)),
                ]
                &&& h.pos_scale == u32_of_le_bytes(bytes@.subrange(36, 40))
                &&& h.uv_offset@ == seq![
                    u32_of_le_bytes(bytes@.subrange(40, 44)),
                    u32_of_le_bytes(bytes@.subrange(44, 48)),
                ]
                &&& h.uv_scale@ == seq![
                    u32_of_le_bytes(bytes@.subrange(48, 52)),
                    u32_of_le_bytes(bytes@.subrange(52, 56)),
                ]
                &&& h.reserved@ == seq![
                    u32_of_le_bytes(bytes@.subrange(56, 60)),
                    u32_of_le_bytes(bytes@.subrange(60, 64)),
                ]
            },
    {
        if bytes.len() != HEADER_SIZE {
            return None;
        }
        if !(bytes[0] == 0x4f && bytes[1] == 0x50 && bytes[2] == 0x54 && bytes[3] == 0x4d) {
            proof {
                assert(bytes@.subrange(0, 4) != seq![0x4fu8, 0x50u8, 0x54u8, 0x4du8]) by {
                    let s = bytes@.subrange(0, 4);
                    if s == seq![0x4fu8, 0x50u8, 0x54u8, 0x4du8] {
                        assert(s[0] == 0x4f && s[1] == 0x50 && s[2] == 0x54 && s[3] == 0x4d);
                    }
                };
            }
            return None;
        }
        let h = EncodeHeader {
            magic: [bytes[0], bytes[1], bytes[2], bytes[3]],
            group_count: read_u32_le(bytes, 4),
            vertex_count: read_u32_le(bytes, 8),
            index_count: read_u32_le(bytes, 12),
            vertex_data_size: read_u32_le(bytes, 16),
            index_data_size: read_u32_le(bytes, 20),
            pos_offset: [read_u32_le(bytes, 24), read_u32_le(bytes, 28), read_u32_le(bytes, 32)],
            pos_scale: read_u32_le(bytes, 36),
            uv_offset: [read_u32_le(bytes, 40), read_u32_le(bytes, 44)],
            uv_scale: [read_u32_le(bytes, 48), read_u32_le(bytes, 52)],
            reserved: [read_u32_le(bytes, 56), read_u32_le(bytes, 60)],
        };
        proof {
            assert(h.magic@ =~= bytes@.subrange(0, 4));
            assert(bytes@.subrange(0, 4) =~= seq![0x4fu8, 0x50u8, 0x54u8, 0x4du8]);
        }
        Some(h)
    }
}

/// Sub-mesh/draw-group record: `group_count` of these follow the
/// header, each a slice of the shared decoded index buffer.
#[derive(Debug, Clone, Copy, PartialEq, Eq, Structural)]
pub struct EncodeObject {
    /// First index of this group in the decoded index buffer.
    pub index_offset: u32,
    /// Number of indices in this group.
    pub index_count: u32,
    /// Byte length of the group's material-name string, stored
    /// elsewhere in the asset.
    pub material_length: u32,
    /// Zero-filled; readers must not reject nonzero values.
    pub reserved: u32,
}

/// The exact serialized bytes of an object record.
pub open spec fn spec_object_bytes(o: EncodeObject) -> Seq<u8> {
    u32_le_bytes(o.index_offset) + u32_le_bytes(o.index_count) + u32_le_bytes(o.material_length)
        + u32_le_bytes(o.reserved)
}

impl EncodeObject {
    /// Serializes the record to its 16 little-endian bytes.
    pub fn to_bytes(&self) -> (r: Vec<u8>)
        ensures
            r@ == spec_object_bytes(*self),
            r@.len() == OBJECT_SIZE,
    {
        let mut v: Vec<u8> = Vec::new();
        push_u32_le(&mut v, self.index_offset);
        push_u32_le(&mut v, self.index_count);
        push_u32_le(&mut v, self.material_length);
        push_u32_le(&mut v, self.reserved);
        proof {
            assert(Seq::<u8>::empty() + u32_le_bytes(self.index_offset) == u32_le_bytes(self.index_offset));
        }
        v
    }

    /// Parses a record from its serialized bytes. Returns `Some`
    /// exactly when the input is 16 bytes long.
    pub fn from_bytes(bytes: &Vec<u8>) -> (r: Option<EncodeObject>)
        ensures
            (r is Some) <==> bytes@.len() == OBJECT_SIZE,
            r matches Some(o) ==> {
                &&& o.index_offset == u32_of_le_bytes(bytes@.subrange(0, 4))
                &&& o.index_count == u32_of_le_bytes(bytes@.subrange(4, 8))
                &&& o.material_length == u32_of_le_bytes(bytes@.subrange(8, 12))
                &&& o.reserved == u32_of_le_bytes(bytes@.subrange(12, 16))
            },
    {
        if bytes.len() != OBJECT_SIZE {
            return None;
        }
        Some(EncodeObject {
            index_offset: read_u32_le(bytes, 0),
            index_count: read_u32_le(bytes, 4),
            material_length: read_u32_le(bytes, 8),
            reserved: read_u32_le(bytes, 12),
        })
    }
}

/// Law: parsing a serialized header yields the header back, for any
/// header that carries the magic tag.
#[verifier::rlimit(100)]
pub fn header_round_trip(h: &EncodeHeader) -> (r: Option<EncodeHeader>)
    requires
        h.magic@ == seq![0x4fu8, 0x50u8, 0x54u8, 0x4du8],
    ensures
        r == Some(*h),
{
    let bytes = h.to_bytes();
    let r = EncodeHeader::from_bytes(&bytes);
    proof {
        let b = bytes@;
        assert(b.subrange(0, 4) =~= h.magic@);
        assert(b.subrange(4, 8) =~= u32_le_bytes(h.group_count));
        assert(b.subrange(8, 12) =~= u32_le_bytes(h.vertex_count));
        assert(b.subrange(12, 16) =~= u32_le_bytes(h.index_count));
        assert(b.subrange(16, 20) =~= u32_le_bytes(h.vertex_data_size));
        assert(b.subrange(20, 24) =~= u32_le_bytes(h.index_data_size));
        assert(b.subrange(24, 28) =~= u32_le_bytes(h.pos_offset[0]));
        assert(b.subrange(28, 32) =~= u32_le_bytes(h.pos_offset[1]));
        assert(b.subrange(32, 36) =~= u32_le_bytes(h.pos_offset[2]));
        assert(b.subrange(36, 40) =~= u32_le_bytes(h.pos_scale));
        assert(b.subrange(40, 44) =~= u32_le_bytes(h.uv_offset[0]));
        assert(b.subrange(44, 48) =~= u32_le_bytes(h.uv_offset[1]));
        assert(b.subrange(48, 52) =~= u32_le_bytes(h.uv_scale[0]));
        assert(b.subrange(52, 56) =~= u32_le_bytes(h.uv_scale[1]));
        assert(b.subrange(56, 60) =~= u32_le_bytes(h.reserved[0]));
        assert(b.subrange(60, 64) =~= u32_le_bytes(h.reserved[1]));
        lemma_u32_le_round_trip(h.group_count);
        lemma_u32_le_round_trip(h.vertex_count);
        lemma_u32_le_round_trip(h.index_count);
        lemma_u32_le_round_trip(h.vertex_data_size);
        lemma_u32_le_round_trip(h.index_data_size);
        lemma_u32_le_round_trip(h.pos_offset[0]);
        lemma_u32_le_round_trip(h.pos_offset[1]);
        lemma_u32_le_round_trip(h.pos_offset[2]);
        lemma_u32_le_round_trip(h.pos_scale);
        lemma_u32_le_round_trip(h.uv_offset[0]);
        lemma_u32_le_round_trip(h.uv_offset[1]);
        lemma_u32_le_round_trip(h.uv_scale[0]);
        lemma_u32_le_round_trip(h.uv_scale[1]);
        lemma_u32_le_round_trip(h.reserved[0]);
        lemma_u32_le_round_trip(h.reserved[1]);
        let h2 = r->Some_0;
        assert(h2.magic =~= h.magic);
        assert(h2.pos_offset =~= h.pos_offset);
        assert(h2.uv_offset =~= h.uv_offset);
        assert(h2.uv_scale =~= h.uv_scale);
        assert(h2.reserved =~= h.reserved);
    }
    r
}

/// Law: re-serializing a parsed header yields the input bytes back, so
/// parsing and serializing are mutually inverse on well-formed input.
#[verifier::rlimit(100)]
pub fn header_reserialize(bytes: &Vec<u8>) -> (r: Option<Vec<u8>>)
    ensures
        (r is Some) <==> (bytes@.len() == HEADER_SIZE
            && bytes@.subrange(0, 4) == seq![0x4fu8, 0x50u8, 0x54u8, 0x4du8]),
        r matches Some(out) ==> out@ == bytes@,
{
    match EncodeHeader::from_bytes(bytes) {
        Some(h) => {
            let out = h.to_bytes();
            proof {
                let b = bytes@;
                lemma_le_subrange_round_trip(b, 4);
                lemma_le_subrange_round_trip(b, 8);
                lemma_le_subrange_round_trip(b, 12);
                lemma_le_subrange_round_trip(b, 16);
                lemma_le_subrange_round_trip(b, 20);
                lemma_le_subrange_round_trip(b, 24);
                lemma_le_subrange_round_trip(b, 28);
                lemma_le_subrange_round_trip(b, 32);
                lemma_le_subrange_round_trip(b, 36);
                lemma_le_subrange_round_trip(b, 40);
                lemma_le_subrange_round_trip(b, 44);
                lemma_le_subrange_round_trip(b, 48);
                lemma_le_subrange_round_trip(b, 52);
                lemma_le_subrange_round_trip(b, 56);
                lemma_le_subrange_round_trip(b, 60);
                assert(h.pos_offset[0] == u32_of_le_bytes(b.subrange(24, 28))
                    && h.pos_offset[1] == u32_of_le_bytes(b.subrange(28, 32))
                    && h.pos_offset[2] == u32_of_le_bytes(b.subrange(32, 36)));
                assert(h.uv_offset[0] == u32_of_le_bytes(b.subrange(40, 44))
                    && h.uv_offset[1] == u32_of_le_bytes(b.subrange(44, 48)));
                assert(h.uv_scale[0] == u32_of_le_bytes(b.subrange(48, 52))
                    && h.uv_scale[1] == u32_of_le_bytes(b.subrange(52, 56)));
                assert(h.reserved[0] == u32_of_le_bytes(b.subrange(56, 60))
                    && h.reserved[1] == u32_of_le_bytes(b.subrange(60, 64)));
                assert(out@ =~= b);
            }
            Some(out)
        },
        None => None,
    }
}

/// Law: parsing a serialized object record yields the record back.
pub fn object_round_trip(o: &EncodeObject) -> (r: Option<EncodeObject>)
    ensures
        r == Some(*o),
{
    let bytes = o.to_bytes();
    let r = EncodeObject::from_bytes(&bytes);
    proof {
        let b = bytes@;
        assert(b.subrange(0, 4) =~= u32_le_bytes(o.index_offset));
        assert(b.subrange(4, 8) =~= u32_le_bytes(o.index_count));
        assert(b.subrange(8, 12) =~= u32_le_bytes(o.material_length));
        assert(b.subrange(12, 16) =~= u32_le_bytes(o.reserved));
        lemma_u32_le_round_trip(o.index_offset);
        lemma_u32_le_round_trip(o.index_count);
        lemma_u32_le_round_trip(o.material_length);
        lemma_u32_le_round_trip(o.reserved);
    }
    r
}

/// Law: re-serializing a parsed object record yields the input bytes
/// back.
pub fn object_reserialize(bytes: &Vec<u8>) -> (r: Option<Vec<u8>>)
    ensures
        (r is Some) <==> bytes@.len() == OBJECT_SIZE,
        r matches Some(out) ==> out@ == bytes@,
{
    match EncodeObject::from_bytes(bytes) {
        Some(o) => {
            let out = o.to_bytes();
            proof {
                let b = bytes@;
                lemma_le_subrange_round_trip(b, 0);
                lemma_le_subrange_round_trip(b, 4);
                lemma_le_subrange_round_trip(b, 8);
                lemma_le_subrange_round_trip(b, 12);
                assert(out@ =~= b);
            }
            Some(out)
        },
        None => None,
    }
}

} // verus!
