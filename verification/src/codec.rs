//! Orchestration of the compression codec for vertex and index buffers.
//!
//! The codec itself (the entropy/delta compression of the two streams and
//! its worst-case size bounds) is an opaque capability injected through
//! the [`Codec`] trait. This module sizes and allocates the buffers the
//! codec works on, invokes it, truncates encode results to the produced
//! size, and translates decode status codes into typed errors.

use vstd::prelude::*;

use crate::error::Error;

verus! {

/// Whether every index of `p` fits an element of `width` bytes: any
/// value fits 4 bytes, and values below `2^16` fit 2 bytes.
pub open spec fn indices_fit_width(p: Seq<u32>, width: int) -> bool {
    width == 2 ==> forall|i: int| 0 <= i < p.len() ==> p[i] < 0x10000
}

/// The compression capability for vertex and index streams.
///
/// An implementation provides four operations: a worst-case encoded-size
/// bound and an encoder for each of the two streams, and the matching
/// decoders. The spec functions name, per implementation, the bound each
/// operation promises to respect and the payload an encoded byte stream
/// stands for; the method contracts tie the executable operations to
/// those names. The codec is stateless per call: two calls on the same
/// input are interchangeable.
pub trait Codec {
    /// Worst-case encoded size of an index buffer of `index_count`
    /// indices over `vertex_count` vertices.
    spec fn index_bound_spec(&self, index_count: nat, vertex_count: nat) -> nat;

    /// The index sequence an encoded byte stream stands for, or `None`
    /// if the stream is not a well-formed encoding.
    spec fn index_payload(&self, encoded: Seq<u8>) -> Option<Seq<u32>>;

    /// Worst-case encoded size of a vertex buffer of `vertex_count`
    /// elements, each `element_width` bytes wide.
    spec fn vertex_bound_spec(&self, vertex_count: nat, element_width: nat) -> nat;

    /// The flat element bytes an encoded byte stream stands for, given
    /// the element width, or `None` if the stream is not a well-formed
    /// encoding.
    spec fn vertex_payload(&self, encoded: Seq<u8>, element_width: nat) -> Option<Seq<u8>>;

    /// Reports the worst-case encoded size for an index buffer.
    fn index_encode_bound(&self, index_count: usize, vertex_count: usize) -> (r: usize)
        requires
            self.index_bound_spec(index_count as nat, vertex_count as nat) <= usize::MAX,
        ensures
            r == self.index_bound_spec(index_count as nat, vertex_count as nat),
    ;

    /// Encodes `src` into a prefix of `dst`, returning the number of
    /// bytes written. The buffer must be at least the reported bound;
    /// the written prefix is a well-formed encoding of exactly `src`.
    fn index_encode(&self, dst: &mut Vec<u8>, src: &Vec<u32>, vertex_count: usize) -> (written: usize)
        requires
            old(dst)@.len() >= self.index_bound_spec(src@.len(), vertex_count as nat),
        ensures
            written <= old(dst)@.len(),
            final(dst)@.len() == old(dst)@.len(),
            self.index_payload(final(dst)@.take(written as int)) == Some(src@),
    ;

    /// Decodes `src` into `dst`, reading indices of the given byte
    /// width, and returns a status code: zero exactly when `src` is a
    /// well-formed encoding of as many indices as `dst` holds, each of
    /// which fits the width; on success `dst` holds the payload.
    fn index_decode(&self, dst: &mut Vec<u32>, index_width: usize, src: &Vec<u8>) -> (status: i32)
        requires
            index_width == 2 || index_width == 4,
        ensures
            final(dst)@.len() == old(dst)@.len(),
            (status == 0) <==> (self.index_payload(src@) matches Some(p) && p.len() == old(dst)@.len()
                && indices_fit_width(p, index_width as int)),
            status == 0 ==> Some(final(dst)@) == self.index_payload(src@),
    ;

    /// Reports the worst-case encoded size for a vertex buffer.
    fn vertex_encode_bound(&self, vertex_count: usize, element_width: usize) -> (r: usize)
        requires
            self.vertex_bound_spec(vertex_count as nat, element_width as nat) <= usize::MAX,
        ensures
            r == self.vertex_bound_spec(vertex_count as nat, element_width as nat),
    ;

    /// Encodes the flat element bytes `src` (a whole number of elements,
    /// each `element_width` bytes) into a prefix of `dst`, returning the
    /// number of bytes written.
    fn vertex_encode(&self, dst: &mut Vec<u8>, src: &Vec<u8>, element_width: usize) -> (written: usize)
        requires
            element_width >= 1,
            src@.len() as int % element_width as int == 0,
            old(dst)@.len() >= self.vertex_bound_spec((src@.len() as int / element_width as int) as nat, element_width as nat),
        ensures
            written <= old(dst)@.len(),
            final(dst)@.len() == old(dst)@.len(),
            self.vertex_payload(final(dst)@.take(written as int), element_width as nat) == Some(src@),
    ;

    /// Decodes `src` into `dst` and returns a status code: zero exactly
    /// when `src` is a well-formed encoding of as many element bytes as
    /// `dst` holds; on success `dst` holds the payload.
    fn vertex_decode(&self, dst: &mut Vec<u8>, element_width: usize, src: &Vec<u8>) -> (status: i32)
        requires
            element_width >= 1,
            old(dst)@.len() as int % element_width as int == 0,
        ensures
            final(dst)@.len() == old(dst)@.len(),
            (status == 0) <==> (self.vertex_payload(src@, element_width as nat) matches Some(p)
                && p.len() == old(dst)@.len()),
            status == 0 ==> Some(final(dst)@) == self.vertex_payload(src@, element_width as nat),
    ;
}

/// Compresses an index buffer: asks the codec for its worst-case bound,
/// allocates exactly that many zeroed bytes, encodes, and truncates to
/// the produced size. Never fails: the codec never exceeds its bound.
pub fn encode_index_buffer<C: Codec>(codec: &C, indices: &Vec<u32>, vertex_count: usize) -> (r: Result<Vec<u8>, Error>)
    requires
        codec.index_bound_spec(indices@.len(), vertex_count as nat) <= usize::MAX,
    ensures
        r matches Ok(buf) && buf@.len() <= codec.index_bound_spec(indices@.len(), vertex_count as nat)
            && codec.index_payload(buf@) == Some(indices@),
{
    let bound = codec.index_encode_bound(indices.len(), vertex_count);
    let mut result: Vec<u8> = vec![0u8; bound];
    let size = codec.index_encode(&mut result, indices, vertex_count);
    result.truncate(size);
    Ok(result)
}

/// Decompresses an index buffer of `index_count` indices, each decoded
/// at `index_width` bytes. A width other than 2 or 4 is rejected with
/// [`Error::Memory`] before any codec call; a non-zero codec status is
/// returned as [`Error::Native`]; otherwise the decoded indices come
/// back exactly as the codec's payload for `encoded`.
pub fn decode_index_buffer<C: Codec>(codec: &C, encoded: &Vec<u8>, index_count: usize, index_width: usize) -> (r: Result<Vec<u32>, Error>)
    ensures
        (r == Err::<Vec<u32>, Error>(Error::Memory)) <==> !(index_width == 2 || index_width == 4),
        r matches Ok(v) ==> v@.len() == index_count && codec.index_payload(encoded@) == Some(v@),
        (index_width == 2 || index_width == 4) ==> ((r is Ok) <==> (
            codec.index_payload(encoded@) matches Some(p) && p.len() == index_count
                && indices_fit_width(p, index_width as int))),
        (r matches Err(e) && e != Error::Memory) ==> (r matches Err(Error::Native(code)) && code != 0),
{
    if index_width == 2 || index_width == 4 {
        let mut result: Vec<u32> = vec![0u32; index_count];
        let status = codec.index_decode(&mut result, index_width, encoded);
        if status == 0 {
            Ok(result)
        } else {
            Err(Error::Native(status))
        }
    } else {
        Err(Error::Memory)
    }
}

/// Compresses a vertex buffer given as flat element bytes (a whole
/// number of elements, each `element_width` bytes): bound, allocate,
/// encode, truncate. Never fails.
pub fn encode_vertex_buffer<C: Codec>(codec: &C, vertices: &Vec<u8>, element_width: usize) -> (r: Result<Vec<u8>, Error>)
    requires
        element_width >= 1,
        vertices@.len() as int % element_width as int == 0,
        codec.vertex_bound_spec((vertices@.len() as int / element_width as int) as nat, element_width as nat) <= usize::MAX,
    ensures
        r matches Ok(buf)
            && buf@.len() <= codec.vertex_bound_spec((vertices@.len() as int / element_width as int) as nat, element_width as nat)
            && codec.vertex_payload(buf@, element_width as nat) == Some(vertices@),
{
    let vertex_count = vertices.len() / element_width;
    let bound = codec.vertex_encode_bound(vertex_count, element_width);
    let mut result: Vec<u8> = vec![0u8; bound];
    let size = codec.vertex_encode(&mut result, vertices, element_width);
    result.truncate(size);
    Ok(result)
}

/// Decompresses a vertex buffer of `vertex_count` elements, each
/// `element_width` bytes wide, into flat element bytes. A non-zero
/// codec status is returned as [`Error::Native`]; otherwise the decoded
/// bytes come back exactly as the codec's payload for `encoded`.
pub fn decode_vertex_buffer<C: Codec>(codec: &C, encoded: &Vec<u8>, vertex_count: usize, element_width: usize) -> (r: Result<Vec<u8>, Error>)
    requires
        element_width >= 1,
        vertex_count * element_width <= usize::MAX,
    ensures
        r matches Ok(v) ==> v@.len() == vertex_count * element_width
            && codec.vertex_payload(encoded@, element_width as nat) == Some(v@),
        (r is Ok) <==> (codec.vertex_payload(encoded@, element_width as nat) matches Some(p)
            && p.len() == vertex_count * element_width),
        r matches Err(e) ==> e matches Error::Native(code) && code != 0,
{
    let mut result: Vec<u8> = vec![0u8; vertex_count * element_width];
    proof {
        assert((vertex_count * element_width) as int % element_width as int == 0) by (nonlinear_arith)
            requires
                element_width >= 1,
                vertex_count * element_width <= usize::MAX,
        ;
    }
    let status = codec.vertex_decode(&mut result, element_width, encoded);
    if status == 0 {
        Ok(result)
    } else {
        Err(Error::Native(status))
    }
}

/// Law: decoding an encoded index buffer at 4-byte width yields the
/// original indices; neither step can fail.
pub fn index_round_trip<C: Codec>(codec: &C, indices: &Vec<u32>, vertex_count: usize) -> (r: Vec<u32>)
    requires
        codec.index_bound_spec(indices@.len(), vertex_count as nat) <= usize::MAX,
    ensures
        r@ == indices@,
{
    let encoded = match encode_index_buffer(codec, indices, vertex_count) {
        Ok(buf) => buf,
        Err(_) => {
            proof { assert(false); }
            Vec::new()
        },
    };
    match decode_index_buffer(codec, &encoded, indices.len(), 4) {
        Ok(v) => v,
        Err(_) => {
            proof { assert(false); }
            Vec::new()
        },
    }
}

/// Law: decoding an encoded vertex buffer yields the original element
/// bytes; neither step can fail.
pub fn vertex_round_trip<C: Codec>(codec: &C, vertices: &Vec<u8>, element_width: usize) -> (r: Vec<u8>)
    requires
        element_width >= 1,
        vertices@.len() as int % element_width as int == 0,
        codec.vertex_bound_spec((vertices@.len() as int / element_width as int) as nat, element_width as nat) <= usize::MAX,
    ensures
        r@ == vertices@,
{
    let vertex_count = vertices.len() / element_width;
    proof {
        assert(vertices@.len() as int == (vertices@.len() as int / element_width as int) * element_width as int
            && (vertices@.len() as int / element_width as int) * element_width as int <= usize::MAX) by (nonlinear_arith)
            requires
                element_width >= 1,
                vertices@.len() as int % element_width as int == 0,
                vertices@.len() <= usize::MAX,
        ;
    }
    let encoded = match encode_vertex_buffer(codec, vertices, element_width) {
        Ok(buf) => buf,
        Err(_) => {
            proof { assert(false); }
            Vec::new()
        },
    };
    match decode_vertex_buffer(codec, &encoded, vertex_count, element_width) {
        Ok(v) => v,
        Err(_) => {
            proof { assert(false); }
            Vec::new()
        },
    }
}

} // verus!

