//! A byte-transparent reference codec.
//!
//! [`RawCodec`] stores an index stream as the plain little-endian words
//! and a vertex stream unchanged, so its encoded size equals its bound.
//! It is a verified implementation of [`Codec`]: it shows the trait's
//! contract is satisfiable, and gives tests a codec whose behaviour is
//! pinned down exactly.

use vstd::prelude::*;

use crate::codec::Codec;
use crate::layout::{lemma_u32_le_round_trip, push_u32_le, read_u32_le, u32_le_bytes, u32_of_le_bytes};

verus! {

/// The identity compressor: no compression, exact bounds.
pub struct RawCodec;

impl Codec for RawCodec {
    open spec fn index_bound_spec(&self, index_count: nat, vertex_count: nat) -> nat {
        index_count * 4
    }

    open spec fn index_payload(&self, encoded: Seq<u8>) -> Option<Seq<u32>> {
        if encoded.len() % 4 == 0 {
            Some(Seq::new(encoded.len() / 4, |i: int| u32_of_le_bytes(encoded.subrange(4 * i, 4 * i + 4))))
        } else {
            None
        }
    }

    open spec fn vertex_bound_spec(&self, vertex_count: nat, element_width: nat) -> nat {
        vertex_count * element_width
    }

    open spec fn vertex_payload(&self, encoded: Seq<u8>, element_width: nat) -> Option<Seq<u8>> {
        if element_width >= 1 && encoded.len() % element_width == 0 {
            Some(encoded)
        } else {
            None
        }
    }

    fn index_encode_bound(&self, index_count: usize, vertex_count: usize) -> (r: usize) {
        index_count * 4
    }

    fn index_encode(&self, dst: &mut Vec<u8>, src: &Vec<u32>, vertex_count: usize) -> (written: usize) {
        let mut out: Vec<u8> = Vec::new();
        let mut k: usize = 0;
        while k < src.len()
            invariant
                dst@ == old(dst)@,
                old(dst)@.len() >= src@.len() * 4,
                k <= src@.len(),
                out@.len() == 4 * k,
                forall|i: int| 0 <= i < k ==> out@.subrange(4 * i, 4 * i + 4) == u32_le_bytes(src@[i]),
            decreases src@.len() - k,
        {
            push_u32_le(&mut out, src[k]);
            k += 1;
            proof {
                assert forall|i: int| 0 <= i < k implies out@.subrange(4 * i, 4 * i + 4)
                    == u32_le_bytes(src@[i]) by {
                    assert(out@.subrange(4 * i, 4 * i + 4) =~= u32_le_bytes(src@[i]));
                }
            }
        }
        let written = out.len();
        let ghost enc = out@;
        let target = dst.len();
        while out.len() < target
            invariant
                dst@ == old(dst)@,
                target == old(dst)@.len(),
                enc.len() <= out@.len() <= target,
                out@.subrange(0, enc.len() as int) == enc,
            decreases target - out@.len(),
        {
            out.push(0u8);
            proof {
                assert(out@.subrange(0, enc.len() as int) =~= enc);
            }
        }
        *dst = out;
        proof {
            let taken = dst@.take(written as int);
            assert(taken =~= enc);
            let p = Seq::new(enc.len() / 4, |i: int| u32_of_le_bytes(enc.subrange(4 * i, 4 * i + 4)));
            assert forall|i: int| 0 <= i < src@.len() implies p[i] == src@[i] by {
                assert(enc.subrange(4 * i, 4 * i + 4) == u32_le_bytes(src@[i]));
                lemma_u32_le_round_trip(src@[i]);
            }
            assert(p =~= src@);
        }
        written
    }

    fn index_decode(&self, dst: &mut Vec<u32>, index_width: usize, src: &Vec<u8>) -> (status: i32) {
        let n = dst.len();
        if src.len() % 4 != 0 {
            return 1;
        }
        let count = src.len() / 4;
        if count != n {
            return 1;
        }
        let ghost p = Seq::new(src@.len() / 4, |i: int| u32_of_le_bytes(src@.subrange(4 * i, 4 * i + 4)));
        let mut vals: Vec<u32> = Vec::new();
        let mut k: usize = 0;
        while k < count
            invariant
                dst@ == old(dst)@,
                n == old(dst)@.len(),
                count == n,
                k <= count,
                4 * count == src@.len(),
                src@.len() <= usize::MAX,
                vals@.len() == k,
                p == Seq::new(src@.len() / 4, |i: int| u32_of_le_bytes(src@.subrange(4 * i, 4 * i + 4))),
                forall|i: int| 0 <= i < k ==> vals@[i] == p[i],
            decreases count - k,
        {
            let v = read_u32_le(src, k * 4);
            proof {
                assert(p[k as int] == u32_of_le_bytes(src@.subrange(4 * (k as int), 4 * (k as int) + 4)));
            }
            vals.push(v);
            k += 1;
        }
        if index_width == 2 {
            let mut j: usize = 0;
            while j < count
                invariant
                    index_width == 2,
                    dst@ == old(dst)@,
                    n == old(dst)@.len(),
                    count == n,
                    j <= count,
                    vals@.len() == count,
                    self.index_payload(src@) == Some(p),
                    p.len() == count,
                    forall|i: int| 0 <= i < count ==> vals@[i] == p[i],
                    forall|i: int| 0 <= i < j ==> p[i] < 0x10000,
                decreases count - j,
            {
                if vals[j] >= 65536 {
                    proof {
                        assert(p[j as int] >= 0x10000);
                        assert(!crate::codec::indices_fit_width(p, 2));
                    }
                    return 1;
                }
                j += 1;
            }
        }
        *dst = vals;
        proof {
            assert(dst@ =~= p);
        }
        0
    }

    fn vertex_encode_bound(&self, vertex_count: usize, element_width: usize) -> (r: usize) {
        vertex_count * element_width
    }

    fn vertex_encode(&self, dst: &mut Vec<u8>, src: &Vec<u8>, element_width: usize) -> (written: usize) {
        proof {
            assert((src@.len() as int / element_width as int) * element_width as int == src@.len() as int)
                by (nonlinear_arith)
                requires
                    element_width >= 1,
                    src@.len() as int % element_width as int == 0,
            ;
        }
        let mut out: Vec<u8> = Vec::new();
        let mut k: usize = 0;
        while k < src.len()
            invariant
                dst@ == old(dst)@,
                old(dst)@.len() >= src@.len(),
                k <= src@.len(),
                out@ == src@.take(k as int),
            decreases src@.len() - k,
        {
            out.push(src[k]);
            k += 1;
            proof {
                assert(out@ =~= src@.take(k as int));
            }
        }
        let written = out.len();
        let target = dst.len();
        while out.len() < target
            invariant
                dst@ == old(dst)@,
                target == old(dst)@.len(),
                src@.len() <= out@.len() <= target,
                out@.subrange(0, src@.len() as int) == src@,
            decreases target - out@.len(),
        {
            out.push(0u8);
            proof {
                assert(out@.subrange(0, src@.len() as int) =~= src@);
            }
        }
        *dst = out;
        proof {
            assert(dst@.take(written as int) =~= src@);
        }
        written
    }

    fn vertex_decode(&self, dst: &mut Vec<u8>, element_width: usize, src: &Vec<u8>) -> (status: i32) {
        let n = dst.len();
        if src.len() % element_width != 0 {
            return 1;
        }
        if src.len() != n {
            return 1;
        }
        let mut vals: Vec<u8> = Vec::new();
        let mut k: usize = 0;
        while k < src.len()
            invariant
                dst@ == old(dst)@,
                n == old(dst)@.len(),
                n == src@.len(),
                k <= src@.len(),
                vals@ == src@.take(k as int),
            decreases src@.len() - k,
        {
            vals.push(src[k]);
            k += 1;
            proof {
                assert(vals@ =~= src@.take(k as int));
            }
        }
        *dst = vals;
        proof {
            assert(dst@ =~= src@);
        }
        0
    }
}

} // verus!
