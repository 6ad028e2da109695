//! Quantization bounds: per-axis minimum (offset) and maximum deviation
//! (scale) over a flat coordinate array.
//!
//! Coordinates are exact signed integers: a fixed-point view of the
//! mesh data, produced outside this crate. Both calculators make two
//! passes — the first fixes the per-axis minima, the second measures
//! deviations against those already-fixed minima — and that ordering is
//! part of the format: scale depends on offset.
//!
//! Positions share one scale across all three axes, so quantization
//! preserves aspect ratio; UV coordinates get an independent scale per
//! axis, trading shape for texture-coordinate precision. An empty input
//! is accepted and yields the degenerate bounds: every offset at the
//! integer maximum, every scale zero. Callers must guard against empty
//! inputs before trusting the values.

use vstd::prelude::*;

verus! {

/// Largest coordinate magnitude the calculators accept; keeps every
/// deviation `coordinate - offset` within the 64-bit range.
pub const COORD_LIMIT: i64 = 0x2000_0000_0000_0000;

/// Axis `a` of vertex `v` in a flat position array (three coordinates
/// per vertex).
pub open spec fn pos_coord(s: Seq<i64>, v: int, a: int) -> i64 {
    s[3 * v + a]
}

/// Axis `a` of vertex `v` in a flat UV array (two coordinates per
/// vertex).
pub open spec fn uv_coord(s: Seq<i64>, v: int, a: int) -> i64 {
    s[2 * v + a]
}

/// Offset and shared scale of a position array. The offset is the
/// per-axis minimum; the scale is the largest deviation from it over
/// all vertices and axes, so every coordinate lies within
/// `offset[axis] ..= offset[axis] + scale`.
pub fn calc_pos_offset_and_scale(positions: &Vec<i64>) -> (r: ([i64; 3], i64))
    requires
        positions@.len() % 3 == 0,
        forall|i: int| 0 <= i < positions@.len() ==> (-COORD_LIMIT <= #[trigger] positions@[i]
            && positions@[i] <= COORD_LIMIT),
    ensures
        r.1 >= 0,
        forall|v: int, a: int| 0 <= v < positions@.len() / 3 && 0 <= a < 3 ==>
            (r.0[a] <= #[trigger] pos_coord(positions@, v, a)
                && pos_coord(positions@, v, a) <= r.0[a] + r.1),
        positions@.len() > 0 ==> (exists|v: int| 0 <= v < positions@.len() / 3
            && r.0[0] == #[trigger] pos_coord(positions@, v, 0)),
        positions@.len() > 0 ==> (exists|v: int| 0 <= v < positions@.len() / 3
            && r.0[1] == #[trigger] pos_coord(positions@, v, 1)),
        positions@.len() > 0 ==> (exists|v: int| 0 <= v < positions@.len() / 3
            && r.0[2] == #[trigger] pos_coord(positions@, v, 2)),
        positions@.len() > 0 ==> (exists|v: int, a: int| 0 <= v < positions@.len() / 3
            && 0 <= a < 3 && r.1 == #[trigger] pos_coord(positions@, v, a) - r.0[a]),
        positions@.len() == 0 ==> r.0[0] == i64::MAX && r.0[1] == i64::MAX && r.0[2] == i64::MAX
            && r.1 == 0,
{
    let len = positions.len();
    let n = len / 3;
    proof {
        assert(3 * (len as int / 3) == len as int) by (nonlinear_arith)
            requires
                len as int % 3 == 0,
                len >= 0,
        ;
    }
    let mut o0: i64 = i64::MAX;
    let mut o1: i64 = i64::MAX;
    let mut o2: i64 = i64::MAX;
    let mut i: usize = 0;
    while i < n
        invariant
            n == positions@.len() / 3,
            3 * n == positions@.len(),
            positions@.len() <= usize::MAX,
            forall|k: int| 0 <= k < positions@.len() ==> (-COORD_LIMIT <= #[trigger] positions@[k]
                && positions@[k] <= COORD_LIMIT),
            i <= n,
            forall|v: int| 0 <= v < i ==> (o0 <= #[trigger] pos_coord(positions@, v, 0)
                && o1 <= pos_coord(positions@, v, 1) && o2 <= pos_coord(positions@, v, 2)),
            i == 0 ==> o0 == i64::MAX && o1 == i64::MAX && o2 == i64::MAX,
            i > 0 ==> (exists|v: int| 0 <= v < i && o0 == #[trigger] pos_coord(positions@, v, 0))
                && (exists|v: int| 0 <= v < i && o1 == #[trigger] pos_coord(positions@, v, 1))
                && (exists|v: int| 0 <= v < i && o2 == #[trigger] pos_coord(positions@, v, 2)),
        decreases n - i,
    {
        let x = positions[3 * i];
        if x < o0 {
            o0 = x;
        }
        let y = positions[3 * i + 1];
        if y < o1 {
            o1 = y;
        }
        let z = positions[3 * i + 2];
        if z < o2 {
            o2 = z;
        }
        i += 1;
        proof {
            let v = i as int - 1;
            assert(pos_coord(positions@, v, 0) == positions@[3 * v]
                && pos_coord(positions@, v, 1) == positions@[3 * v + 1]
                && pos_coord(positions@, v, 2) == positions@[3 * v + 2]);
            assert(o0 <= pos_coord(positions@, v, 0) && o1 <= pos_coord(positions@, v, 1)
                && o2 <= pos_coord(positions@, v, 2));
        }
    }
    let mut scale: i64 = 0;
    let mut j: usize = 0;
    while j < n
        invariant
            n == positions@.len() / 3,
            3 * n == positions@.len(),
            positions@.len() <= usize::MAX,
            forall|k: int| 0 <= k < positions@.len() ==> (-COORD_LIMIT <= #[trigger] positions@[k]
                && positions@[k] <= COORD_LIMIT),
            j <= n,
            forall|v: int| 0 <= v < n ==> (o0 <= #[trigger] pos_coord(positions@, v, 0)
                && o1 <= pos_coord(positions@, v, 1) && o2 <= pos_coord(positions@, v, 2)),
            n == 0 ==> o0 == i64::MAX && o1 == i64::MAX && o2 == i64::MAX,
            n > 0 ==> (exists|v: int| 0 <= v < n && o0 == #[trigger] pos_coord(positions@, v, 0))
                && (exists|v: int| 0 <= v < n && o1 == #[trigger] pos_coord(positions@, v, 1))
                && (exists|v: int| 0 <= v < n && o2 == #[trigger] pos_coord(positions@, v, 2)),
            n > 0 ==> -COORD_LIMIT <= o0 <= COORD_LIMIT && -COORD_LIMIT <= o1 <= COORD_LIMIT
                && -COORD_LIMIT <= o2 <= COORD_LIMIT,
            scale >= 0,
            forall|v: int| 0 <= v < j ==> (#[trigger] pos_coord(positions@, v, 0) - o0 <= scale
                && pos_coord(positions@, v, 1) - o1 <= scale
                && pos_coord(positions@, v, 2) - o2 <= scale),
            scale == 0 || exists|v: int, a: int| 0 <= v < j && 0 <= a < 3
                && scale == #[trigger] pos_coord(positions@, v, a)
                    - (if a == 0 { o0 } else if a == 1 { o1 } else { o2 }),
        decreases n - j,
    {
        proof {
            assert(pos_coord(positions@, j as int, 0) == positions@[3 * j]
                && pos_coord(positions@, j as int, 1) == positions@[3 * j + 1]
                && pos_coord(positions@, j as int, 2) == positions@[3 * j + 2]);
        }
        let d0 = positions[3 * j] - o0;
        if d0 > scale {
            scale = d0;
        }
        let d1 = positions[3 * j + 1] - o1;
        if d1 > scale {
            scale = d1;
        }
        let d2 = positions[3 * j + 2] - o2;
        if d2 > scale {
            scale = d2;
        }
        j += 1;
    }
    proof {
        if n > 0 && scale == 0 {
            let v0 = choose|v: int| 0 <= v < n && o0 == #[trigger] pos_coord(positions@, v, 0);
            assert(pos_coord(positions@, v0, 0) - o0 == 0);
        }
    }
    let offsets = [o0, o1, o2];
    proof {
        assert(offsets[0] == o0 && offsets[1] == o1 && offsets[2] == o2);
        assert forall|v: int, a: int| 0 <= v < positions@.len() / 3 && 0 <= a < 3 implies
            (offsets[a] <= #[trigger] pos_coord(positions@, v, a)
                && pos_coord(positions@, v, a) <= offsets[a] + scale) by {
            if a == 0 {
                assert(o0 <= pos_coord(positions@, v, 0));
                assert(pos_coord(positions@, v, 0) - o0 <= scale);
            } else if a == 1 {
                assert(o1 <= pos_coord(positions@, v, 1));
                assert(pos_coord(positions@, v, 1) - o1 <= scale);
            } else {
                assert(o2 <= pos_coord(positions@, v, 2));
                assert(pos_coord(positions@, v, 2) - o2 <= scale);
            }
        }
    }
    (offsets, scale)
}

/// Offset and per-axis scales of a UV array. Each axis gets its own
/// maximum deviation; the axes never share a scale.
pub fn calc_uv_offset_and_scale(coords: &Vec<i64>) -> (r: ([i64; 2], [i64; 2]))
    requires
        coords@.len() % 2 == 0,
        forall|i: int| 0 <= i < coords@.len() ==> (-COORD_LIMIT <= #[trigger] coords@[i]
            && coords@[i] <= COORD_LIMIT),
    ensures
        r.1[0] >= 0 && r.1[1] >= 0,
        forall|v: int, a: int| 0 <= v < coords@.len() / 2 && 0 <= a < 2 ==>
            (r.0[a] <= #[trigger] uv_coord(coords@, v, a)
                && uv_coord(coords@, v, a) <= r.0[a] + r.1[a]),
        coords@.len() > 0 ==> (exists|v: int| 0 <= v < coords@.len() / 2
            && r.0[0] == #[trigger] uv_coord(coords@, v, 0)),
        coords@.len() > 0 ==> (exists|v: int| 0 <= v < coords@.len() / 2
            && r.0[1] == #[trigger] uv_coord(coords@, v, 1)),
        coords@.len() > 0 ==> (exists|v: int| 0 <= v < coords@.len() / 2
            && r.1[0] == #[trigger] uv_coord(coords@, v, 0) - r.0[0]),
        coords@.len() > 0 ==> (exists|v: int| 0 <= v < coords@.len() / 2
            && r.1[1] == #[trigger] uv_coord(coords@, v, 1) - r.0[1]),
        coords@.len() == 0 ==> r.0[0] == i64::MAX && r.0[1] == i64::MAX && r.1[0] == 0
            && r.1[1] == 0,
{
    let len = coords.len();
    let n = len / 2;
    proof {
        assert(2 * (len as int / 2) == len as int) by (nonlinear_arith)
            requires
                len as int % 2 == 0,
                len >= 0,
        ;
    }
    let mut o0: i64 = i64::MAX;
    let mut o1: i64 = i64::MAX;
    let mut i: usize = 0;
    while i < n
        invariant
            n == coords@.len() / 2,
            2 * n == coords@.len(),
            coords@.len() <= usize::MAX,
            forall|k: int| 0 <= k < coords@.len() ==> (-COORD_LIMIT <= #[trigger] coords@[k]
                && coords@[k] <= COORD_LIMIT),
            i <= n,
            forall|v: int| 0 <= v < i ==> (o0 <= #[trigger] uv_coord(coords@, v, 0)
                && o1 <= uv_coord(coords@, v, 1)),
            i == 0 ==> o0 == i64::MAX && o1 == i64::MAX,
            i > 0 ==> (exists|v: int| 0 <= v < i && o0 == #[trigger] uv_coord(coords@, v, 0))
                && (exists|v: int| 0 <= v < i && o1 == #[trigger] uv_coord(coords@, v, 1)),
        decreases n - i,
    {
        let u = coords[2 * i];
        if u < o0 {
            o0 = u;
        }
        let w = coords[2 * i + 1];
        if w < o1 {
            o1 = w;
        }
        i += 1;
        proof {
            let v = i as int - 1;
            assert(uv_coord(coords@, v, 0) == coords@[2 * v]
                && uv_coord(coords@, v, 1) == coords@[2 * v + 1]);
            assert(o0 <= uv_coord(coords@, v, 0) && o1 <= uv_coord(coords@, v, 1));
        }
    }
    let mut s0: i64 = 0;
    let mut s1: i64 = 0;
    let mut j: usize = 0;
    while j < n
        invariant
            n == coords@.len() / 2,
            2 * n == coords@.len(),
            coords@.len() <= usize::MAX,
            forall|k: int| 0 <= k < coords@.len() ==> (-COORD_LIMIT <= #[trigger] coords@[k]
                && coords@[k] <= COORD_LIMIT),
            j <= n,
            forall|v: int| 0 <= v < n ==> (o0 <= #[trigger] uv_coord(coords@, v, 0)
                && o1 <= uv_coord(coords@, v, 1)),
            n == 0 ==> o0 == i64::MAX && o1 == i64::MAX,
            n > 0 ==> (exists|v: int| 0 <= v < n && o0 == #[trigger] uv_coord(coords@, v, 0))
                && (exists|v: int| 0 <= v < n && o1 == #[trigger] uv_coord(coords@, v, 1)),
            n > 0 ==> -COORD_LIMIT <= o0 <= COORD_LIMIT && -COORD_LIMIT <= o1 <= COORD_LIMIT,
            s0 >= 0 && s1 >= 0,
            forall|v: int| 0 <= v < j ==> (#[trigger] uv_coord(coords@, v, 0) - o0 <= s0
                && uv_coord(coords@, v, 1) - o1 <= s1),
            s0 == 0 || exists|v: int| 0 <= v < j && s0 == #[trigger] uv_coord(coords@, v, 0) - o0,
            s1 == 0 || exists|v: int| 0 <= v < j && s1 == #[trigger] uv_coord(coords@, v, 1) - o1,
        decreases n - j,
    {
        proof {
            assert(uv_coord(coords@, j as int, 0) == coords@[2 * j]
                && uv_coord(coords@, j as int, 1) == coords@[2 * j + 1]);
        }
        let d0 = coords[2 * j] - o0;
        if d0 > s0 {
            s0 = d0;
        }
        let d1 = coords[2 * j + 1] - o1;
        if d1 > s1 {
            s1 = d1;
        }
        j += 1;
    }
    proof {
        if n > 0 {
            if s0 == 0 {
                let v0 = choose|v: int| 0 <= v < n && o0 == #[trigger] uv_coord(coords@, v, 0);
                assert(uv_coord(coords@, v0, 0) - o0 == 0);
            }
            if s1 == 0 {
                let v1 = choose|v: int| 0 <= v < n && o1 == #[trigger] uv_coord(coords@, v, 1);
                assert(uv_coord(coords@, v1, 1) - o1 == 0);
            }
        }
    }
    let offsets = [o0, o1];
    let scales = [s0, s1];
    proof {
        assert(offsets[0] == o0 && offsets[1] == o1 && scales[0] == s0 && scales[1] == s1);
        assert forall|v: int, a: int| 0 <= v < coords@.len() / 2 && 0 <= a < 2 implies
            (offsets[a] <= #[trigger] uv_coord(coords@, v, a)
                && uv_coord(coords@, v, a) <= offsets[a] + scales[a]) by {
            if a == 0 {
                assert(o0 <= uv_coord(coords@, v, 0));
                assert(uv_coord(coords@, v, 0) - o0 <= s0);
            } else {
                assert(o1 <= uv_coord(coords@, v, 1));
                assert(uv_coord(coords@, v, 1) - o1 <= s1);
            }
        }
    }
    (offsets, scales)
}

} // verus!
