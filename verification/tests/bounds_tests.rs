use optm::bounds::{calc_pos_offset_and_scale, calc_uv_offset_and_scale};

#[test]
fn single_vertex_has_its_own_offset_and_zero_scale() {
    let positions = vec![1i64, 2, 3];
    let (offset, scale) = calc_pos_offset_and_scale(&positions);
    assert_eq!(offset, [1, 2, 3]);
    assert_eq!(scale, 0);
}

#[test]
fn position_scale_is_shared_across_axes() {
    // Per-axis deviations are 1, 2 and 4; all three axes share the max.
    let positions = vec![0i64, 0, 0, 1, 2, 4];
    let (offset, scale) = calc_pos_offset_and_scale(&positions);
    assert_eq!(offset, [0, 0, 0]);
    assert_eq!(scale, 4);
}

#[test]
fn position_bounds_contain_every_coordinate() {
    let positions = vec![5i64, -3, 10, 2, 7, -8, -1, 0, 4];
    let (offset, scale) = calc_pos_offset_and_scale(&positions);
    assert_eq!(offset, [-1, -3, -8]);
    assert!(scale >= 0);
    for v in 0..positions.len() / 3 {
        for a in 0..3 {
            let c = positions[3 * v + a];
            assert!(offset[a] <= c && c <= offset[a] + scale);
        }
    }
    // The scale is attained: axis 2 of the first vertex deviates by 18.
    assert_eq!(scale, 18);
}

#[test]
fn empty_positions_yield_degenerate_bounds() {
    let positions: Vec<i64> = Vec::new();
    let (offset, scale) = calc_pos_offset_and_scale(&positions);
    assert_eq!(offset, [i64::MAX, i64::MAX, i64::MAX]);
    assert_eq!(scale, 0);
}

#[test]
fn uv_scale_is_independent_per_axis() {
    let coords = vec![0i64, 0, 1, 5];
    let (offset, scale) = calc_uv_offset_and_scale(&coords);
    assert_eq!(offset, [0, 0]);
    assert_eq!(scale, [1, 5]);
}

#[test]
fn empty_uvs_yield_degenerate_bounds() {
    let coords: Vec<i64> = Vec::new();
    let (offset, scale) = calc_uv_offset_and_scale(&coords);
    assert_eq!(offset, [i64::MAX, i64::MAX]);
    assert_eq!(scale, [0, 0]);
}

#[test]
fn uv_bounds_contain_every_coordinate() {
    let coords = vec![3i64, -2, -4, 9, 0, 1];
    let (offset, scale) = calc_uv_offset_and_scale(&coords);
    assert_eq!(offset, [-4, -2]);
    assert_eq!(scale, [7, 11]);
    for v in 0..coords.len() / 2 {
        for a in 0..2 {
            let c = coords[2 * v + a];
            assert!(offset[a] <= c && c <= offset[a] + scale[a]);
        }
    }
}
