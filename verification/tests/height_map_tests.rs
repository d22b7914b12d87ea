use terrain_flight::fixed_point::{FpVec3, FP_ONE};
use terrain_flight::height_map_data::{BoundingBox, HeightMapData, HeightMapError};

/// Builds a 4-bytes-per-pixel image whose red channel is given per pixel.
fn image_from_red(red: &[u8]) -> Vec<u8> {
    let mut data = Vec::new();
    for &r in red {
        data.push(r);
        data.push(0);
        data.push(0);
        data.push(255);
    }
    data
}

/// A footprint from (0,0,0) spanning `w` by `h` world units, 255 units tall,
/// so a red byte `d` maps to the exact height `d * FP_ONE`.
fn bounds(w: i64, h: i64) -> BoundingBox {
    BoundingBox {
        _min: FpVec3 { x: 0, y: 0, z: 0 },
        _size: FpVec3 { x: w * FP_ONE, y: 255 * FP_ONE, z: h * FP_ONE },
    }
}

fn flat_field(dim: usize, byte: u8, sea: i64) -> HeightMapData {
    let img = image_from_red(&vec![byte; dim * dim]);
    HeightMapData::initialize_height_map_data(&bounds(100, 100), dim, dim, &img, sea).unwrap()
}

#[test]
fn build_rejects_single_pixel_dimension() {
    let img = image_from_red(&[7, 7, 7, 7]);
    let r = HeightMapData::initialize_height_map_data(&bounds(4, 4), 1, 4, &img, 0);
    assert_eq!(r.unwrap_err(), HeightMapError::TooFewLevels);
}

#[test]
fn build_rejects_short_buffer() {
    let img = image_from_red(&[7; 15]);
    let r = HeightMapData::initialize_height_map_data(&bounds(4, 4), 4, 4, &img, 0);
    assert_eq!(r.unwrap_err(), HeightMapError::MalformedImage);
}

#[test]
fn build_level_zero_scales_red_channel() {
    let red = [0u8, 51, 102, 153, 204, 255, 51, 102, 153, 204, 255, 0, 102, 153, 204, 255];
    let img = image_from_red(&red);
    let hm = HeightMapData::initialize_height_map_data(&bounds(4, 4), 4, 4, &img, 0).unwrap();
    assert_eq!(hm._lod_count, 3);
    assert_eq!(hm._width, vec![4, 2, 1]);
    assert_eq!(hm._height, vec![4, 2, 1]);
    for (i, &d) in red.iter().enumerate() {
        assert_eq!(hm._min_height_map_data[0][i], d as i64 * FP_ONE);
    }
}

#[test]
fn pyramid_cells_are_block_minima() {
    let red = [9u8, 5, 7, 8, 3, 6, 2, 4, 10, 11, 12, 13, 14, 15, 1, 16];
    let img = image_from_red(&red);
    let hm = HeightMapData::initialize_height_map_data(&bounds(4, 4), 4, 4, &img, 0).unwrap();
    let l1 = &hm._min_height_map_data[1];
    // block minima of [9 5 / 3 6], [7 8 / 2 4], [10 11 / 14 15], [12 13 / 1 16]
    assert_eq!(l1[0], 3 * FP_ONE);
    assert_eq!(l1[1], 2 * FP_ONE);
    assert_eq!(l1[2], 10 * FP_ONE);
    assert_eq!(l1[3], 1 * FP_ONE);
    // and the apex is the global minimum
    assert_eq!(hm._min_height_map_data[2][0], 1 * FP_ONE);
}

#[test]
fn bilinear_at_pixel_centers_matches_samples() {
    let mut red = [0u8; 25];
    for (i, r) in red.iter_mut().enumerate() {
        *r = (10 + 9 * i) as u8;
    }
    let img = image_from_red(&red);
    let hm = HeightMapData::initialize_height_map_data(&bounds(4, 4), 5, 5, &img, 0).unwrap();
    // with a 4x4-unit footprint, pixel (i, j) of the 5x5 grid sits at
    // world (i, j) exactly, with no fractional part
    for j in 0..5i64 {
        for i in 0..5i64 {
            let p = FpVec3 { x: i * FP_ONE, y: 0, z: j * FP_ONE };
            let expected = red[(j * 5 + i) as usize] as i64 * FP_ONE;
            assert_eq!(hm.get_height_bilinear(&p, 0), expected);
            assert_eq!(hm.get_height_point(&p, 0), expected);
        }
    }
}

#[test]
fn bilinear_interpolates_between_pixels() {
    // 2x2 grid over a 1x1 footprint: heights 0 and 100 along x
    let red = [0u8, 100, 0, 100];
    let img = image_from_red(&red);
    let hm = HeightMapData::initialize_height_map_data(&bounds(1, 1), 2, 2, &img, 0).unwrap();
    // halfway between the columns: exactly half of 100 units
    let p = FpVec3 { x: FP_ONE / 2, y: 0, z: 0 };
    assert_eq!(hm.get_height_bilinear(&p, 0), 50 * FP_ONE);
}

#[test]
fn bilinear_outside_footprint_clamps_to_boundary() {
    let red = [10u8, 20, 30, 40, 50, 60, 70, 80, 90, 100, 110, 120, 130, 140, 150, 160];
    let img = image_from_red(&red);
    let hm = HeightMapData::initialize_height_map_data(&bounds(3, 3), 4, 4, &img, 0).unwrap();
    let far = FpVec3 { x: -5000 * FP_ONE, y: 0, z: 5000 * FP_ONE };
    let corner = FpVec3 { x: 0, y: 0, z: 3 * FP_ONE };
    assert_eq!(
        hm.get_height_bilinear(&far, 0),
        hm.get_height_bilinear(&corner, 0)
    );
}

#[test]
fn sea_level_floors_every_query() {
    let hm = flat_field(8, 100, 200 * FP_ONE);
    for &lod in &[0usize, 1, 2, 9] {
        for &x in &[0i64, 13, 50, 99, 1000, -1000] {
            let p = FpVec3 { x: x * FP_ONE, y: 0, z: 42 * FP_ONE };
            assert_eq!(hm.get_height_bilinear(&p, lod), 200 * FP_ONE);
            assert_eq!(hm.get_height_point(&p, lod), 200 * FP_ONE);
        }
    }
}

#[test]
fn vertical_ray_hits_flat_field_from_above() {
    let hm = flat_field(8, 100, 0);
    let start = FpVec3 { x: 50 * FP_ONE, y: 1000 * FP_ONE, z: 50 * FP_ONE };
    let dir = FpVec3 { x: 0, y: -FP_ONE, z: 0 };
    let mut hit = FpVec3 { x: 0, y: 0, z: 0 };
    let collided = hm.get_collision_point(&start, &dir, 2000 * FP_ONE, &mut hit);
    assert!(collided);
    assert_eq!(hit.y, 100 * FP_ONE);
    assert_eq!(hit.x, 50 * FP_ONE);
    assert_eq!(hit.z, 50 * FP_ONE);
}

#[test]
fn vertical_ray_from_below_surface_reports_no_hit() {
    let hm = flat_field(8, 100, 0);
    let start = FpVec3 { x: 50 * FP_ONE, y: 90 * FP_ONE, z: 50 * FP_ONE };
    let dir = FpVec3 { x: 0, y: -FP_ONE, z: 0 };
    let mut hit = FpVec3 { x: 1, y: 2, z: 3 };
    let collided = hm.get_collision_point(&start, &dir, 2000 * FP_ONE, &mut hit);
    assert!(!collided);
    // the collision point is left untouched
    assert_eq!((hit.x, hit.y, hit.z), (1, 2, 3));
}

#[test]
fn upward_vertical_ray_reports_no_hit() {
    let hm = flat_field(8, 100, 0);
    let start = FpVec3 { x: 50 * FP_ONE, y: 1000 * FP_ONE, z: 50 * FP_ONE };
    let dir = FpVec3 { x: 0, y: FP_ONE, z: 0 };
    let mut hit = FpVec3 { x: 0, y: 0, z: 0 };
    assert!(!hm.get_collision_point(&start, &dir, 2000 * FP_ONE, &mut hit));
}

#[test]
fn diagonal_ray_hits_flat_field() {
    let hm = flat_field(8, 100, 0);
    // moving diagonally down in x, descending one unit per unit traveled
    let start = FpVec3 { x: 10 * FP_ONE, y: 120 * FP_ONE, z: 50 * FP_ONE };
    let dir = FpVec3 { x: 46341, y: -46341, z: 0 };
    let mut hit = FpVec3 { x: 0, y: 0, z: 0 };
    let collided = hm.get_collision_point(&start, &dir, 500 * FP_ONE, &mut hit);
    assert!(collided);
    assert_eq!(hit.y, 100 * FP_ONE);
}

#[test]
fn ray_walking_off_the_grid_keeps_no_phantom_hit() {
    let hm = flat_field(8, 100, 0);
    // high above the terrain, moving horizontally: never touches it
    let start = FpVec3 { x: 50 * FP_ONE, y: 500 * FP_ONE, z: 50 * FP_ONE };
    let dir = FpVec3 { x: FP_ONE, y: 0, z: 0 };
    let mut hit = FpVec3 { x: 0, y: 0, z: 0 };
    assert!(!hm.get_collision_point(&start, &dir, 500 * FP_ONE, &mut hit));
}
