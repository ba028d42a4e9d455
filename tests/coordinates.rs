use engine3d::coordinates::{index_to_world, world_to_chunk, CHUNK_EXTENT, WORLD_MAX};
use engine3d::geom::Vec3;

#[test]
fn origin_maps_to_first_chunk() {
    assert_eq!(world_to_chunk(Vec3::new(0, 0, 0)), (0, (0, 0, 0)));
}

#[test]
fn position_maps_to_chunk_and_cell() {
    // x = 40 units: chunk 1, cell 4; y = 70.5 units: chunk 2, cell 3; z = 3 units: chunk 0, cell 1.
    let (i, cell) = world_to_chunk(Vec3::new(40_000, 70_500, 3_000));
    assert_eq!(i, 1 * 50 + 2 * 10 + 0);
    assert_eq!(cell, (4, 3, 1));
    assert_eq!(index_to_world(i), (1, 2, 0));
}

#[test]
fn outside_positions_saturate() {
    assert_eq!(world_to_chunk(Vec3::new(-5_000, -1, -99_000)), (0, (0, 0, 0)));
    let (i, cell) = world_to_chunk(Vec3::new(10_000_000, 10_000_000, 10_000_000));
    assert_eq!(i, WORLD_MAX - 1);
    assert_eq!(cell, (15, 15, 15));
}

#[test]
fn index_to_world_inverts_flattening() {
    for i in 0..WORLD_MAX {
        let (x, y, z) = index_to_world(i);
        assert_eq!(x * 50 + y * 10 + z, i);
    }
    assert_eq!(index_to_world(WORLD_MAX - 1), (9, 4, 9));
}

#[test]
fn chunk_round_trip_through_origin() {
    let p = Vec3::new(123_456, 45_000, 300_001);
    let (i, _) = world_to_chunk(p);
    let (x, y, z) = index_to_world(i);
    let origin = Vec3::new(x as i64 * CHUNK_EXTENT, y as i64 * CHUNK_EXTENT, z as i64 * CHUNK_EXTENT);
    assert_eq!(world_to_chunk(origin).0, i);
    let corner = Vec3::new(origin.x + CHUNK_EXTENT - 1, origin.y + CHUNK_EXTENT - 1, origin.z + CHUNK_EXTENT - 1);
    assert_eq!(world_to_chunk(corner).0, i);
}
