use engine3d::geom::Vec3;
use engine3d::mesh::chunk_instances;
use engine3d::voxel::Chunk;

#[test]
fn only_exposed_voxels_are_drawn() {
    let mut chunk = Chunk::from_data(vec![3u8; 4096]);
    chunk.set(5, 5, 5, 0);
    let lists = chunk_instances(&chunk, 0, 7);
    assert_eq!(lists.len(), 7);
    // 1352 cells on the faces, plus the six around the hollow cell.
    assert_eq!(lists[2].len(), 1352 + 6);
    assert!(lists.iter().enumerate().all(|(m, l)| m == 2 || l.is_empty()));
    assert_eq!(lists[2][0], Vec3::new(1_000, 1_000, 1_000));
    assert!(lists[2].contains(&Vec3::new(9_000, 11_000, 11_000)));
    assert!(!lists[2].contains(&Vec3::new(11_000, 11_000, 11_000)));
    assert!(!lists[2].contains(&Vec3::new(15_000, 15_000, 15_000)));
}

#[test]
fn instances_are_placed_in_their_chunk() {
    let mut chunk = Chunk::from_data(vec![0u8; 4096]);
    chunk.set(0, 0, 0, 1);
    chunk.set(7, 8, 9, 9);
    let lists = chunk_instances(&chunk, 51, 2);
    assert_eq!(lists[0], vec![Vec3::new(33_000, 1_000, 33_000)]);
    assert!(lists[1].is_empty());
}
