use engine3d::collision::Contacts;
use engine3d::geom::{BBox, Vec3};
use engine3d::player::Player;
use engine3d::voxel::{voxels_from_chunk, Chunk, Material};
use engine3d::world::{collide_player, collide_x, collide_y, collide_z, mine, place, sound_for, SoundCue};

fn chunk_with(cells: &[((usize, usize, usize), u8)]) -> Chunk {
    let mut c = Chunk::from_data(vec![0u8; 4096]);
    for &((x, y, z), m) in cells {
        c.set(x, y, z, m);
    }
    c
}

fn probes(n: i64) -> Vec<Vec3> {
    (0..n).map(|k| Vec3::new(1_000 + 2_000 * k, 1_000, 1_000)).collect()
}

#[test]
fn mining_clears_first_solid_cell() {
    let mut chunks = vec![chunk_with(&[((2, 0, 0), 3), ((3, 0, 0), 4)])];
    assert_eq!(mine(&mut chunks, &probes(6)), Some((0, 3)));
    assert_eq!(chunks[0].get(2, 0, 0), 0);
    assert_eq!(chunks[0].get(3, 0, 0), 4);
}

#[test]
fn mining_stops_at_bedrock() {
    let mut chunks = vec![chunk_with(&[((1, 0, 0), 7), ((2, 0, 0), 3)])];
    assert_eq!(mine(&mut chunks, &probes(6)), None);
    assert_eq!(chunks[0].get(2, 0, 0), 3);
}

#[test]
fn mining_outside_loaded_chunks_finds_nothing() {
    let mut chunks = vec![chunk_with(&[])];
    let far = vec![Vec3::new(100_000, 1_000, 1_000)];
    assert_eq!(mine(&mut chunks, &far), None);
    assert_eq!(mine(&mut chunks, &probes(6)), None);
}

#[test]
fn placing_fills_cell_in_front_of_solid() {
    let mut chunks = vec![chunk_with(&[((3, 0, 0), 3)])];
    assert_eq!(place(&mut chunks, &probes(6), 2), Some((0, true)));
    assert_eq!(chunks[0].get(2, 0, 0), 2);
    // The placed cell is now the first solid one; the next block goes before it.
    assert_eq!(place(&mut chunks, &probes(6), 5), Some((0, true)));
    assert_eq!(chunks[0].get(1, 0, 0), 5);
}

#[test]
fn placing_into_an_occupied_cell_does_nothing() {
    let mut chunks = vec![chunk_with(&[((0, 0, 0), 3), ((1, 0, 0), 3)])];
    assert_eq!(place(&mut chunks, &probes(6), 2), Some((0, false)));
    assert_eq!(chunks[0].get(0, 0, 0), 3);
}

#[test]
fn placing_without_a_target() {
    let mut chunks = vec![chunk_with(&[])];
    assert_eq!(place(&mut chunks, &probes(6), 2), None);
}

#[test]
fn sounds_by_material() {
    assert_eq!(sound_for(1), SoundCue::Dirt);
    assert_eq!(sound_for(2), SoundCue::Dirt);
    assert_eq!(sound_for(3), SoundCue::Stone);
    assert_eq!(sound_for(7), SoundCue::Stone);
}

#[test]
fn probing_ahead_of_a_move() {
    let chunks = vec![chunk_with(&[((2, 0, 0), 3), ((0, 2, 0), 3), ((0, 0, 2), 3)])];
    let hb = BBox { center: Vec3::new(1_000, 1_000, 1_000), halfwidth: 900 };
    assert!(collide_x(hb, &chunks, 2_500));
    assert!(!collide_x(hb, &chunks, 100));
    assert!(collide_y(hb, &chunks, 2_500));
    assert!(collide_z(hb, &chunks, 2_500));
    assert!(!collide_z(hb, &chunks, -100));
}

#[test]
fn tick_collides_against_current_chunk() {
    let mut chunks = vec![chunk_with(&[((5, 5, 5), 3)])];
    let mut player = Player::new(BBox { center: Vec3::new(11_000, 11_500, 11_000), halfwidth: 900 });
    let mut contacts = Contacts::new();
    assert_eq!(collide_player(&mut chunks, &mut player, &mut contacts), Some(0));
    assert!(chunks[0].bboxes_generated());
    assert_eq!(player.hitbox.center.y, 12_900);
    assert!(player.y_neg_blocked && player.can_jump);
    let mut none: Vec<Chunk> = vec![];
    assert_eq!(collide_player(&mut none, &mut player, &mut contacts), None);
}

#[test]
fn material_strengths() {
    assert_eq!(Material::Grass.strength(), 1);
    assert_eq!(Material::Dirt.strength(), 2);
    assert_eq!(Material::Iron.strength(), 3);
}

#[test]
fn voxel_list_of_a_chunk() {
    let mut chunk = Chunk::from_data(vec![0u8; 4096]);
    chunk.set(0, 0, 1, 1);
    chunk.set(0, 0, 2, 5);
    let voxels = voxels_from_chunk(&chunk, Vec3::new(100, 200, 300));
    assert_eq!(voxels.len(), 4096);
    assert_eq!(voxels[0].center, Vec3::new(100, 200, 300));
    assert_eq!(voxels[0].material, Material::Dirt);
    assert_eq!(voxels[1].material, Material::Iron);
    assert_eq!(voxels[1].center, Vec3::new(100, 200, 2_300));
    assert_eq!(voxels[2].material, Material::Grass);
    assert_eq!(voxels[4095].center, Vec3::new(30_100, 30_200, 30_300));
    assert_eq!(voxels[4095].get_bbox(), BBox { center: Vec3::new(30_100, 30_200, 30_300), halfwidth: 1_000 });
}
