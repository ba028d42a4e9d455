use engine3d::collision::{update, Contact, Contacts};
use engine3d::geom::{BBox, Vec3};
use engine3d::player::Player;
use engine3d::voxel::Chunk;

fn chunk_with(cells: &[(usize, u8)]) -> Chunk {
    let mut data = vec![0u8; 4096];
    for &(k, m) in cells {
        data[k] = m;
    }
    Chunk::from_data(data)
}

#[test]
fn player_dropped_into_voxel_rests_on_top() {
    // Cell (5, 5, 5) of chunk 0 spans [10, 12] units on every axis.
    let mut chunk = chunk_with(&[(5 * 256 + 5 * 16 + 5, 3)]);
    chunk.create_bboxes(0);
    let mut player = Player::new(BBox { center: Vec3::new(11_000, 11_500, 11_000), halfwidth: 900 });
    let mut contacts = Contacts::new();
    update(&chunk, &mut player.hitbox, &mut contacts);
    assert!(player.hitbox.center.y >= 12_000 + 900);
    assert_eq!(player.hitbox.center.y, 12_900);
    assert_eq!(player.hitbox.center.x, 11_000);
    assert_eq!(player.hitbox.center.z, 11_000);
    assert_eq!(contacts.block_player.len(), 1);
    assert_eq!(contacts.block_player[0].a, 1365);
    assert_eq!(contacts.block_player[0].mtv, Vec3::new(0, 1_400, 0));
    player.process_contacts(&contacts.block_player);
    assert!(player.y_neg_blocked);
    assert!(player.can_jump);
}

#[test]
fn no_contacts_without_boxes_or_solid_cells() {
    let chunk = chunk_with(&[(0, 3)]);
    let mut hitbox = BBox { center: Vec3::new(1_000, 1_000, 1_000), halfwidth: 900 };
    let mut contacts = Contacts::new();
    update(&chunk, &mut hitbox, &mut contacts);
    assert!(contacts.block_player.is_empty());
    assert_eq!(hitbox.center, Vec3::new(1_000, 1_000, 1_000));

    let mut air = chunk_with(&[]);
    air.create_bboxes(0);
    update(&air, &mut hitbox, &mut contacts);
    assert!(contacts.block_player.is_empty());
}

#[test]
fn player_sunk_into_upper_cell_is_lifted_onto_it() {
    // Two stacked cells; the player overlaps only the upper one.
    let mut chunk = chunk_with(&[(5 * 256 + 5 * 16 + 5, 3), (5 * 256 + 6 * 16 + 5, 3)]);
    chunk.create_bboxes(0);
    let mut hitbox = BBox { center: Vec3::new(11_000, 13_800, 11_000), halfwidth: 900 };
    let mut contacts = Contacts::new();
    update(&chunk, &mut hitbox, &mut contacts);
    assert_eq!(contacts.block_player.len(), 1);
    assert_eq!(hitbox.center.y, 14_900);
}

#[test]
fn each_contact_pushes_by_its_own_least_component() {
    // Cell (6, 5, 5) is the deeper contact and pushes along x; cell (5, 4, 5)
    // still overlaps afterwards and pushes by its own y component.
    let a = 5 * 256 + 4 * 16 + 5;
    let b = 6 * 256 + 5 * 16 + 5;
    let mut chunk = chunk_with(&[(a, 3), (b, 3)]);
    chunk.create_bboxes(0);
    let mut hitbox = BBox { center: Vec3::new(11_500, 11_700, 11_000), halfwidth: 1_900 };
    let mut contacts = Contacts::new();
    update(&chunk, &mut hitbox, &mut contacts);
    assert_eq!(hitbox.center, Vec3::new(10_100, 11_900, 11_000));
    assert_eq!(contacts.block_player.len(), 2);
    assert_eq!(contacts.block_player[0].a, b);
    assert_eq!(contacts.block_player[0].mtv, Vec3::new(-1_400, 0, 0));
    assert_eq!(contacts.block_player[1].a, a);
    assert_eq!(contacts.block_player[1].mtv, Vec3::new(0, 200, 0));
}

#[test]
fn contacts_sort_deepest_first_and_clear() {
    let mut contacts = Contacts::new();
    for (i, d) in [(0usize, 100i64), (1, 900), (2, 400)] {
        contacts.block_player.push(Contact { a: i, b: 0, mtv: Vec3::new(d, 0, 0) });
    }
    contacts.sort();
    let order: Vec<usize> = contacts.block_player.iter().map(|c| c.a).collect();
    assert_eq!(order, vec![1, 2, 0]);
    contacts.clear();
    assert!(contacts.block_player.is_empty());
    assert!(contacts.particle_block.is_empty());
}

#[test]
fn boxes_are_generated_once() {
    let mut chunk = chunk_with(&[]);
    assert!(!chunk.bboxes_generated());
    chunk.create_bboxes(51);
    assert!(chunk.bboxes_generated());
    assert_eq!(chunk.voxels.len(), 4096);
    // Chunk 51 sits at chunk coordinates (1, 0, 1).
    assert_eq!(chunk.voxels[0].center, Vec3::new(33_000, 1_000, 33_000));
    assert_eq!(chunk.voxels[4095].center, Vec3::new(63_000, 31_000, 63_000));
    chunk.create_bboxes(0);
    assert_eq!(chunk.voxels.len(), 4096);
    assert_eq!(chunk.voxels[0].center, Vec3::new(33_000, 1_000, 33_000));
}

#[test]
fn data_at_reads_row_major() {
    let mut chunk = chunk_with(&[(2 * 256 + 3 * 16 + 4, 5)]);
    assert_eq!(chunk.data_at(2 * 256 + 3 * 16 + 4), 5);
    assert_eq!(chunk.get(2, 3, 4), 5);
    chunk.set(2, 3, 4, 0);
    assert_eq!(chunk.data_at(2 * 256 + 3 * 16 + 4), 0);
    chunk.set(15, 15, 15, 6);
    assert_eq!(chunk.data_at(4095), 6);
    assert_eq!(chunk.data_at(4096), 0);
    assert_eq!(chunk.data_at(usize::MAX), 0);
}
