use engine3d::save::{load, save};
use engine3d::voxel::Chunk;

fn grid(seed: u8) -> Vec<u8> {
    (0..4096u32).map(|k| ((k as u8).wrapping_mul(31)).wrapping_add(seed) % 8).collect()
}

#[test]
fn save_then_load_gives_back_the_grids() {
    let chunks: Vec<Chunk> = (0..3).map(|s| Chunk::from_data(grid(s))).collect();
    let bytes = save(&chunks);
    assert_eq!(bytes.len(), 3 * 4096);
    assert_eq!(&bytes[4096..8192], &grid(1)[..]);
    let loaded = load(&bytes);
    assert_eq!(loaded.len(), 3);
    for (a, b) in loaded.iter().zip(chunks.iter()) {
        assert_eq!(a.data, b.data);
        assert!(!a.bboxes_generated());
    }
}

#[test]
fn trailing_partial_window_is_ignored() {
    let mut bytes = grid(0);
    bytes.extend_from_slice(&[1, 2, 3]);
    let loaded = load(&bytes);
    assert_eq!(loaded.len(), 1);
    assert_eq!(loaded[0].data, grid(0));
}

#[test]
fn empty_save() {
    assert!(save(&vec![]).is_empty());
    assert!(load(&vec![]).is_empty());
}
