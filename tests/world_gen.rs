use engine3d::coordinates::WORLD_MAX;
use engine3d::world_gen::{
    bottom_material, make_air_layer, make_bottom_layer, make_mid_layer, make_top_layer, make_world,
    mid_material, ChunkNoise, NOISE_ONE,
};

fn pseudo_noise(seed: u64) -> Vec<ChunkNoise> {
    let mut state = seed.wrapping_mul(6364136223846793005).wrapping_add(1442695040888963407);
    let mut next = move || {
        state = state.wrapping_mul(6364136223846793005).wrapping_add(1442695040888963407);
        ((state >> 33) % (NOISE_ONE as u64 + 1)) as u16
    };
    let mut out = Vec::new();
    for _ in 0..WORLD_MAX {
        let surface: Vec<u16> = (0..256).map(|_| next()).collect();
        let volume: Vec<u16> = (0..4096).map(|_| next()).collect();
        out.push(ChunkNoise { surface, volume });
    }
    out
}

#[test]
fn generation_is_deterministic() {
    let a = make_world(&pseudo_noise(42));
    let b = make_world(&pseudo_noise(42));
    assert_eq!(a.len(), WORLD_MAX);
    for (x, y) in a.iter().zip(b.iter()) {
        assert_eq!(x.data, y.data);
        assert!(x.voxels.is_empty());
    }
}

#[test]
fn material_buckets_cover_the_noise_range() {
    for n in 0..=NOISE_ONE {
        assert!([0u8, 3, 4, 5].contains(&mid_material(n)));
        assert!([0u8, 3, 4, 5, 7].contains(&bottom_material(n)));
    }
}

#[test]
fn mid_material_thresholds() {
    assert_eq!(mid_material(0), 3);
    assert_eq!(mid_material(3000), 3);
    assert_eq!(mid_material(3001), 4);
    assert_eq!(mid_material(3300), 4);
    assert_eq!(mid_material(3301), 3);
    assert_eq!(mid_material(5000), 0);
    assert_eq!(mid_material(7100), 5);
    assert_eq!(mid_material(9000), 3);
}

#[test]
fn bottom_material_thresholds() {
    assert_eq!(bottom_material(50), 7);
    assert_eq!(bottom_material(100), 7);
    assert_eq!(bottom_material(101), 3);
    assert_eq!(bottom_material(3100), 4);
    assert_eq!(bottom_material(5000), 0);
    assert_eq!(bottom_material(7150), 5);
    assert_eq!(bottom_material(9800), 3);
    assert_eq!(bottom_material(9801), 7);
}

#[test]
fn layers_by_height() {
    let volume = vec![6000u16; 4096];
    let bottom = make_bottom_layer(&volume);
    assert_eq!(bottom.get(3, 0, 7), 7);
    assert_eq!(bottom.get(3, 1, 7), 3);
    let mid = make_mid_layer(&vec![5000u16; 4096]);
    assert!(mid.data.iter().all(|&m| m == 0));
    let air = make_air_layer();
    assert!(air.data.iter().all(|&m| m == 0));
}

#[test]
fn surface_layer_profile() {
    // Level 5000 puts the surface at height 8 * 1 + 48 = 56, that is y = 8
    // in a chunk at chunk height 3.
    let surface = vec![5000u16; 256];
    let mut volume = vec![6000u16; 4096];
    volume[0 * 256 + 4 * 16] = 4000;
    let top = make_top_layer(3, &surface, &volume);
    assert_eq!(top.get(0, 9, 0), 0);
    assert_eq!(top.get(0, 8, 0), 1);
    assert_eq!(top.get(0, 7, 0), 2);
    assert_eq!(top.get(0, 6, 0), 2);
    assert_eq!(top.get(0, 5, 0), 3);
    assert_eq!(top.get(0, 4, 0), 2);
}

#[test]
fn world_layers_follow_chunk_height() {
    let world = make_world(&pseudo_noise(7));
    // Chunk (0, 0, 0) is a bottom chunk: bedrock on its lowest plane.
    assert!((0..16).all(|x| (0..16).all(|z| world[0].get(x, 0, z) == 7)));
    // Chunk (0, 4, 0) is the air layer.
    assert!(world[4 * 10].data.iter().all(|&m| m == 0));
}
