//! Layered terrain generation.
//!
//! Noise values arrive as fixed-point levels: `NOISE_ONE` stands for 1.0, so
//! a level of 3000 is a noise value of 0.3. Each chunk is classified by its
//! vertical layer: bedrock-floored bottom, noise-filled middle, a surface
//! layer shaped by a height map, and open air on top.

use vstd::prelude::*;
use crate::coordinates::{chunk_coords, lemma_chunk_coords_inverse, CHUNK_SIZE, CHUNK_VOLUME, WORLD_MAX, WORLD_Y};
use crate::voxel::{cell_coords, Chunk, AIR, BEDROCK};

verus! {

/// The level that stands for a noise value of 1.0.
pub const NOISE_ONE: u16 = 10000;

/// Material code of surface grass.
pub const GRASS: u8 = 1;

/// Material code of dirt.
pub const DIRT: u8 = 2;

/// Material code of stone.
pub const STONE: u8 = 3;

/// Material code of iron ore.
pub const IRON: u8 = 4;

/// Material code of gold ore.
pub const GOLD: u8 = 5;

/// Material of a middle-layer cell for a noise level.
pub open spec fn mid_material_of(noise: int) -> u8 {
    if noise <= 3000 {
        STONE
    } else if noise <= 3300 {
        IRON
    } else if noise <= 4400 {
        STONE
    } else if noise <= 5500 {
        AIR
    } else if noise <= 7000 {
        STONE
    } else if noise <= 7300 {
        GOLD
    } else {
        STONE
    }
}

/// Material of a bottom-layer cell for a noise level: the middle-layer
/// bands, slightly narrower, with bedrock at both extremes.
pub open spec fn bottom_material_of(noise: int) -> u8 {
    if noise <= 100 {
        BEDROCK
    } else if noise <= 3000 {
        STONE
    } else if noise <= 3200 {
        IRON
    } else if noise <= 4400 {
        STONE
    } else if noise <= 5500 {
        AIR
    } else if noise <= 7000 {
        STONE
    } else if noise <= 7200 {
        GOLD
    } else if noise <= 9800 {
        STONE
    } else {
        BEDROCK
    }
}

/// Material deep below the surface: the noise level rounded to dirt or
/// stone.
pub open spec fn deep_material_of(noise: int) -> u8 {
    if noise * 2 >= NOISE_ONE {
        STONE
    } else {
        DIRT
    }
}

/// Surface height, in voxels from the bottom of the world, of a column whose
/// height-map level is `level`.
pub open spec fn surface_height(level: int) -> int {
    level * CHUNK_SIZE / NOISE_ONE as int + (WORLD_Y - 2) * CHUNK_SIZE
}

/// Material of a surface-layer cell at world height `world_y` in a column of
/// height `height`: air above, grass at the surface, dirt just below it and
/// noise-chosen rock from three voxels down.
pub open spec fn top_material_of(world_y: int, height: int, noise: int) -> u8 {
    if world_y > height {
        AIR
    } else if world_y == height {
        GRASS
    } else if world_y <= height - 3 {
        deep_material_of(noise)
    } else {
        DIRT
    }
}

/// The noise levels that shape one chunk: one height-map level per column
/// (row-major over x and z) and one volume level per cell (row-major over x,
/// y and z).
pub struct ChunkNoise {
    pub surface: Vec<u16>,
    pub volume: Vec<u16>,
}

impl ChunkNoise {
    pub open spec fn wf(&self) -> bool {
        &&& self.surface@.len() == CHUNK_SIZE * CHUNK_SIZE
        &&& self.volume@.len() == CHUNK_VOLUME
    }
}

/// Cell `k` of a middle-layer chunk.
pub open spec fn mid_cell(volume: Seq<u16>, k: int) -> u8 {
    mid_material_of(volume[k] as int)
}

/// Cell `k` of a bottom-layer chunk: bedrock on the lowest plane.
pub open spec fn bottom_cell(volume: Seq<u16>, k: int) -> u8 {
    if cell_coords(k).1 == 0 {
        BEDROCK
    } else {
        bottom_material_of(volume[k] as int)
    }
}

/// Cell `k` of a surface-layer chunk at chunk height `cy`.
pub open spec fn top_cell(cy: int, surface: Seq<u16>, volume: Seq<u16>, k: int) -> u8 {
    let (x, y, z) = cell_coords(k);
    top_material_of(cy * CHUNK_SIZE + y, surface_height(surface[x * 16 + z] as int), volume[k] as int)
}

/// Material grid of the chunk at row-major index `i`, given its noise.
pub open spec fn chunk_cells(i: int, surface: Seq<u16>, volume: Seq<u16>) -> Seq<u8> {
    let cy = chunk_coords(i).1;
    Seq::new(
        CHUNK_VOLUME as nat,
        |k: int|
            if cy == 0 {
                bottom_cell(volume, k)
            } else if cy >= WORLD_Y - 1 {
                AIR
            } else if cy >= WORLD_Y - 2 {
                top_cell(cy, surface, volume, k)
            } else {
                mid_cell(volume, k)
            },
    )
}

/// Material for a noise level in a middle layer.
pub fn mid_material(noise: u16) -> (r: u8)
    ensures
        r == mid_material_of(noise as int),
{
    if noise <= 3000 {
        STONE
    } else if noise <= 3300 {
        IRON
    } else if noise <= 4400 {
        STONE
    } else if noise <= 5500 {
        AIR
    } else if noise <= 7000 {
        STONE
    } else if noise <= 7300 {
        GOLD
    } else {
        STONE
    }
}

/// Material for a noise level in the bottom layer.
pub fn bottom_material(noise: u16) -> (r: u8)
    ensures
        r == bottom_material_of(noise as int),
{
    if noise <= 100 {
        BEDROCK
    } else if noise <= 3000 {
        STONE
    } else if noise <= 3200 {
        IRON
    } else if noise <= 4400 {
        STONE
    } else if noise <= 5500 {
        AIR
    } else if noise <= 7000 {
        STONE
    } else if noise <= 7200 {
        GOLD
    } else if noise <= 9800 {
        STONE
    } else {
        BEDROCK
    }
}

/// Every noise level gives a material of the documented sets: the middle
/// layer only air, stone, iron or gold, the bottom layer those or bedrock.
pub proof fn lemma_material_buckets(noise: int)
    ensures
        mid_material_of(noise) == AIR || mid_material_of(noise) == STONE || mid_material_of(noise)
            == IRON || mid_material_of(noise) == GOLD,
        bottom_material_of(noise) == AIR || bottom_material_of(noise) == STONE
            || bottom_material_of(noise) == IRON || bottom_material_of(noise) == GOLD
            || bottom_material_of(noise) == BEDROCK,
{
}

proof fn lemma_cell_coords_bounds(k: int)
    requires
        0 <= k < CHUNK_VOLUME,
    ensures
        0 <= cell_coords(k).0 < 16,
        0 <= cell_coords(k).1 < 16,
        0 <= cell_coords(k).2 < 16,
{
    assert(0 <= k / 256 < 16) by (nonlinear_arith)
        requires
            0 <= k < 4096,
    ;
}

/// A chunk of open air.
pub fn make_air_layer() -> (r: Chunk)
    ensures
        r.wf(),
        r.data@ == Seq::new(CHUNK_VOLUME as nat, |k: int| AIR),
        r.voxels@.len() == 0,
{
    let data: Vec<u8> = vec![AIR; CHUNK_VOLUME];
    assert(data@ =~= Seq::new(CHUNK_VOLUME as nat, |k: int| AIR));
    Chunk::from_data(data)
}

/// A middle-layer chunk: every cell classified from its volume noise.
pub fn make_mid_layer(volume: &Vec<u16>) -> (r: Chunk)
    requires
        volume@.len() == CHUNK_VOLUME,
    ensures
        r.wf(),
        r.data@ == Seq::new(CHUNK_VOLUME as nat, |k: int| mid_cell(volume@, k)),
        r.voxels@.len() == 0,
{
    let mut data: Vec<u8> = Vec::new();
    let mut k: usize = 0;
    while k < CHUNK_VOLUME
        invariant
            k <= CHUNK_VOLUME,
            volume@.len() == CHUNK_VOLUME,
            data@.len() == k,
            forall|j: int| 0 <= j < k ==> #[trigger] data@[j] == mid_cell(volume@, j),
        decreases CHUNK_VOLUME - k,
    {
        data.push(mid_material(volume[k]));
        k = k + 1;
    }
    assert(data@ =~= Seq::new(CHUNK_VOLUME as nat, |k: int| mid_cell(volume@, k)));
    Chunk::from_data(data)
}

/// A bottom-layer chunk: bedrock on its lowest plane, every other cell
/// classified from its volume noise.
pub fn make_bottom_layer(volume: &Vec<u16>) -> (r: Chunk)
    requires
        volume@.len() == CHUNK_VOLUME,
    ensures
        r.wf(),
        r.data@ == Seq::new(CHUNK_VOLUME as nat, |k: int| bottom_cell(volume@, k)),
        r.voxels@.len() == 0,
{
    let mut data: Vec<u8> = Vec::new();
    let mut k: usize = 0;
    while k < CHUNK_VOLUME
        invariant
            k <= CHUNK_VOLUME,
            volume@.len() == CHUNK_VOLUME,
            data@.len() == k,
            forall|j: int| 0 <= j < k ==> #[trigger] data@[j] == bottom_cell(volume@, j),
        decreases CHUNK_VOLUME - k,
    {
        let y = (k % 256) / 16;
        if y == 0 {
            data.push(BEDROCK);
        } else {
            data.push(bottom_material(volume[k]));
        }
        k = k + 1;
    }
    assert(data@ =~= Seq::new(CHUNK_VOLUME as nat, |k: int| bottom_cell(volume@, k)));
    Chunk::from_data(data)
}

/// A surface-layer chunk at chunk height `cy`: each column filled up to the
/// height its height-map level gives.
pub fn make_top_layer(cy: usize, surface: &Vec<u16>, volume: &Vec<u16>) -> (r: Chunk)
    requires
        cy < WORLD_Y,
        surface@.len() == CHUNK_SIZE * CHUNK_SIZE,
        volume@.len() == CHUNK_VOLUME,
    ensures
        r.wf(),
        r.data@ == Seq::new(CHUNK_VOLUME as nat, |k: int| top_cell(cy as int, surface@, volume@, k)),
        r.voxels@.len() == 0,
{
    let mut data: Vec<u8> = Vec::new();
    let mut k: usize = 0;
    while k < CHUNK_VOLUME
        invariant
            k <= CHUNK_VOLUME,
            cy < WORLD_Y,
            surface@.len() == CHUNK_SIZE * CHUNK_SIZE,
            volume@.len() == CHUNK_VOLUME,
            data@.len() == k,
            forall|j: int| 0 <= j < k ==> #[trigger] data@[j] == top_cell(cy as int, surface@, volume@, j),
        decreases CHUNK_VOLUME - k,
    {
        proof {
            lemma_cell_coords_bounds(k as int);
        }
        let x = k / 256;
        let y = (k % 256) / 16;
        let z = k % 16;
        let world_y = cy * CHUNK_SIZE + y;
        let height = (surface[x * 16 + z] as usize) * CHUNK_SIZE / (NOISE_ONE as usize) + (WORLD_Y
            - 2) * CHUNK_SIZE;
        let m = if world_y > height {
            AIR
        } else if world_y == height {
            GRASS
        } else if world_y + 3 <= height {
            if (volume[k] as usize) * 2 >= NOISE_ONE as usize {
                STONE
            } else {
                DIRT
            }
        } else {
            DIRT
        };
        data.push(m);
        k = k + 1;
    }
    assert(data@ =~= Seq::new(CHUNK_VOLUME as nat, |k: int| top_cell(cy as int, surface@, volume@, k)));
    Chunk::from_data(data)
}

/// `world` is the world generated from `noise`: one chunk per noise entry, in
/// row-major order, each holding the cells its layer gives and no boxes yet.
pub open spec fn generated(noise: Seq<ChunkNoise>, world: Seq<Chunk>) -> bool {
    &&& world.len() == noise.len()
    &&& forall|i: int|
        0 <= i < world.len() ==> {
            &&& #[trigger] world[i].wf()
            &&& world[i].voxels@.len() == 0
            &&& world[i].data@ == chunk_cells(i, noise[i].surface@, noise[i].volume@)
        }
}

/// Generates the world chunk by chunk in row-major order (x outer, y middle,
/// z inner), choosing each chunk's layer from its height: bottom, middle,
/// surface (the two chunks below the top) or air (the top).
pub fn make_world(noise: &Vec<ChunkNoise>) -> (r: Vec<Chunk>)
    requires
        noise@.len() == WORLD_MAX,
        forall|i: int| 0 <= i < noise@.len() ==> (#[trigger] noise@[i]).wf(),
    ensures
        generated(noise@, r@),
{
    let mut chunks: Vec<Chunk> = Vec::new();
    let mut i: usize = 0;
    while i < WORLD_MAX
        invariant
            i <= WORLD_MAX,
            noise@.len() == WORLD_MAX,
            forall|j: int| 0 <= j < noise@.len() ==> (#[trigger] noise@[j]).wf(),
            generated(noise@.take(i as int), chunks@),
        decreases WORLD_MAX - i,
    {
        proof {
            lemma_chunk_coords_inverse(i as int);
        }
        let cy = (i % (WORLD_Y * 10)) / 10;
        let n = &noise[i];
        let c = if cy == 0 {
            make_bottom_layer(&n.volume)
        } else if cy >= WORLD_Y - 1 {
            make_air_layer()
        } else if cy >= WORLD_Y - 2 {
            make_top_layer(cy, &n.surface, &n.volume)
        } else {
            make_mid_layer(&n.volume)
        };
        assert(c.data@ =~= chunk_cells(i as int, n.surface@, n.volume@));
        let ghost before = chunks@;
        chunks.push(c);
        proof {
            let t = noise@.take(i + 1);
            let tp = noise@.take(i as int);
            assert forall|j: int| 0 <= j < chunks@.len() implies {
                &&& #[trigger] chunks@[j].wf()
                &&& chunks@[j].voxels@.len() == 0
                &&& chunks@[j].data@ == chunk_cells(j, t[j].surface@, t[j].volume@)
            } by {
                if j < i {
                    assert(chunks@[j] == before[j]);
                    assert(tp[j] == t[j]);
                    assert(before[j].wf());
                }
            }
        }
        i = i + 1;
    }
    assert(noise@.take(WORLD_MAX as int) =~= noise@);
    chunks
}

/// Generation is deterministic: two worlds generated from the same noise
/// hold the same material in every cell.
pub proof fn lemma_generation_deterministic(
    noise: Seq<ChunkNoise>,
    w1: Seq<Chunk>,
    w2: Seq<Chunk>,
)
    requires
        generated(noise, w1),
        generated(noise, w2),
    ensures
        w1.len() == w2.len(),
        forall|i: int| 0 <= i < w1.len() ==> (#[trigger] w1[i]).data@ == w2[i].data@,
{
    assert forall|i: int| 0 <= i < w1.len() implies (#[trigger] w1[i]).data@ == w2[i].data@ by {
        assert(w1[i].wf());
        assert(w2[i].wf());
    }
}

} // verus!
