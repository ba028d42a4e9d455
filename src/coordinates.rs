//! Mapping between world-space positions, chunks and the voxels inside them.
//!
//! The world is a dense box of `WORLD_X * WORLD_Y * WORLD_Z` chunks, each a
//! cube of `CHUNK_SIZE` voxels a side, flattened in row-major order
//! (x outer, y middle, z inner).

use vstd::prelude::*;
use vstd::arithmetic::div_mod::{lemma_fundamental_div_mod, lemma_fundamental_div_mod_converse};
use crate::geom::{Pos3, UNIT};

verus! {

/// Halfwidth of a voxel, in fixed-point steps.
pub const VOXEL_HALFWIDTH: i64 = UNIT;

/// Edge length of a voxel, in fixed-point steps.
pub const VOXEL_DIAMETER: i64 = 2 * VOXEL_HALFWIDTH;

/// Voxels along each edge of a chunk.
pub const CHUNK_SIZE: usize = 16;

/// Voxels in one chunk.
pub const CHUNK_VOLUME: usize = CHUNK_SIZE * CHUNK_SIZE * CHUNK_SIZE;

/// Edge length of a chunk, in fixed-point steps.
pub const CHUNK_EXTENT: i64 = 32 * UNIT;

/// Chunks along the x axis of the world.
pub const WORLD_X: usize = 10;

/// Chunks along the y (vertical) axis of the world.
pub const WORLD_Y: usize = 5;

/// Chunks along the z axis of the world.
pub const WORLD_Z: usize = 10;

/// Number of chunks in the world.
pub const WORLD_MAX: usize = WORLD_X * WORLD_Y * WORLD_Z;

/// Row-major index of the chunk at chunk coordinates `(x, y, z)`.
pub open spec fn chunk_index(x: int, y: int, z: int) -> int {
    x * (WORLD_Y * WORLD_Z) + y * WORLD_Z + z
}

/// Row-major index of a voxel at local coordinates `(x, y, z)` in a chunk.
pub open spec fn voxel_index(x: int, y: int, z: int) -> int {
    x * (CHUNK_SIZE * CHUNK_SIZE) + y * CHUNK_SIZE + z
}

/// Chunk coordinates of the chunk with row-major index `i`.
pub open spec fn chunk_coords(i: int) -> (int, int, int) {
    let yz = (WORLD_Y * WORLD_Z) as int;
    (i / yz, (i % yz) / WORLD_Z as int, i % WORLD_Z as int)
}

/// Global voxel cell along one axis of a world that is `n` chunks long,
/// saturated into the world: positions before the world map to the first
/// cell, positions past it to the last.
pub open spec fn cell_of(c: int, n: int) -> int {
    if c < 0 {
        0
    } else if c / VOXEL_DIAMETER as int >= n * CHUNK_SIZE {
        n * CHUNK_SIZE - 1
    } else {
        c / VOXEL_DIAMETER as int
    }
}

/// The chunk index and local voxel coordinates of the cell holding `p`.
pub open spec fn locate(p: Pos3) -> (int, (int, int, int)) {
    let cx = cell_of(p.x as int, WORLD_X as int);
    let cy = cell_of(p.y as int, WORLD_Y as int);
    let cz = cell_of(p.z as int, WORLD_Z as int);
    (
        chunk_index(cx / CHUNK_SIZE as int, cy / CHUNK_SIZE as int, cz / CHUNK_SIZE as int),
        (cx % CHUNK_SIZE as int, cy % CHUNK_SIZE as int, cz % CHUNK_SIZE as int),
    )
}

/// `p` lies inside the world box.
pub open spec fn in_world(p: Pos3) -> bool {
    &&& 0 <= p.x < WORLD_X * CHUNK_EXTENT
    &&& 0 <= p.y < WORLD_Y * CHUNK_EXTENT
    &&& 0 <= p.z < WORLD_Z * CHUNK_EXTENT
}

/// `p` lies inside the chunk at chunk coordinates `(x, y, z)`.
pub open spec fn in_chunk(p: Pos3, x: int, y: int, z: int) -> bool {
    &&& x * CHUNK_EXTENT <= p.x < (x + 1) * CHUNK_EXTENT
    &&& y * CHUNK_EXTENT <= p.y < (y + 1) * CHUNK_EXTENT
    &&& z * CHUNK_EXTENT <= p.z < (z + 1) * CHUNK_EXTENT
}

fn axis_cell(c: i64, n: usize) -> (r: usize)
    requires
        1 <= n <= 16,
    ensures
        r == cell_of(c as int, n as int),
        r < n * CHUNK_SIZE,
{
    if c < 0 {
        return 0;
    }
    let cell = (c as u64) / (VOXEL_DIAMETER as u64);
    if cell >= (n * CHUNK_SIZE) as u64 {
        n * CHUNK_SIZE - 1
    } else {
        cell as usize
    }
}

/// Locates the voxel cell that holds a world-space position: the row-major
/// index of its chunk and its coordinates inside that chunk. Positions
/// outside the world saturate to the nearest cell on the world's border, so
/// the result always names an existing chunk and voxel.
pub fn world_to_chunk(coords: Pos3) -> (r: (usize, (usize, usize, usize)))
    ensures
        r.0 == locate(coords).0,
        r.1.0 == locate(coords).1.0,
        r.1.1 == locate(coords).1.1,
        r.1.2 == locate(coords).1.2,
        r.0 < WORLD_MAX,
        r.1.0 < CHUNK_SIZE && r.1.1 < CHUNK_SIZE && r.1.2 < CHUNK_SIZE,
{
    let cx = axis_cell(coords.x, WORLD_X);
    let cy = axis_cell(coords.y, WORLD_Y);
    let cz = axis_cell(coords.z, WORLD_Z);
    let wx = cx / CHUNK_SIZE;
    let wy = cy / CHUNK_SIZE;
    let wz = cz / CHUNK_SIZE;
    assert(wx < WORLD_X && wy < WORLD_Y && wz < WORLD_Z);
    let i = wx * (WORLD_Y * WORLD_Z) + wy * WORLD_Z + wz;
    (i, (cx % CHUNK_SIZE, cy % CHUNK_SIZE, cz % CHUNK_SIZE))
}

/// Chunk coordinates of the chunk with row-major index `index`; the exact
/// inverse of the flattening that `world_to_chunk` uses.
pub fn index_to_world(index: usize) -> (r: (usize, usize, usize))
    ensures
        r.0 == chunk_coords(index as int).0,
        r.1 == chunk_coords(index as int).1,
        r.2 == chunk_coords(index as int).2,
{
    let x = index / (WORLD_Z * WORLD_Y);
    let y = (index % (WORLD_Z * WORLD_Y)) / WORLD_Z;
    let z = index % WORLD_Z;
    (x, y, z)
}

/// Flattening chunk coordinates and recovering them are inverse to each other.
pub proof fn lemma_chunk_index_inverse(x: int, y: int, z: int)
    requires
        0 <= x < WORLD_X,
        0 <= y < WORLD_Y,
        0 <= z < WORLD_Z,
    ensures
        chunk_coords(chunk_index(x, y, z)) == (x, y, z),
        0 <= chunk_index(x, y, z) < WORLD_MAX,
{
    let i = chunk_index(x, y, z);
    lemma_fundamental_div_mod_converse(i, 50, x, y * 10 + z);
    lemma_fundamental_div_mod_converse(y * 10 + z, 10, y, z);
    lemma_fundamental_div_mod_converse(i, 10, x * 5 + y, z);
}

/// Recovering the chunk coordinates of an index and flattening them again
/// gives back the index.
pub proof fn lemma_chunk_coords_inverse(i: int)
    requires
        0 <= i < WORLD_MAX,
    ensures
        chunk_index(chunk_coords(i).0, chunk_coords(i).1, chunk_coords(i).2) == i,
        0 <= chunk_coords(i).0 < WORLD_X,
        0 <= chunk_coords(i).1 < WORLD_Y,
        0 <= chunk_coords(i).2 < WORLD_Z,
{
    lemma_fundamental_div_mod(i, 50);
    lemma_fundamental_div_mod(i % 50, 10);
    lemma_fundamental_div_mod(i, 10);
    assert(i % 50 == (i % 50 / 10) * 10 + i % 10) by {
        lemma_fundamental_div_mod_converse(i, 10, (i / 50) * 5 + (i % 50) / 10, (i % 50) % 10);
    }
}

proof fn lemma_axis_chunk(c: int, n: int, k: int)
    requires
        1 <= n <= 16,
        0 <= k < n,
        k * CHUNK_EXTENT <= c < (k + 1) * CHUNK_EXTENT,
    ensures
        cell_of(c, n) / CHUNK_SIZE as int == k,
{
    let cell = c / 2000;
    lemma_fundamental_div_mod(c, 2000);
    assert(16 * k <= cell < 16 * k + 16) by (nonlinear_arith)
        requires
            cell == c / 2000,
            c == 2000 * cell + c % 2000,
            0 <= c % 2000 < 2000,
            k * 32000 <= c < (k + 1) * 32000,
    ;
    assert(cell < n * 16) by (nonlinear_arith)
        requires
            cell < 16 * k + 16,
            k < n,
    ;
    lemma_fundamental_div_mod_converse(cell, 16, k, cell - 16 * k);
}

/// Round trip through the chunk grid: the chunk found for a point inside the
/// world, turned back into chunk coordinates, is a chunk that contains the
/// point, and every point inside that chunk maps to the same chunk index.
pub proof fn lemma_world_to_chunk_round_trip(p: Pos3, q: Pos3)
    requires
        in_world(p),
    ensures
        in_chunk(
            p,
            chunk_coords(locate(p).0).0,
            chunk_coords(locate(p).0).1,
            chunk_coords(locate(p).0).2,
        ),
        in_chunk(
            q,
            chunk_coords(locate(p).0).0,
            chunk_coords(locate(p).0).1,
            chunk_coords(locate(p).0).2,
        ) ==> locate(q).0 == locate(p).0,
{
    let kx = p.x as int / CHUNK_EXTENT as int;
    let ky = p.y as int / CHUNK_EXTENT as int;
    let kz = p.z as int / CHUNK_EXTENT as int;
    lemma_fundamental_div_mod(p.x as int, 32000);
    lemma_fundamental_div_mod(p.y as int, 32000);
    lemma_fundamental_div_mod(p.z as int, 32000);
    assert(0 <= kx < WORLD_X && 0 <= ky < WORLD_Y && 0 <= kz < WORLD_Z) by (nonlinear_arith)
        requires
            p.x == 32000 * kx + p.x % 32000,
            p.y == 32000 * ky + p.y % 32000,
            p.z == 32000 * kz + p.z % 32000,
            0 <= p.x % 32000 < 32000,
            0 <= p.y % 32000 < 32000,
            0 <= p.z % 32000 < 32000,
            0 <= p.x < 320000,
            0 <= p.y < 160000,
            0 <= p.z < 320000,
    ;
    assert(in_chunk(p, kx, ky, kz)) by (nonlinear_arith)
        requires
            p.x == 32000 * kx + p.x % 32000,
            p.y == 32000 * ky + p.y % 32000,
            p.z == 32000 * kz + p.z % 32000,
            0 <= p.x % 32000 < 32000,
            0 <= p.y % 32000 < 32000,
            0 <= p.z % 32000 < 32000,
    ;
    lemma_axis_chunk(p.x as int, WORLD_X as int, kx);
    lemma_axis_chunk(p.y as int, WORLD_Y as int, ky);
    lemma_axis_chunk(p.z as int, WORLD_Z as int, kz);
    lemma_chunk_index_inverse(kx, ky, kz);
    if in_chunk(q, kx, ky, kz) {
        lemma_axis_chunk(q.x as int, WORLD_X as int, kx);
        lemma_axis_chunk(q.y as int, WORLD_Y as int, ky);
        lemma_axis_chunk(q.z as int, WORLD_Z as int, kz);
    }
}

} // verus!
