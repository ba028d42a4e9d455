//! The voxels of a chunk that a renderer draws: solid cells that lie on the
//! chunk's border or touch an empty cell, grouped by material.

use vstd::prelude::*;
use crate::geom::Pos3;
use crate::coordinates::{CHUNK_EXTENT, CHUNK_VOLUME, VOXEL_DIAMETER, VOXEL_HALFWIDTH, WORLD_MAX, index_to_world, lemma_chunk_coords_inverse};
use crate::voxel::{cell_coords, voxel_box, Chunk, AIR};

verus! {

/// Cell `k` lies on a face of the chunk.
pub open spec fn on_border(k: int) -> bool {
    let (x, y, z) = cell_coords(k);
    x == 0 || x == 15 || y == 0 || y == 15 || z == 0 || z == 15
}

/// Some face neighbour of cell `k` inside the chunk is empty.
pub open spec fn touches_air(data: Seq<u8>, k: int) -> bool {
    let (x, y, z) = cell_coords(k);
    ||| (x > 0 && data[k - 256] == AIR)
    ||| (x < 15 && data[k + 256] == AIR)
    ||| (y > 0 && data[k - 16] == AIR)
    ||| (y < 15 && data[k + 16] == AIR)
    ||| (z > 0 && data[k - 1] == AIR)
    ||| (z < 15 && data[k + 1] == AIR)
}

/// Cell `k` may be seen: it is on the border or next to an empty cell.
pub open spec fn exposed(data: Seq<u8>, k: int) -> bool {
    on_border(k) || touches_air(data, k)
}

/// Centers of the exposed cells of material `m` among the first `n` cells
/// of chunk `i`, in cell order.
pub open spec fn drawn(data: Seq<u8>, i: int, m: u8, n: int) -> Seq<Pos3>
    decreases n,
{
    if n <= 0 {
        Seq::empty()
    } else {
        let prev = drawn(data, i, m, n - 1);
        if data[n - 1] == m && exposed(data, n - 1) {
            prev.push(voxel_box(i, n - 1).center)
        } else {
            prev
        }
    }
}

proof fn lemma_cell_bounds(k: int)
    requires
        0 <= k < 4096,
    ensures
        0 <= cell_coords(k).0 < 16,
        0 <= cell_coords(k).1 < 16,
        0 <= cell_coords(k).2 < 16,
        k == cell_coords(k).0 * 256 + cell_coords(k).1 * 16 + cell_coords(k).2,
{
    vstd::arithmetic::div_mod::lemma_fundamental_div_mod(k, 256);
    vstd::arithmetic::div_mod::lemma_fundamental_div_mod(k % 256, 16);
    vstd::arithmetic::div_mod::lemma_fundamental_div_mod(k, 16);
    assert(0 <= k / 256 < 16) by (nonlinear_arith)
        requires
            0 <= k < 4096,
    ;
    assert(k % 16 == (k % 256) % 16) by {
        vstd::arithmetic::div_mod::lemma_fundamental_div_mod_converse(
            k,
            16,
            (k / 256) * 16 + (k % 256) / 16,
            (k % 256) % 16,
        );
    }
}

fn is_exposed(data: &Vec<u8>, k: usize) -> (r: bool)
    requires
        data@.len() == CHUNK_VOLUME,
        k < CHUNK_VOLUME,
    ensures
        r == exposed(data@, k as int),
{
    proof {
        lemma_cell_bounds(k as int);
    }
    let x = k / 256;
    let y = (k % 256) / 16;
    let z = k % 16;
    if x == 0 || x == 15 || y == 0 || y == 15 || z == 0 || z == 15 {
        return true;
    }
    data[k - 256] == AIR || data[k + 256] == AIR || data[k - 16] == AIR || data[k + 16] == AIR
        || data[k - 1] == AIR || data[k + 1] == AIR
}

/// Center of cell `k` of chunk `i`.
fn cell_center(i: usize, k: usize) -> (r: Pos3)
    requires
        i < WORLD_MAX,
        k < CHUNK_VOLUME,
    ensures
        r == voxel_box(i as int, k as int).center,
{
    proof {
        lemma_chunk_coords_inverse(i as int);
        lemma_cell_bounds(k as int);
    }
    let (cx, cy, cz) = index_to_world(i);
    Pos3 {
        x: cx as i64 * CHUNK_EXTENT + (k / 256) as i64 * VOXEL_DIAMETER + VOXEL_HALFWIDTH,
        y: cy as i64 * CHUNK_EXTENT + ((k % 256) / 16) as i64 * VOXEL_DIAMETER + VOXEL_HALFWIDTH,
        z: cz as i64 * CHUNK_EXTENT + (k % 16) as i64 * VOXEL_DIAMETER + VOXEL_HALFWIDTH,
    }
}

/// Centers of the exposed cells of material `m` in chunk `i`.
fn drawn_of(chunk: &Chunk, i: usize, m: u8) -> (r: Vec<Pos3>)
    requires
        chunk.wf(),
        i < WORLD_MAX,
    ensures
        r@ == drawn(chunk.data@, i as int, m, CHUNK_VOLUME as int),
{
    let mut out: Vec<Pos3> = Vec::new();
    let mut k: usize = 0;
    while k < CHUNK_VOLUME
        invariant
            chunk.wf(),
            i < WORLD_MAX,
            k <= CHUNK_VOLUME,
            out@ == drawn(chunk.data@, i as int, m, k as int),
        decreases CHUNK_VOLUME - k,
    {
        if chunk.data[k] == m && is_exposed(&chunk.data, k) {
            out.push(cell_center(i, k));
        }
        k = k + 1;
    }
    out
}

/// The instances a renderer draws for chunk `i`, one list per material:
/// list `m` holds, in cell order, the centers of the exposed cells of
/// material `m + 1`. Materials beyond `mat_count` are not drawn.
pub fn chunk_instances(chunk: &Chunk, i: usize, mat_count: usize) -> (r: Vec<Vec<Pos3>>)
    requires
        chunk.wf(),
        i < WORLD_MAX,
        mat_count < 256,
    ensures
        r@.len() == mat_count,
        forall|m: int|
            0 <= m < mat_count ==> (#[trigger] r@[m])@ == drawn(chunk.data@, i as int, (m + 1) as u8, CHUNK_VOLUME as int),
{
    let mut out: Vec<Vec<Pos3>> = Vec::new();
    let mut m: usize = 0;
    while m < mat_count
        invariant
            chunk.wf(),
            i < WORLD_MAX,
            mat_count < 256,
            m <= mat_count,
            out@.len() == m,
            forall|j: int|
                0 <= j < m ==> (#[trigger] out@[j])@ == drawn(chunk.data@, i as int, (j + 1) as u8, CHUNK_VOLUME as int),
        decreases mat_count - m,
    {
        out.push(drawn_of(chunk, i, (m + 1) as u8));
        m = m + 1;
    }
    out
}

} // verus!
