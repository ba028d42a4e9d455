//! The raw world save: each chunk's material grid, chunk after chunk, in
//! row-major cell order, with no header, length prefix or compression.

use vstd::prelude::*;
use crate::coordinates::CHUNK_VOLUME;
use crate::voxel::Chunk;

verus! {

/// `bytes` is the save of the chunks whose grids are `grids`.
pub open spec fn is_save_of(grids: Seq<Seq<u8>>, bytes: Seq<u8>) -> bool {
    &&& bytes.len() == grids.len() * CHUNK_VOLUME
    &&& forall|j: int, t: int|
        0 <= j < grids.len() && 0 <= t < CHUNK_VOLUME ==> #[trigger] bytes[j * CHUNK_VOLUME + t]
            == grids[j][t]
}

/// `grids` are the chunk grids read from `bytes`: one per whole window of
/// `CHUNK_VOLUME` bytes; a trailing partial window is ignored.
pub open spec fn is_load_of(bytes: Seq<u8>, grids: Seq<Seq<u8>>) -> bool {
    &&& grids.len() == bytes.len() as int / CHUNK_VOLUME as int
    &&& forall|j: int| 0 <= j < grids.len() ==> (#[trigger] grids[j]).len() == CHUNK_VOLUME
    &&& forall|j: int, t: int|
        0 <= j < grids.len() && 0 <= t < CHUNK_VOLUME ==> #[trigger] grids[j][t] == bytes[j
            * CHUNK_VOLUME + t]
}

/// The material grids of a list of chunks.
pub open spec fn grids_of(chunks: Seq<Chunk>) -> Seq<Seq<u8>> {
    Seq::new(chunks.len(), |j: int| chunks[j].data@)
}

proof fn lemma_window_bounds(j: int, t: int, n: int)
    requires
        0 <= j < n,
        0 <= t < 4096,
    ensures
        0 <= j * 4096 + t < n * 4096,
        j * 4096 + t >= j * 4096,
{
    assert(j * 4096 + t < n * 4096) by (nonlinear_arith)
        requires
            j < n,
            t < 4096,
    ;
}

/// The bytes of the save of `chunks`.
pub fn save(chunks: &Vec<Chunk>) -> (r: Vec<u8>)
    requires
        chunks@.len() * CHUNK_VOLUME <= usize::MAX,
        forall|j: int| 0 <= j < chunks@.len() ==> (#[trigger] chunks@[j]).wf(),
    ensures
        is_save_of(grids_of(chunks@), r@),
{
    let mut out: Vec<u8> = Vec::new();
    let mut j: usize = 0;
    while j < chunks.len()
        invariant
            j <= chunks@.len(),
            chunks@.len() * CHUNK_VOLUME <= usize::MAX,
            forall|jj: int| 0 <= jj < chunks@.len() ==> (#[trigger] chunks@[jj]).wf(),
            out@.len() == j * CHUNK_VOLUME,
            forall|jj: int, t: int|
                0 <= jj < j && 0 <= t < CHUNK_VOLUME ==> #[trigger] out@[jj * CHUNK_VOLUME + t]
                    == chunks@[jj].data@[t],
        decreases chunks@.len() - j,
    {
        let chunk = &chunks[j];
        assert(chunk.wf());
        let ghost start = out@;
        let mut t: usize = 0;
        while t < CHUNK_VOLUME
            invariant
                t <= CHUNK_VOLUME,
                chunk.data@.len() == CHUNK_VOLUME,
                out@.len() == j * CHUNK_VOLUME + t,
                start.len() == j * CHUNK_VOLUME,
                forall|i: int| 0 <= i < start.len() ==> #[trigger] out@[i] == start[i],
                forall|tt: int| 0 <= tt < t ==> #[trigger] out@[j * CHUNK_VOLUME + tt] == chunk.data@[tt],
            decreases CHUNK_VOLUME - t,
        {
            out.push(chunk.data[t]);
            t = t + 1;
        }
        proof {
            assert forall|jj: int, tt: int|
                0 <= jj < j + 1 && 0 <= tt < CHUNK_VOLUME implies #[trigger] out@[jj * CHUNK_VOLUME
                + tt] == chunks@[jj].data@[tt] by {
                lemma_window_bounds(jj, tt, j + 1);
                if jj < j {
                    lemma_window_bounds(jj, tt, j as int);
                    assert(out@[jj * CHUNK_VOLUME + tt] == start[jj * CHUNK_VOLUME + tt]);
                }
            }
            assert((j + 1) * CHUNK_VOLUME == j * CHUNK_VOLUME + CHUNK_VOLUME) by (nonlinear_arith);
        }
        j = j + 1;
    }
    proof {
        assert forall|jj: int, tt: int|
            0 <= jj < grids_of(chunks@).len() && 0 <= tt < CHUNK_VOLUME implies #[trigger] out@[jj
            * CHUNK_VOLUME + tt] == grids_of(chunks@)[jj][tt] by {}
    }
    out
}

/// The chunks stored in `buffer`, with no boxes generated.
pub fn load(buffer: &Vec<u8>) -> (r: Vec<Chunk>)
    ensures
        is_load_of(buffer@, grids_of(r@)),
        forall|j: int| 0 <= j < r@.len() ==> (#[trigger] r@[j]).wf() && r@[j].voxels@.len() == 0,
{
    let len = buffer.len();
    let n = len / CHUNK_VOLUME;
    let mut chunks: Vec<Chunk> = Vec::new();
    let mut j: usize = 0;
    while j < n
        invariant
            j <= n,
            n == buffer@.len() as int / CHUNK_VOLUME as int,
            len == buffer@.len(),
            chunks@.len() == j,
            forall|jj: int| 0 <= jj < j ==> (#[trigger] chunks@[jj]).wf() && chunks@[jj].voxels@.len() == 0,
            forall|jj: int, t: int|
                0 <= jj < j && 0 <= t < CHUNK_VOLUME ==> #[trigger] chunks@[jj].data@[t] == buffer@[jj
                    * CHUNK_VOLUME + t],
        decreases n - j,
    {
        proof {
            let l = len as int;
            vstd::arithmetic::div_mod::lemma_fundamental_div_mod(l, 4096);
            assert(j * 4096 + 4096 <= l) by (nonlinear_arith)
                requires
                    j < n,
                    n == l / 4096,
                    l == 4096 * (l / 4096) + l % 4096,
                    0 <= l % 4096,
            ;
        }
        let base = j * CHUNK_VOLUME;
        let mut data: Vec<u8> = Vec::new();
        let mut t: usize = 0;
        while t < CHUNK_VOLUME
            invariant
                t <= CHUNK_VOLUME,
                base + CHUNK_VOLUME <= buffer@.len(),
                len == buffer@.len(),
                data@.len() == t,
                forall|tt: int| 0 <= tt < t ==> #[trigger] data@[tt] == buffer@[base + tt],
            decreases CHUNK_VOLUME - t,
        {
            data.push(buffer[base + t]);
            t = t + 1;
        }
        chunks.push(Chunk::from_data(data));
        j = j + 1;
    }
    proof {
        let g = grids_of(chunks@);
        assert forall|jj: int, t: int| 0 <= jj < g.len() && 0 <= t < CHUNK_VOLUME implies #[trigger] g[jj][t]
            == buffer@[jj * CHUNK_VOLUME + t] by {}
        assert forall|jj: int| 0 <= jj < g.len() implies (#[trigger] g[jj]).len() == CHUNK_VOLUME by {
            assert(chunks@[jj].wf());
        }
    }
    chunks
}

/// Loading a save gives back the saved grids exactly.
pub proof fn lemma_save_load_round_trip(grids: Seq<Seq<u8>>, bytes: Seq<u8>, loaded: Seq<Seq<u8>>)
    requires
        forall|j: int| 0 <= j < grids.len() ==> (#[trigger] grids[j]).len() == CHUNK_VOLUME,
        is_save_of(grids, bytes),
        is_load_of(bytes, loaded),
    ensures
        loaded == grids,
{
    vstd::arithmetic::div_mod::lemma_div_multiples_vanish(grids.len() as int, CHUNK_VOLUME as int);
    assert(loaded.len() == grids.len());
    assert forall|j: int| 0 <= j < grids.len() implies #[trigger] loaded[j] == grids[j] by {
        assert forall|t: int| 0 <= t < CHUNK_VOLUME implies #[trigger] loaded[j][t] == grids[j][t] by {
            assert(loaded[j][t] == bytes[j * CHUNK_VOLUME + t]);
        }
        assert(loaded[j] =~= grids[j]);
    }
    assert(loaded =~= grids);
}

} // verus!
