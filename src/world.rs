//! Operations on the whole world: the per-tick collision of the player
//! against the chunk it stands in, probing for solid voxels ahead of a
//! move, and mining and placing voxels along a line of sight.

use vstd::prelude::*;
use crate::geom::{BBox, Pos3, Vec3, COORD_LIMIT};
use crate::coordinates::{locate, voxel_index, world_to_chunk, WORLD_MAX};
use crate::voxel::{voxel_boxes, Chunk, AIR, BEDROCK};
use crate::collision::{tick_result, update, Contacts};
use crate::player::{after_contacts, Player};
use crate::world_gen::{DIRT, GRASS};

verus! {

/// The sound a voxel makes when mined or placed.
#[derive(Clone, Copy, Debug, PartialEq, Eq, Structural)]
pub enum SoundCue {
    Dirt,
    Stone,
}

/// Grass and dirt sound like dirt, everything else like stone.
pub fn sound_for(material: u8) -> (r: SoundCue)
    ensures
        r == (if material == GRASS || material == DIRT {
            SoundCue::Dirt
        } else {
            SoundCue::Stone
        }),
{
    if material == GRASS || material == DIRT {
        SoundCue::Dirt
    } else {
        SoundCue::Stone
    }
}

/// Every chunk of the list is well formed.
pub open spec fn chunks_wf(chunks: Seq<Chunk>) -> bool {
    forall|i: int| 0 <= i < chunks.len() ==> (#[trigger] chunks[i]).wf()
}

/// The material of the cell holding `p`, when its chunk is in the list.
pub open spec fn material_at(chunks: Seq<Chunk>, p: Pos3) -> Option<u8> {
    let (i, (x, y, z)) = locate(p);
    if 0 <= i < chunks.len() {
        Some(chunks[i].data@[voxel_index(x, y, z)])
    } else {
        None
    }
}

/// The cell holding `p` is in a loaded chunk and is solid.
pub open spec fn solid_at(chunks: Seq<Chunk>, p: Pos3) -> bool {
    material_at(chunks, p) matches Some(m) && m != AIR
}

/// The index of the chunk the collision tick works on: the one holding the
/// player's center, clamped into the list.
pub open spec fn current_chunk(chunks: Seq<Chunk>, p: Pos3) -> int {
    if locate(p).0 < chunks.len() {
        locate(p).0
    } else {
        chunks.len() - 1
    }
}

fn material_of(chunks: &Vec<Chunk>, p: Pos3) -> (r: Option<(usize, usize, usize, usize, u8)>)
    requires
        chunks_wf(chunks@),
    ensures
        r.is_some() == material_at(chunks@, p).is_some(),
        r matches Some(t) ==> {
            &&& t.0 == locate(p).0
            &&& t.1 == locate(p).1.0 && t.2 == locate(p).1.1 && t.3 == locate(p).1.2
            &&& t.1 < 16 && t.2 < 16 && t.3 < 16
            &&& Some(t.4) == material_at(chunks@, p)
        },
{
    let (i, (x, y, z)) = world_to_chunk(p);
    if i < chunks.len() {
        assert(chunks@[i as int].wf());
        Some((i, x, y, z, chunks[i].get(x, y, z)))
    } else {
        None
    }
}

/// One collision tick of the player against the chunk holding its center
/// (clamped into the list): that chunk's boxes are generated if they were
/// not, the player's hitbox is pushed out of its solid cells, and the
/// blocked flags are set from the resolved contacts. Returns the index of
/// the chunk used; with no chunks, nothing happens and `None` is returned.
pub fn collide_player(chunks: &mut Vec<Chunk>, player: &mut Player, contacts: &mut Contacts) -> (r:
    Option<usize>)
    requires
        chunks_wf(old(chunks)@),
        old(player).wf(),
    ensures
        chunks_wf(final(chunks)@),
        final(player).wf(),
        final(chunks)@.len() == old(chunks)@.len(),
        r.is_none() == (old(chunks)@.len() == 0),
        r.is_none() ==> *final(player) == *old(player) && final(chunks)@ == old(chunks)@,
        r matches Some(i) ==> i == current_chunk(old(chunks)@, old(player).hitbox.center),
        r matches Some(i) ==> forall|j: int|
            0 <= j < old(chunks)@.len() && j != i ==> #[trigger] final(chunks)@[j] == old(chunks)@[j],
        r matches Some(i) ==> final(chunks)@[i as int].data@ == old(chunks)@[i as int].data@,
        r matches Some(i) ==> (old(chunks)@[i as int].voxels@.len() == 0
            ==> final(chunks)@[i as int].voxels@ == voxel_boxes(i as int)),
        r matches Some(i) ==> (old(chunks)@[i as int].voxels@.len() > 0
            ==> final(chunks)@[i as int].voxels@ == old(chunks)@[i as int].voxels@),
        r matches Some(i) ==> tick_result(
            final(chunks)@[i as int],
            old(player).hitbox,
            final(player).hitbox,
            final(contacts).block_player@,
        ),
        r is Some ==> *final(player) == after_contacts(
            Player { hitbox: final(player).hitbox, ..*old(player) },
            final(contacts).block_player@,
        ),
{
    let len = chunks.len();
    if len == 0 {
        return None;
    }
    let (ci, _) = world_to_chunk(player.hitbox.center);
    let i = if ci < len {
        ci
    } else {
        len - 1
    };
    prepare_chunk(chunks, i);
    let mut hitbox = player.hitbox;
    let ghost h0 = hitbox;
    update(&chunks[i], &mut hitbox, contacts);
    set_hitbox(player, hitbox);
    player.process_contacts(&contacts.block_player);
    assert(player.hitbox == hitbox);
    Some(i)
}

fn set_hitbox(player: &mut Player, hitbox: BBox)
    requires
        old(player).wf(),
        hitbox.wf(),
    ensures
        final(player).wf(),
        *final(player) == (Player { hitbox, ..*old(player) }),
{
    player.hitbox = hitbox;
}

/// Generates the boxes of chunk `i` if it has none yet.
fn prepare_chunk(chunks: &mut Vec<Chunk>, i: usize)
    requires
        chunks_wf(old(chunks)@),
        i < old(chunks)@.len(),
        i < WORLD_MAX,
    ensures
        chunks_wf(final(chunks)@),
        final(chunks)@.len() == old(chunks)@.len(),
        forall|j: int|
            0 <= j < old(chunks)@.len() && j != i ==> #[trigger] final(chunks)@[j] == old(chunks)@[j],
        final(chunks)@[i as int].data@ == old(chunks)@[i as int].data@,
        old(chunks)@[i as int].voxels@.len() == 0
            ==> final(chunks)@[i as int].voxels@ == voxel_boxes(i as int),
        old(chunks)@[i as int].voxels@.len() > 0
            ==> final(chunks)@[i as int].voxels@ == old(chunks)@[i as int].voxels@,
{
    assert(chunks@[i as int].wf());
    let ghost before = chunks@;
    chunks[i].create_bboxes(i);
    assert forall|j: int| 0 <= j < chunks@.len() implies (#[trigger] chunks@[j]).wf() by {
        if j != i {
            assert(chunks@[j] == before[j]);
        }
    }
}

/// Whether the voxel just past the hitbox's face, after a step of `x`
/// along the x axis, is solid.
pub fn collide_x(hitbox: BBox, chunks: &Vec<Chunk>, x: i64) -> (r: bool)
    requires
        hitbox.wf(),
        chunks_wf(chunks@),
        -COORD_LIMIT <= x <= COORD_LIMIT,
    ensures
        r == solid_at(chunks@, Vec3 { x: probe(hitbox.center.x, hitbox.halfwidth, x), ..hitbox.center }),
{
    let p = Vec3 { x: probe_exec(hitbox.center.x, hitbox.halfwidth, x), ..hitbox.center };
    solid(chunks, p)
}

/// Whether the voxel just past the hitbox's face, after a step of `y`
/// along the y axis, is solid.
pub fn collide_y(hitbox: BBox, chunks: &Vec<Chunk>, y: i64) -> (r: bool)
    requires
        hitbox.wf(),
        chunks_wf(chunks@),
        -COORD_LIMIT <= y <= COORD_LIMIT,
    ensures
        r == solid_at(chunks@, Vec3 { y: probe(hitbox.center.y, hitbox.halfwidth, y), ..hitbox.center }),
{
    let p = Vec3 { y: probe_exec(hitbox.center.y, hitbox.halfwidth, y), ..hitbox.center };
    solid(chunks, p)
}

/// Whether the voxel just past the hitbox's face, after a step of `z`
/// along the z axis, is solid.
pub fn collide_z(hitbox: BBox, chunks: &Vec<Chunk>, z: i64) -> (r: bool)
    requires
        hitbox.wf(),
        chunks_wf(chunks@),
        -COORD_LIMIT <= z <= COORD_LIMIT,
    ensures
        r == solid_at(chunks@, Vec3 { z: probe(hitbox.center.z, hitbox.halfwidth, z), ..hitbox.center }),
{
    let p = Vec3 { z: probe_exec(hitbox.center.z, hitbox.halfwidth, z), ..hitbox.center };
    solid(chunks, p)
}

/// The coordinate just past the face of a box centered at `c` with
/// halfwidth `h` that a step of `d` moves toward.
pub open spec fn probe(c: i64, h: i64, d: i64) -> i64 {
    if d > 0 {
        (c + h + d) as i64
    } else if d < 0 {
        (c - h + d) as i64
    } else {
        (c + d) as i64
    }
}

fn probe_exec(c: i64, h: i64, d: i64) -> (r: i64)
    requires
        -COORD_LIMIT <= c <= COORD_LIMIT,
        0 < h <= COORD_LIMIT,
        -COORD_LIMIT <= d <= COORD_LIMIT,
    ensures
        r == probe(c, h, d),
{
    if d > 0 {
        c + h + d
    } else if d < 0 {
        c - h + d
    } else {
        c
    }
}

fn solid(chunks: &Vec<Chunk>, p: Pos3) -> (r: bool)
    requires
        chunks_wf(chunks@),
    ensures
        r == solid_at(chunks@, p),
{
    match material_of(chunks, p) {
        Some(t) => t.4 != AIR,
        None => false,
    }
}

/// The first probe, from position `k` on, that meets a solid cell which is
/// not bedrock. The search stops without a hit at bedrock or at a probe
/// outside the loaded chunks.
pub open spec fn mine_target(chunks: Seq<Chunk>, probes: Seq<Pos3>, k: int) -> Option<int>
    decreases probes.len() - k,
{
    if k < 0 || k >= probes.len() {
        None
    } else {
        match material_at(chunks, probes[k]) {
            None => None,
            Some(m) => if m == BEDROCK {
                None
            } else if m != AIR {
                Some(k)
            } else {
                mine_target(chunks, probes, k + 1)
            },
        }
    }
}

/// The first probe, from position `k` on (and never the first of all),
/// whose cell is solid. The search stops without a hit at a probe, or a
/// probe before it, outside the loaded chunks.
pub open spec fn place_target(chunks: Seq<Chunk>, probes: Seq<Pos3>, k: int) -> Option<int>
    decreases probes.len() - k,
{
    if k < 1 || k >= probes.len() {
        None
    } else if material_at(chunks, probes[k]).is_none() || material_at(chunks, probes[k - 1]).is_none() {
        None
    } else if solid_at(chunks, probes[k]) {
        Some(k)
    } else {
        place_target(chunks, probes, k + 1)
    }
}

/// `after` is `before` with material `m` written into the cell holding `p`.
pub open spec fn written(before: Seq<Chunk>, after: Seq<Chunk>, p: Pos3, m: u8) -> bool {
    let (i, (x, y, z)) = locate(p);
    &&& after.len() == before.len()
    &&& 0 <= i < before.len()
    &&& forall|j: int| 0 <= j < before.len() && j != i ==> #[trigger] after[j] == before[j]
    &&& after[i].data@ == before[i].data@.update(voxel_index(x, y, z), m)
    &&& after[i].voxels@ == before[i].voxels@
}

fn write_cell(chunks: &mut Vec<Chunk>, i: usize, x: usize, y: usize, z: usize, m: u8)
    requires
        chunks_wf(old(chunks)@),
        i < old(chunks)@.len(),
        x < 16 && y < 16 && z < 16,
    ensures
        chunks_wf(final(chunks)@),
        final(chunks)@.len() == old(chunks)@.len(),
        forall|j: int| 0 <= j < old(chunks)@.len() && j != i ==> #[trigger] final(chunks)@[j] == old(chunks)@[j],
        final(chunks)@[i as int].data@ == old(chunks)@[i as int].data@.update(voxel_index(x as int, y as int, z as int), m),
        final(chunks)@[i as int].voxels@ == old(chunks)@[i as int].voxels@,
{
    assert(chunks@[i as int].wf());
    let ghost before = chunks@;
    chunks[i].set(x, y, z, m);
    assert forall|j: int| 0 <= j < chunks@.len() implies (#[trigger] chunks@[j]).wf() by {
        if j != i {
            assert(chunks@[j] == before[j]);
        }
    }
}

/// Mines the first voxel along the line of sight: walks the probe points
/// in order, stops at bedrock or outside the loaded chunks, and clears the
/// first solid cell met. Returns the index of its chunk and the material
/// it held.
pub fn mine(chunks: &mut Vec<Chunk>, probes: &Vec<Pos3>) -> (r: Option<(usize, u8)>)
    requires
        chunks_wf(old(chunks)@),
    ensures
        chunks_wf(final(chunks)@),
        mine_target(old(chunks)@, probes@, 0) is None ==> r is None && final(chunks)@ == old(chunks)@,
        mine_target(old(chunks)@, probes@, 0) matches Some(k) ==> {
            &&& r == Some((locate(probes@[k]).0 as usize, material_at(old(chunks)@, probes@[k])->0))
            &&& written(old(chunks)@, final(chunks)@, probes@[k], AIR)
        },
{
    let n = probes.len();
    let mut k: usize = 0;
    while k < n
        invariant
            k <= n,
            n == probes@.len(),
            chunks_wf(chunks@),
            chunks@ == old(chunks)@,
            mine_target(chunks@, probes@, 0) == mine_target(chunks@, probes@, k as int),
        decreases n - k,
    {
        match material_of(chunks, probes[k]) {
            None => {
                return None;
            },
            Some((i, x, y, z, m)) => {
                if m == BEDROCK {
                    return None;
                }
                if m != AIR {
                    write_cell(chunks, i, x, y, z, AIR);
                    return Some((i, m));
                }
            },
        }
        k = k + 1;
    }
    None
}

/// Places material `selected` in front of the first solid voxel along the
/// line of sight: walks the probe points in order from the second, and at
/// the first one whose cell is solid, fills the cell of the probe before it
/// when that cell is empty. Returns the index of that cell's chunk and
/// whether the material was placed; `None` when no solid cell was met
/// inside the loaded chunks.
pub fn place(chunks: &mut Vec<Chunk>, probes: &Vec<Pos3>, selected: u8) -> (r: Option<(usize, bool)>)
    requires
        chunks_wf(old(chunks)@),
    ensures
        chunks_wf(final(chunks)@),
        place_target(old(chunks)@, probes@, 1) is None ==> r is None && final(chunks)@ == old(chunks)@,
        place_target(old(chunks)@, probes@, 1) matches Some(k) ==> {
            let before = probes@[k - 1];
            let empty = material_at(old(chunks)@, before) == Some(AIR);
            &&& r == Some((locate(before).0 as usize, empty))
            &&& empty ==> written(old(chunks)@, final(chunks)@, before, selected)
            &&& !empty ==> final(chunks)@ == old(chunks)@
        },
{
    let n = probes.len();
    let mut k: usize = 1;
    while k < n
        invariant
            1 <= k,
            n == probes@.len(),
            chunks_wf(chunks@),
            chunks@ == old(chunks)@,
            place_target(chunks@, probes@, 1) == place_target(chunks@, probes@, k as int),
        decreases n - k,
    {
        let target = material_of(chunks, probes[k]);
        let before = material_of(chunks, probes[k - 1]);
        match (target, before) {
            (Some((_, _, _, _, m)), Some((i, x, y, z, b))) => {
                if m != AIR {
                    if b == AIR {
                        write_cell(chunks, i, x, y, z, selected);
                        return Some((i, true));
                    }
                    return Some((i, false));
                }
            },
            _ => {
                return None;
            },
        }
        k = k + 1;
    }
    None
}

} // verus!
