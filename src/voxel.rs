//! Chunks: the material grid of one cubic region of the world, with the
//! per-voxel bounding boxes that collision needs, made on first use.

use vstd::prelude::*;
use crate::geom::{BBox, Pos3, Vec3, COORD_LIMIT};
use crate::coordinates::{
    chunk_coords, index_to_world, lemma_chunk_coords_inverse, CHUNK_EXTENT, CHUNK_SIZE,
    CHUNK_VOLUME, VOXEL_DIAMETER, VOXEL_HALFWIDTH, WORLD_MAX,
};

verus! {

/// Material code of an empty cell: no collision, not rendered.
pub const AIR: u8 = 0;

/// Material code of the indestructible floor of the world.
pub const BEDROCK: u8 = 7;

/// Kinds of voxel, told apart by how hard they are to break.
#[derive(Clone, Copy, PartialEq, Eq, Debug, Structural)]
pub enum Material {
    Grass,
    Dirt,
    Iron,
}

impl Material {
    /// How long the material takes to break, in strikes.
    pub fn strength(&self) -> (r: i32)
        ensures
            r == match *self {
                Material::Grass => 1i32,
                Material::Dirt => 2i32,
                Material::Iron => 3i32,
            },
    {
        match *self {
            Material::Grass => 1,
            Material::Dirt => 2,
            Material::Iron => 3,
        }
    }
}

/// A voxel: its center and its kind.
#[derive(Clone, Copy, PartialEq, Eq, Debug, Structural)]
pub struct Voxel {
    pub center: Pos3,
    pub material: Material,
}

impl Voxel {
    /// The voxel's bounding box.
    pub fn get_bbox(&self) -> (r: BBox)
        ensures
            r == (BBox { center: self.center, halfwidth: VOXEL_HALFWIDTH }),
    {
        BBox { center: self.center, halfwidth: VOXEL_HALFWIDTH }
    }
}

/// The kind of voxel a material code stands for in a voxel list.
pub open spec fn kind_of_code(c: u8) -> Material {
    if c == 0 {
        Material::Dirt
    } else if c == 1 {
        Material::Iron
    } else {
        Material::Grass
    }
}

/// The voxel for cell `k` of a grid whose first cell is centered at `origin`.
pub open spec fn voxel_at(origin: Pos3, data: Seq<u8>, k: int) -> Voxel {
    let (x, y, z) = cell_coords(k);
    Voxel {
        center: Vec3 {
            x: (origin.x + x * VOXEL_DIAMETER) as i64,
            y: (origin.y + y * VOXEL_DIAMETER) as i64,
            z: (origin.z + z * VOXEL_DIAMETER) as i64,
        },
        material: kind_of_code(data[k]),
    }
}

/// An origin whose chunk fits in the coordinate range.
pub open spec fn origin_ok(origin: Pos3) -> bool {
    &&& -COORD_LIMIT <= origin.x && origin.x + CHUNK_EXTENT <= COORD_LIMIT
    &&& -COORD_LIMIT <= origin.y && origin.y + CHUNK_EXTENT <= COORD_LIMIT
    &&& -COORD_LIMIT <= origin.z && origin.z + CHUNK_EXTENT <= COORD_LIMIT
}

/// One voxel per cell of the chunk, in row-major order, the cell at local
/// coordinates `(x, y, z)` centered at `origin + (x, y, z) * VOXEL_DIAMETER`.
/// Code 0 gives dirt, code 1 iron and any other code grass.
pub fn voxels_from_chunk(chunk: &Chunk, origin: Pos3) -> (r: Vec<Voxel>)
    requires
        chunk.wf(),
        origin_ok(origin),
    ensures
        r@ == Seq::new(CHUNK_VOLUME as nat, |k: int| voxel_at(origin, chunk.data@, k)),
{
    let mut voxels: Vec<Voxel> = Vec::new();
    let mut k: usize = 0;
    while k < CHUNK_VOLUME
        invariant
            chunk.wf(),
            origin_ok(origin),
            k <= CHUNK_VOLUME,
            voxels@.len() == k,
            forall|j: int| 0 <= j < k ==> #[trigger] voxels@[j] == voxel_at(origin, chunk.data@, j),
        decreases CHUNK_VOLUME - k,
    {
        let lx = k / 256;
        let ly = (k % 256) / 16;
        let lz = k % 16;
        assert(lx < 16 && ly < 16 && lz < 16) by (nonlinear_arith)
            requires
                lx == k / 256,
                ly == (k % 256) / 16,
                lz == k % 16,
                k < 4096,
        ;
        let code = chunk.data[k];
        let material = if code == 0 {
            Material::Dirt
        } else if code == 1 {
            Material::Iron
        } else {
            Material::Grass
        };
        let cx = origin.x + lx as i64 * VOXEL_DIAMETER;
        let cy = origin.y + ly as i64 * VOXEL_DIAMETER;
        let cz = origin.z + lz as i64 * VOXEL_DIAMETER;
        voxels.push(Voxel { center: Vec3 { x: cx, y: cy, z: cz }, material });
        k = k + 1;
    }
    assert(voxels@ =~= Seq::new(CHUNK_VOLUME as nat, |k: int| voxel_at(origin, chunk.data@, k)));
    voxels
}

/// The material grid of a chunk, flattened in row-major order
/// (x outer, y middle, z inner), and the bounding box of each of its cells
/// once they have been generated.
pub struct Chunk {
    pub data: Vec<u8>,
    pub voxels: Vec<BBox>,
}

/// Local x, y and z of the cell at row-major position `k` in a chunk.
pub open spec fn cell_coords(k: int) -> (int, int, int) {
    (k / 256, (k % 256) / 16, k % 16)
}

/// Bounding box of cell `k` of the chunk with row-major index `i`: the chunk's
/// origin, plus the cell's coordinates times the voxel diameter, plus half a
/// voxel.
pub open spec fn voxel_box(i: int, k: int) -> BBox {
    let (cx, cy, cz) = chunk_coords(i);
    let (lx, ly, lz) = cell_coords(k);
    BBox {
        center: Vec3 {
            x: (cx * CHUNK_EXTENT + lx * VOXEL_DIAMETER + VOXEL_HALFWIDTH) as i64,
            y: (cy * CHUNK_EXTENT + ly * VOXEL_DIAMETER + VOXEL_HALFWIDTH) as i64,
            z: (cz * CHUNK_EXTENT + lz * VOXEL_DIAMETER + VOXEL_HALFWIDTH) as i64,
        },
        halfwidth: VOXEL_HALFWIDTH,
    }
}

/// The bounding boxes of all cells of chunk `i`, in row-major order.
pub open spec fn voxel_boxes(i: int) -> Seq<BBox> {
    Seq::new(CHUNK_VOLUME as nat, |k: int| voxel_box(i, k))
}

/// Largest coordinate of a voxel center anywhere in the world.
pub const WORLD_SPAN: i64 = 320000;

/// A voxel's box: voxel-sized, centered inside the world.
pub open spec fn voxel_box_ok(b: BBox) -> bool {
    &&& b.halfwidth == VOXEL_HALFWIDTH
    &&& 0 <= b.center.x <= WORLD_SPAN
    &&& 0 <= b.center.y <= WORLD_SPAN
    &&& 0 <= b.center.z <= WORLD_SPAN
}

impl Chunk {
    /// The grid has one material per cell, and the boxes are either not yet
    /// generated or one voxel-sized box per cell inside the world.
    pub open spec fn wf(&self) -> bool {
        &&& self.data@.len() == CHUNK_VOLUME
        &&& self.voxels@.len() == 0 || self.voxels@.len() == CHUNK_VOLUME
        &&& forall|k: int| 0 <= k < self.voxels@.len() ==> voxel_box_ok(#[trigger] self.voxels@[k])
    }

    /// A chunk with the given material grid and no boxes yet.
    pub fn from_data(data: Vec<u8>) -> (r: Chunk)
        requires
            data@.len() == CHUNK_VOLUME,
        ensures
            r.wf(),
            r.data@ == data@,
            r.voxels@.len() == 0,
    {
        Chunk { data, voxels: Vec::new() }
    }

    /// Generates the bounding box of every cell, placing the chunk at row-major
    /// index `i` of the world. Does nothing when the boxes already exist.
    pub fn create_bboxes(&mut self, i: usize)
        requires
            old(self).wf(),
            i < WORLD_MAX,
        ensures
            final(self).wf(),
            final(self).data@ == old(self).data@,
            old(self).voxels@.len() > 0 ==> final(self).voxels@ == old(self).voxels@,
            old(self).voxels@.len() == 0 ==> final(self).voxels@ == voxel_boxes(i as int),
    {
        if self.bboxes_generated() {
            return;
        }
        let (x, y, z) = index_to_world(i);
        proof {
            lemma_chunk_coords_inverse(i as int);
        }
        let ox = x as i64 * CHUNK_EXTENT;
        let oy = y as i64 * CHUNK_EXTENT;
        let oz = z as i64 * CHUNK_EXTENT;
        let mut boxes: Vec<BBox> = Vec::new();
        let mut k: usize = 0;
        while k < CHUNK_VOLUME
            invariant
                k <= CHUNK_VOLUME,
                0 <= x < 10 && 0 <= y < 5 && 0 <= z < 10,
                (x as int, y as int, z as int) == chunk_coords(i as int),
                ox == x * CHUNK_EXTENT,
                oy == y * CHUNK_EXTENT,
                oz == z * CHUNK_EXTENT,
                0 <= ox <= 288000 && 0 <= oy <= 128000 && 0 <= oz <= 288000,
                boxes@.len() == k,
                forall|j: int| 0 <= j < k ==> #[trigger] boxes@[j] == voxel_box(i as int, j),
                forall|j: int| 0 <= j < k ==> voxel_box_ok(#[trigger] boxes@[j]),
            decreases CHUNK_VOLUME - k,
        {
            let lx = k / 256;
            let ly = (k % 256) / 16;
            let lz = k % 16;
            assert(lx < 16 && ly < 16 && lz < 16) by (nonlinear_arith)
                requires
                    lx == k / 256,
                    ly == (k % 256) / 16,
                    lz == k % 16,
                    k < 4096,
            ;
            let b = BBox {
                center: Vec3 {
                    x: ox + lx as i64 * VOXEL_DIAMETER + VOXEL_HALFWIDTH,
                    y: oy + ly as i64 * VOXEL_DIAMETER + VOXEL_HALFWIDTH,
                    z: oz + lz as i64 * VOXEL_DIAMETER + VOXEL_HALFWIDTH,
                },
                halfwidth: VOXEL_HALFWIDTH,
            };
            boxes.push(b);
            k = k + 1;
        }
        assert(boxes@ =~= voxel_boxes(i as int));
        assert forall|j: int| 0 <= j < boxes@.len() implies voxel_box_ok(#[trigger] boxes@[j]) by {}
        self.voxels = boxes;
    }

    /// Have the cells' bounding boxes been generated?
    pub fn bboxes_generated(&self) -> (r: bool)
        ensures
            r == (self.voxels@.len() > 0),
    {
        self.voxels.len() > 0
    }

    /// Material of the cell at row-major position `v`; a position past the
    /// grid reads as air.
    pub fn data_at(&self, v: usize) -> (r: u8)
        ensures
            r == (if v < self.data@.len() {
                self.data@[v as int]
            } else {
                AIR
            }),
    {
        if v < self.data.len() {
            self.data[v]
        } else {
            AIR
        }
    }

    /// Material of the cell at local coordinates `(x, y, z)`.
    pub fn get(&self, x: usize, y: usize, z: usize) -> (r: u8)
        requires
            self.wf(),
            x < CHUNK_SIZE && y < CHUNK_SIZE && z < CHUNK_SIZE,
        ensures
            r == self.data@[x * 256 + y * 16 + z],
    {
        self.data[x * 256 + y * 16 + z]
    }

    /// Writes material `m` into the cell at local coordinates `(x, y, z)`.
    pub fn set(&mut self, x: usize, y: usize, z: usize, m: u8)
        requires
            old(self).wf(),
            x < CHUNK_SIZE && y < CHUNK_SIZE && z < CHUNK_SIZE,
        ensures
            final(self).wf(),
            final(self).data@ == old(self).data@.update(x * 256 + y * 16 + z, m),
            final(self).voxels@ == old(self).voxels@,
    {
        self.data.set(x * 256 + y * 16 + z, m);
    }
}

} // verus!
