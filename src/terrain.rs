use vstd::prelude::*;

verus! {

/// Cells along each side of a terrain chunk.
pub const CHUNK_SIZE: usize = 32;

#[derive(Clone, Copy, Debug, PartialEq, Eq, Structural)]
pub enum TerrainMaterial {
    Water,
    Sand,
    Stone,
    Leaves,
    Iron,
}

#[derive(Clone, Copy, Debug, PartialEq, Eq, Structural)]
pub struct TerrainCell {
    pub material: TerrainMaterial,
}

impl TerrainCell {
    pub fn new(material: TerrainMaterial) -> (r: TerrainCell)
        ensures
            r.material == material,
    {
        TerrainCell { material }
    }
}

/// A square of terrain cells at chunk coordinates `x`, `y`.
pub struct TerrainChunk {
    pub x: i32,
    pub y: i32,
    pub cells: Vec<TerrainCell>,
}

impl TerrainChunk {
    /// A chunk of open water.
    pub fn new(x: i32, y: i32) -> (r: TerrainChunk)
        ensures
            r.x == x,
            r.y == y,
            r.cells@.len() == CHUNK_SIZE * CHUNK_SIZE,
            forall|i: int| 0 <= i < r.cells@.len() ==> (#[trigger] r.cells@[i]).material == TerrainMaterial::Water,
    {
        let n = CHUNK_SIZE * CHUNK_SIZE;
        let mut cells: Vec<TerrainCell> = Vec::with_capacity(n);
        let mut i: usize = 0;
        while i < n
            invariant
                n == CHUNK_SIZE * CHUNK_SIZE,
                i <= n,
                cells@.len() == i,
                forall|j: int| 0 <= j < i ==> (#[trigger] cells@[j]).material == TerrainMaterial::Water,
            decreases n - i,
        {
            cells.push(TerrainCell::new(TerrainMaterial::Water));
            i += 1;
        }
        TerrainChunk { x, y, cells }
    }
}

} // verus!
