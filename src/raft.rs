use vstd::prelude::*;
use crate::geometry::Vec3;

verus! {

/// Side of one raft tile, in thousandths of a unit; a tile reaches half of it
/// to each side of its centre line.
pub const RAFT_TILE_HALF: i64 = 8000;

/// The material of a raft tile.
#[derive(Clone, Copy, Debug, PartialEq, Eq, Structural)]
pub enum RaftTileType {
    Wood,
}

/// The player's raft: a rectangle of tiles around a centre.
#[derive(Clone, Copy, Debug)]
pub struct Raft {
    pub center: Vec3,
    pub size_tiles: (i32, i32),
}

impl Raft {
    pub open spec fn covers(&self, p: Vec3) -> bool {
        let half_w = self.size_tiles.0 * RAFT_TILE_HALF;
        let half_h = self.size_tiles.1 * RAFT_TILE_HALF;
        &&& self.center.x - half_w <= p.x <= self.center.x + half_w
        &&& self.center.y - half_h <= p.y <= self.center.y + half_h
    }

    /// A raft of four by three tiles around `center`.
    pub fn new(center: Vec3) -> (r: Raft)
        ensures
            r.center == center,
            r.size_tiles == (4i32, 3i32),
    {
        Raft { center, size_tiles: (4, 3) }
    }

    /// Whether `pos` stands over the raft's rectangle.
    pub fn is_on_raft(&self, pos: &Vec3) -> (r: bool)
        requires
            self.center.in_world(),
        ensures
            r == self.covers(*pos),
    {
        let half_w = self.size_tiles.0 as i64 * RAFT_TILE_HALF;
        let half_h = self.size_tiles.1 as i64 * RAFT_TILE_HALF;
        let cx = self.center.x as i128;
        let cy = self.center.y as i128;
        let px = pos.x as i128;
        let py = pos.y as i128;
        cx - half_w as i128 <= px && px <= cx + half_w as i128 && cy - half_h as i128 <= py && py
            <= cy + half_h as i128
    }
}

} // verus!
