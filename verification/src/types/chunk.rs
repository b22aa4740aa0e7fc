use vstd::prelude::*;

verus! {

/// block count in chunk direction (x, y, z)
pub const BLOCK_COUNT_IN_CHUNKSIDE: usize = 16;

/// total block count in chunk
pub const TOTAL_BLOCK_COUNTS_IN_CHUNK: usize = 4096;

/// Quotient of `a / b` rounded toward zero, as Rust's `/` on signed integers.
pub open spec fn trunc_div(a: int, b: int) -> int
    recommends
        b > 0,
{
    if a >= 0 {
        a / b
    } else {
        -((-a) / b)
    }
}

/// block count in world in each direction (x, y, z)
#[derive(Copy, Clone, Debug)]
pub struct WorldBlockCounts {
    pub x: i32,
    pub y: i32,
    pub z: i32,
}

impl WorldBlockCounts {
    pub fn new(x: i32, y: i32, z: i32) -> (r: Self)
        ensures
            r.x == x && r.y == y && r.z == z,
    {
        Self { x, y, z }
    }
}

/// chunk count in world in each direction (x, y, z)
#[derive(Copy, Clone, Debug, PartialEq, Eq, Structural)]
pub struct WorldChunkCounts {
    pub(crate) x: i32,
    pub(crate) y: i32,
    pub(crate) z: i32,
}

impl WorldChunkCounts {
    pub closed spec fn spec_x(&self) -> int {
        self.x as int
    }

    pub closed spec fn spec_y(&self) -> int {
        self.y as int
    }

    pub closed spec fn spec_z(&self) -> int {
        self.z as int
    }

    pub fn new(x: i32, y: i32, z: i32) -> (r: Self)
        ensures
            r.spec_x() == x && r.spec_y() == y && r.spec_z() == z,
    {
        Self { x, y, z }
    }

    /// Number of chunks: the product of the three counts, as `usize`.
    pub fn len(&self) -> (r: usize)
        requires
            i32::MIN <= self.spec_x() * self.spec_y() <= i32::MAX,
            i32::MIN <= self.spec_x() * self.spec_y() * self.spec_z() <= i32::MAX,
        ensures
            r == (self.spec_x() * self.spec_y() * self.spec_z()) as usize,
    {
        let xy = self.x * self.y;
        let xyz = xy * self.z;
        xyz as usize
    }

    /// Chunk counts that hold the given block counts: each count divided by
    /// the chunk side, rounded toward zero.
    pub fn from_block_counts(block_counts: WorldBlockCounts) -> (r: Self)
        ensures
            r.spec_x() == trunc_div(block_counts.x as int, 16),
            r.spec_y() == trunc_div(block_counts.y as int, 16),
            r.spec_z() == trunc_div(block_counts.z as int, 16),
    {
        Self {
            x: block_counts.x / 16,
            y: block_counts.y / 16,
            z: block_counts.z / 16,
        }
    }
}

impl From<WorldBlockCounts> for WorldChunkCounts {
    fn from(block_counts: WorldBlockCounts) -> (r: Self) {
        Self::from_block_counts(block_counts)
    }
}

impl vstd::std_specs::convert::FromSpecImpl<WorldBlockCounts> for WorldChunkCounts {
    open spec fn obeys_from_spec() -> bool {
        true
    }

    closed spec fn from_spec(block_counts: WorldBlockCounts) -> Self {
        WorldChunkCounts {
            x: trunc_div(block_counts.x as int, 16) as i32,
            y: trunc_div(block_counts.y as int, 16) as i32,
            z: trunc_div(block_counts.z as int, 16) as i32,
        }
    }
}

} // verus!
