//! World-space voxel positions, chunk coordinates and chunk-local offsets,
//! with floor division so negative positions map to the chunk that holds them.

use vstd::prelude::*;

verus! {

/// Edge length of a chunk, in voxels.
pub const CHUNK_SIZE: usize = 16;
pub const CHUNK_SIZE_U: u32 = 16;
pub const CHUNK_SIZE_I: i32 = 16;
/// Number of voxel slots in a chunk (16 * 16 * 16).
pub const CUBES_PER_CHUNK: usize = 4096;

/// A signed integer vector: a world-space voxel position.
#[derive(Clone, Copy, Debug, PartialEq, Eq, Hash, Structural)]
pub struct IVec3 {
    pub x: i32,
    pub y: i32,
    pub z: i32,
}

/// An unsigned integer vector: a position local to a chunk.
#[derive(Clone, Copy, Debug, PartialEq, Eq, Hash, Structural)]
pub struct UVec3 {
    pub x: u32,
    pub y: u32,
    pub z: u32,
}

impl IVec3 {
    #[inline]
    pub fn new(x: i32, y: i32, z: i32) -> (r: IVec3)
        ensures
            r == (IVec3 { x, y, z }),
    {
        IVec3 { x, y, z }
    }
}

impl UVec3 {
    #[inline]
    pub fn new(x: u32, y: u32, z: u32) -> (r: UVec3)
        ensures
            r == (UVec3 { x, y, z }),
    {
        UVec3 { x, y, z }
    }
}

/// Integer address of a chunk in chunk space.
#[derive(Clone, Copy, Debug, PartialEq, Eq, Hash, Structural)]
pub struct ChunkCoord {
    pub x: i32,
    pub y: i32,
    pub z: i32,
}

/// Whether `v` is a value of `i32`.
pub open spec fn fits_i32(v: int) -> bool {
    i32::MIN <= v <= i32::MAX
}

/// Whether the origin voxel of chunk `c` (16 times each axis) is an `i32` triple.
pub open spec fn origin_fits(c: ChunkCoord) -> bool {
    fits_i32(16 * c.x) && fits_i32(16 * c.y) && fits_i32(16 * c.z)
}

/// The chunk that contains world position `p`: floor division of each axis by 16.
pub open spec fn chunk_of(p: IVec3) -> ChunkCoord {
    ChunkCoord { x: (p.x / 16) as i32, y: (p.y / 16) as i32, z: (p.z / 16) as i32 }
}

/// The offset of world position `p` inside its chunk: Euclidean remainder by 16.
pub open spec fn local_of(p: IVec3) -> UVec3 {
    UVec3 { x: (p.x % 16) as u32, y: (p.y % 16) as u32, z: (p.z % 16) as u32 }
}

/// The world position at offset `l` from the origin of chunk `c`.
pub open spec fn world_at(c: ChunkCoord, l: UVec3) -> IVec3 {
    IVec3 { x: (16 * c.x + l.x) as i32, y: (16 * c.y + l.y) as i32, z: (16 * c.z + l.z) as i32 }
}

/// Whether `world_at(c, l)` is computed without leaving `i32`.
pub open spec fn world_at_fits(c: ChunkCoord, l: UVec3) -> bool {
    fits_i32(16 * c.x + l.x) && fits_i32(16 * c.y + l.y) && fits_i32(16 * c.z + l.z)
}

/// The grid cell that holds chunk `c` when cells are `s` chunks wide: floor
/// division of each axis by `s`.
pub open spec fn cell_of(c: ChunkCoord, s: int) -> ChunkCoord {
    ChunkCoord { x: (c.x as int / s) as i32, y: (c.y as int / s) as i32, z: (c.z as int / s) as i32 }
}

/// Floor division by 16.
pub fn floor_div_16(v: i32) -> (r: i32)
    ensures
        r == v / 16,
{
    v.checked_div_euclid(16).unwrap()
}

/// Euclidean remainder by 16.
pub fn rem_16(v: i32) -> (r: u32)
    ensures
        r == v % 16,
        r < 16,
{
    v.checked_rem_euclid(16).unwrap() as u32
}

/// Splitting a world position into its chunk and its offset, then putting
/// them back together, gives the position again, for negative axes too.
pub proof fn lemma_world_local_round_trip(p: IVec3)
    ensures
        origin_fits(chunk_of(p)),
        local_of(p).x < 16 && local_of(p).y < 16 && local_of(p).z < 16,
        world_at_fits(chunk_of(p), local_of(p)),
        world_at(chunk_of(p), local_of(p)) == p,
{
}

impl ChunkCoord {
    #[inline]
    pub fn new(x: i32, y: i32, z: i32) -> (r: ChunkCoord)
        ensures
            r == (ChunkCoord { x, y, z }),
    {
        ChunkCoord { x, y, z }
    }

    /// The origin voxel of this chunk: each axis times 16.
    #[inline]
    pub fn to_world_pos(&self) -> (r: IVec3)
        requires
            origin_fits(*self),
        ensures
            r == world_at(*self, UVec3 { x: 0, y: 0, z: 0 }),
    {
        IVec3 { x: self.x * CHUNK_SIZE_I, y: self.y * CHUNK_SIZE_I, z: self.z * CHUNK_SIZE_I }
    }

    /// The chunk that contains `world_pos`.
    #[inline]
    pub fn from_world_pos(world_pos: IVec3) -> (r: ChunkCoord)
        ensures
            r == chunk_of(world_pos),
    {
        ChunkCoord {
            x: floor_div_16(world_pos.x),
            y: floor_div_16(world_pos.y),
            z: floor_div_16(world_pos.z),
        }
    }
}

} // verus!
