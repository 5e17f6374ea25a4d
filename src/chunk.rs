//! A 16 x 16 x 16 array of blocks with Z-major slot indexing, emptiness
//! masking on reads and a dirty flag raised on writes.

use vstd::prelude::*;

use crate::block::{block_is_empty, Block};
use crate::coord::{
    chunk_of, local_of, origin_fits, rem_16, world_at, world_at_fits, ChunkCoord, IVec3, UVec3,
    CHUNK_SIZE_U, CUBES_PER_CHUNK,
};

verus! {

/// Slot of local position `l` in a chunk's block array (Z-major: z * 256 + y * 16 + x).
pub open spec fn index_of(l: UVec3) -> int {
    256 * l.z + 16 * l.y + l.x
}

/// Local position of slot `i`; the inverse of `index_of` on `0..4096`.
pub open spec fn local_at(i: int) -> UVec3 {
    UVec3 { x: (i % 16) as u32, y: ((i / 16) % 16) as u32, z: (i / 256) as u32 }
}

/// Whether every axis of `l` lies in `0..16`.
pub open spec fn in_chunk(l: UVec3) -> bool {
    l.x < 16 && l.y < 16 && l.z < 16
}

/// The block in slot `i` of a freshly generated chunk: occupied, no rotation,
/// and the packed position whose X, Y, Z are the base-16 digits of `i` from
/// the highest, which is `i` itself.
pub open spec fn full_block(i: int) -> Block {
    Block { position: i as u16, material: 1, points: 0, rotation: 0 }
}

/// The all-zero (empty) block.
pub open spec fn empty_block() -> Block {
    Block { position: 0, material: 0, points: 0, rotation: 0 }
}

/// The slot index to local position transform is a bijection between
/// `0..4096` and the local positions with every axis in `0..16`.
pub proof fn lemma_index_bijection(i: int, l: UVec3)
    ensures
        0 <= i < 4096 ==> in_chunk(local_at(i)) && index_of(local_at(i)) == i,
        in_chunk(l) ==> 0 <= index_of(l) < 4096 && local_at(index_of(l)) == l,
{
    if 0 <= i < 4096 {
        assert(i == 256 * (i / 256) + 16 * ((i / 16) % 16) + i % 16) by (nonlinear_arith)
            requires
                0 <= i < 4096,
        ;
    }
    if in_chunk(l) {
        let k = index_of(l);
        assert(k % 16 == l.x && (k / 16) % 16 == l.y && k / 256 == l.z) by (nonlinear_arith)
            requires
                k == 256 * l.z + 16 * l.y + l.x,
                l.x < 16,
                l.y < 16,
                l.z < 16,
        ;
    }
}

/// A 16 x 16 x 16 region of blocks, with a flag that is raised whenever one
/// of its blocks is written (the mesh builder clears it after rebuilding).
#[derive(Clone, Debug)]
pub struct Chunk {
    pub position: ChunkCoord,
    pub blocks: [Block; CUBES_PER_CHUNK],
    pub dirty: bool,
}

/// Whether `ch` is the chunk that `Chunk::empty(c)` makes.
pub open spec fn is_empty_chunk(ch: Chunk, c: ChunkCoord) -> bool {
    &&& ch.position == c
    &&& !ch.dirty
    &&& forall|i: int| 0 <= i < 4096 ==> ch.blocks@[i] == empty_block()
}

/// Whether `ch` is the chunk that `Chunk::new(c)` makes.
pub open spec fn is_full_chunk(ch: Chunk, c: ChunkCoord) -> bool {
    &&& ch.position == c
    &&& !ch.dirty
    &&& forall|i: int| 0 <= i < 4096 ==> ch.blocks@[i] == full_block(i)
}

/// What a read at local position `l` of `ch` reports: the block in slot
/// `index_of(l)` when that slot exists and is not empty.
pub open spec fn block_at(ch: Chunk, l: UVec3) -> Option<Block> {
    if index_of(l) < 4096 && !block_is_empty(ch.blocks@[index_of(l)]) {
        Some(ch.blocks@[index_of(l)])
    } else {
        None
    }
}

/// An empty block is never reported, whatever its position and rotation hold.
pub proof fn lemma_empty_block_absent(ch: Chunk, l: UVec3)
    requires
        0 <= index_of(l) < 4096,
        block_is_empty(ch.blocks@[index_of(l)]),
    ensures
        block_at(ch, l) is None,
{
}

/// Whether `after` is `before` with slot `i` holding `b` and the dirty flag raised.
pub open spec fn written(before: Chunk, after: Chunk, i: int, b: Block) -> bool {
    &&& after.position == before.position
    &&& after.dirty
    &&& after.blocks@ == before.blocks@.update(i, b)
}

/// The slot of `local`, if it is one of the 4096.
fn slot_of(local: UVec3) -> (r: Option<usize>)
    ensures
        match r {
            Some(i) => i == index_of(local) && i < 4096,
            None => index_of(local) >= 4096,
        },
{
    let i: u64 = local.z as u64 * 256 + local.y as u64 * 16 + local.x as u64;
    if i < 4096 {
        Some(i as usize)
    } else {
        None
    }
}

impl Chunk {
    /// A chunk at `chunk_coord` whose blocks are all empty.
    pub fn empty(chunk_coord: ChunkCoord) -> (r: Chunk)
        ensures
            is_empty_chunk(r, chunk_coord),
    {
        Chunk { position: chunk_coord, blocks: [Block::default(); CUBES_PER_CHUNK], dirty: false }
    }

    /// A chunk at `chunk_coord` with every slot occupied.
    pub fn new(chunk_coord: ChunkCoord) -> (r: Chunk)
        ensures
            is_full_chunk(r, chunk_coord),
    {
        let mut blocks = [Block::default(); CUBES_PER_CHUNK];
        let mut i: usize = 0;
        while i < CUBES_PER_CHUNK
            invariant
                i <= 4096,
                forall|j: int| 0 <= j < i ==> blocks@[j] == full_block(j),
            decreases 4096 - i,
        {
            blocks[i] = Block::new(i as u16);
            i = i + 1;
        }
        Chunk { position: chunk_coord, blocks, dirty: false }
    }

    /// Generates the chunk at `chunk_coord`; this always succeeds with a full chunk.
    #[inline]
    pub fn load(chunk_coord: ChunkCoord) -> (r: Option<Chunk>)
        ensures
            r is Some,
            is_full_chunk(r->0, chunk_coord),
    {
        Some(Self::new(chunk_coord))
    }

    /// The six face neighbours of this chunk: -X, +X, -Y, +Y, -Z, +Z.
    pub fn get_adjacent_chunk_coords(&self) -> (r: [ChunkCoord; 6])
        requires
            i32::MIN < self.position.x < i32::MAX,
            i32::MIN < self.position.y < i32::MAX,
            i32::MIN < self.position.z < i32::MAX,
        ensures
            ({
                let p = self.position;
                r@ == seq![
                    ChunkCoord { x: (p.x - 1) as i32, y: p.y, z: p.z },
                    ChunkCoord { x: (p.x + 1) as i32, y: p.y, z: p.z },
                    ChunkCoord { x: p.x, y: (p.y - 1) as i32, z: p.z },
                    ChunkCoord { x: p.x, y: (p.y + 1) as i32, z: p.z },
                    ChunkCoord { x: p.x, y: p.y, z: (p.z - 1) as i32 },
                    ChunkCoord { x: p.x, y: p.y, z: (p.z + 1) as i32 },
                ]
            }),
    {
        let p = self.position;
        let r = [
            ChunkCoord::new(p.x - 1, p.y, p.z),
            ChunkCoord::new(p.x + 1, p.y, p.z),
            ChunkCoord::new(p.x, p.y - 1, p.z),
            ChunkCoord::new(p.x, p.y + 1, p.z),
            ChunkCoord::new(p.x, p.y, p.z - 1),
            ChunkCoord::new(p.x, p.y, p.z + 1),
        ];
        assert(r@ =~= seq![r[0], r[1], r[2], r[3], r[4], r[5]]);
        r
    }

    /// The block at local position `local_pos`, absent when the slot does not
    /// exist or holds an empty block.
    pub fn get_block(&self, local_pos: UVec3) -> (r: Option<&Block>)
        ensures
            match r {
                Some(b) => block_at(*self, local_pos) == Some(*b),
                None => block_at(*self, local_pos) is None,
            },
    {
        match slot_of(local_pos) {
            Some(i) => {
                if self.blocks[i].is_empty() {
                    None
                } else {
                    Some(&self.blocks[i])
                }
            },
            None => None,
        }
    }

    /// Mutable access to the block at local position `local_pos`, absent when
    /// the slot does not exist or holds an empty block.
    pub fn get_block_mut(&mut self, local_pos: UVec3) -> (r: Option<&mut Block>)
        ensures
            match r {
                Some(b) => {
                    &&& block_at(*old(self), local_pos) == Some(*b)
                    &&& final(self).position == old(self).position
                    &&& final(self).dirty == old(self).dirty
                    &&& final(self).blocks@ == old(self).blocks@.update(
                        index_of(local_pos),
                        *final(b),
                    )
                },
                None => block_at(*old(self), local_pos) is None && *final(self) == *old(self),
            },
    {
        match slot_of(local_pos) {
            Some(i) => {
                if self.blocks[i].is_empty() {
                    None
                } else {
                    Some(&mut self.blocks[i])
                }
            },
            None => None,
        }
    }

    /// Writes `cube` into the slot of `local_pos` and raises the dirty flag;
    /// does nothing when the slot does not exist.
    pub fn set_block(&mut self, local_pos: UVec3, cube: Block)
        ensures
            index_of(local_pos) < 4096 ==> written(*old(self), *final(self), index_of(local_pos), cube),
            index_of(local_pos) >= 4096 ==> *final(self) == *old(self),
    {
        if let Some(i) = slot_of(local_pos) {
            self.blocks[i] = cube;
            self.dirty = true;
        }
    }

    /// The world position at offset `local_pos` from this chunk's origin.
    #[inline]
    pub fn local_to_world_pos(&self, local_pos: UVec3) -> (r: IVec3)
        requires
            world_at_fits(self.position, local_pos),
        ensures
            r == world_at(self.position, local_pos),
    {
        let p = self.position;
        IVec3 {
            x: (p.x as i64 * 16 + local_pos.x as i64) as i32,
            y: (p.y as i64 * 16 + local_pos.y as i64) as i32,
            z: (p.z as i64 * 16 + local_pos.z as i64) as i32,
        }
    }

    /// The offset of `world_pos` inside the chunk that contains it.
    #[inline]
    pub fn world_to_local_pos(world_pos: IVec3) -> (r: UVec3)
        ensures
            r == local_of(world_pos),
            in_chunk(r),
    {
        UVec3 { x: rem_16(world_pos.x), y: rem_16(world_pos.y), z: rem_16(world_pos.z) }
    }

    /// The slot index of `local_pos`: z * 256 + y * 16 + x.
    #[inline]
    pub fn local_to_index(local_pos: UVec3) -> (r: u32)
        requires
            index_of(local_pos) <= u32::MAX,
        ensures
            r == index_of(local_pos),
    {
        let (x, y, z) = (local_pos.x, local_pos.y, local_pos.z);
        assert(z * 256 <= index_of(local_pos) && z * 256 + y * 16 <= index_of(local_pos));
        z * (CHUNK_SIZE_U * CHUNK_SIZE_U) + y * CHUNK_SIZE_U + x
    }

    /// The local position of slot `index`.
    #[inline]
    pub fn index_to_local(index: u32) -> (r: UVec3)
        ensures
            r == local_at(index as int),
    {
        UVec3 {
            x: index % CHUNK_SIZE_U,
            y: (index / CHUNK_SIZE_U) % CHUNK_SIZE_U,
            z: index / (CHUNK_SIZE_U * CHUNK_SIZE_U),
        }
    }

    /// Whether `world_pos` lies in this chunk.
    #[inline]
    pub fn contains_world_pos(&self, world_pos: IVec3) -> (r: bool)
        ensures
            r == (chunk_of(world_pos) == self.position),
    {
        let c = ChunkCoord::from_world_pos(world_pos);
        c.x == self.position.x && c.y == self.position.y && c.z == self.position.z
    }

    /// The block at `world_pos` when that position lies in this chunk.
    pub fn get_block_at_world_pos(&self, world_pos: IVec3) -> (r: Option<&Block>)
        ensures
            match r {
                Some(b) => chunk_of(world_pos) == self.position && block_at(
                    *self,
                    local_of(world_pos),
                ) == Some(*b),
                None => chunk_of(world_pos) != self.position || block_at(
                    *self,
                    local_of(world_pos),
                ) is None,
            },
    {
        if self.contains_world_pos(world_pos) {
            let local = Self::world_to_local_pos(world_pos);
            self.get_block(local)
        } else {
            None
        }
    }

    /// The origin voxel of this chunk in world space.
    #[inline]
    pub fn position(&self) -> (r: IVec3)
        requires
            origin_fits(self.position),
        ensures
            r == world_at(self.position, UVec3 { x: 0, y: 0, z: 0 }),
    {
        self.position.to_world_pos()
    }
}

} // verus!
