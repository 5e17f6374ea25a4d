//! The bit-packed voxel cell: local position, presence flag, an opaque
//! payload, and three 5-bit rotation steps, read and written through
//! named masks and shifts.

use vstd::prelude::*;

use crate::coord::{origin_fits, world_at, ChunkCoord, IVec3, UVec3};

verus! {

/// Mask of the X component of a packed local position (bits 8..12).
pub const POS_MASK_X: u16 = 0xF << 8;
pub const POS_SHIFT_X: u32 = 8;
/// Mask of the Y component of a packed local position (bits 4..8).
pub const POS_MASK_Y: u16 = 0xF << 4;
pub const POS_SHIFT_Y: u32 = 4;
/// Mask of the Z component of a packed local position (bits 0..4).
pub const POS_MASK_Z: u16 = 0xF;
pub const POS_SHIFT_Z: u32 = 0;

/// Mask of the X rotation step (bits 0..5).
pub const ROT_MASK_X: u16 = 0x1F;
pub const ROT_SHIFT_X: u32 = 0;
/// Mask of the Y rotation step (bits 5..10).
pub const ROT_MASK_Y: u16 = 0x1F << 5;
pub const ROT_SHIFT_Y: u32 = 5;
/// Mask of the Z rotation step (bits 10..15).
pub const ROT_MASK_Z: u16 = 0x1F << 10;
pub const ROT_SHIFT_Z: u32 = 10;

/// X component (0..16) of a packed local position.
pub open spec fn pos_x(p: u16) -> int {
    (p as int / 256) % 16
}

/// Y component (0..16) of a packed local position.
pub open spec fn pos_y(p: u16) -> int {
    (p as int / 16) % 16
}

/// Z component (0..16) of a packed local position.
pub open spec fn pos_z(p: u16) -> int {
    p as int % 16
}

/// X rotation step (0..32) of a packed rotation.
pub open spec fn rot_x(r: u16) -> int {
    r as int % 32
}

/// Y rotation step (0..32) of a packed rotation.
pub open spec fn rot_y(r: u16) -> int {
    (r as int / 32) % 32
}

/// Z rotation step (0..32) of a packed rotation.
pub open spec fn rot_z(r: u16) -> int {
    (r as int / 1024) % 32
}

/// An axis of rotation.
#[derive(Clone, Copy, Debug, PartialEq, Eq, Structural)]
pub enum Axis {
    X,
    Y,
    Z,
}

/// The rotation step of `r` around `axis`.
pub open spec fn rot_of(r: u16, axis: Axis) -> int {
    match axis {
        Axis::X => rot_x(r),
        Axis::Y => rot_y(r),
        Axis::Z => rot_z(r),
    }
}

/// `r` with its step around `axis` replaced by `v` (0..32), all other bits kept.
pub open spec fn with_rot(r: u16, axis: Axis, v: int) -> int {
    match axis {
        Axis::X => r - rot_x(r) + v,
        Axis::Y => r - 32 * rot_y(r) + 32 * v,
        Axis::Z => r - 1024 * rot_z(r) + 1024 * v,
    }
}

/// One voxel cell.
///
/// `position` packs the local X, Y, Z (4 bits each, X highest); `material`
/// is zero exactly when the cell is empty; `points` is an opaque payload that
/// is carried along unchanged; `rotation` packs three 5-bit rotation steps
/// (X lowest).
#[derive(Clone, Copy, Debug, PartialEq, Eq, Structural)]
pub struct Block {
    pub position: u16,
    pub material: u16,
    pub points: u32,
    pub rotation: u16,
}

/// A block is empty exactly when its material is zero.
pub open spec fn block_is_empty(b: Block) -> bool {
    b.material == 0
}

proof fn lemma_rot_fields(r: u16)
    by (bit_vector)
    ensures
        (r & 0x1Fu16) >> 0u32 == r % 32,
        (r & (0x1Fu16 << 5u32)) >> 5u32 == (r / 32) % 32,
        (r & (0x1Fu16 << 10u32)) >> 10u32 == (r / 1024) % 32,
{
}

proof fn lemma_set_rot_field(r: u16, v: u16)
    by (bit_vector)
    requires
        v < 32,
    ensures
        (r & !0x1Fu16) | (v << 0u32) == r - r % 32 + v,
        (r & !(0x1Fu16 << 5u32)) | (v << 5u32) == r - 32 * ((r / 32) % 32) + 32 * v,
        (r & !(0x1Fu16 << 10u32)) | (v << 10u32) == r - 1024 * ((r / 1024) % 32) + 1024 * v,
{
}

proof fn lemma_pack_rotation(x: u16, y: u16, z: u16)
    by (bit_vector)
    ensures
        (x & 0x1Fu16) | ((y & 0x1Fu16) << 5u32) | ((z & 0x1Fu16) << 10u32) == x % 32 + 32 * (y % 32)
            + 1024 * (z % 32),
{
}

proof fn lemma_pack_position(x: u16, y: u16, z: u16)
    by (bit_vector)
    ensures
        x < 16 && y < 16 && z < 16 ==> (x << 8u32) | (y << 4u32) | z == 256 * x + 16 * y + z,
{
}

proof fn lemma_position_fields(p: u16)
    by (bit_vector)
    ensures
        (p >> 8u32) & 0xFu16 == (p / 256) % 16,
        (p >> 4u32) & 0xFu16 == (p / 16) % 16,
        p & 0xFu16 == p % 16,
{
}

/// Packs the low four bits of each axis of `position` (X highest): each
/// axis wraps modulo 16 rather than being clamped.
#[inline]
pub fn vector_to_position(position: IVec3) -> (r: u16)
    ensures
        r == 256 * (position.x % 16) + 16 * (position.y % 16) + position.z % 16,
        pos_x(r) == position.x % 16,
        pos_y(r) == position.y % 16,
        pos_z(r) == position.z % 16,
{
    let x = crate::coord::rem_16(position.x) as u16;
    let y = crate::coord::rem_16(position.y) as u16;
    let z = crate::coord::rem_16(position.z) as u16;
    proof {
        lemma_pack_position(x, y, z);
    }
    (x << 8) | (y << 4) | z
}

impl Block {
    /// An occupied block at the packed local `position`, with no rotation.
    #[inline]
    pub fn new(position: u16) -> (r: Block)
        ensures
            r == (Block { position, material: 1, points: 0, rotation: 0 }),
    {
        Block { position, material: 1, ..Self::default() }
    }

    /// The empty block: every field zero.
    #[inline]
    pub fn default() -> (r: Block)
        ensures
            r == (Block { position: 0, material: 0, points: 0, rotation: 0 }),
    {
        Block { position: 0, material: 0, points: 0, rotation: 0 }
    }

    /// An occupied block at the packed local `position` with the packed `rotation`.
    #[inline]
    pub fn new_rot(position: u16, rotation: u16) -> (r: Block)
        ensures
            r == (Block { position, material: 1, points: 0, rotation }),
    {
        Block { position, rotation, material: 1, ..Self::default() }
    }

    /// An occupied block at the local position `position`, each axis
    /// wrapped modulo 16.
    pub fn new_raw(position: IVec3) -> (r: Block)
        ensures
            r == (Block {
                position: (256 * (position.x % 16) + 16 * (position.y % 16) + position.z % 16) as u16,
                material: 1,
                points: 0,
                rotation: 0,
            }),
    {
        Block { position: vector_to_position(position), material: 1, ..Self::default() }
    }

    /// The X rotation step.
    #[inline]
    pub fn get_x_rotation(&self) -> (r: u16)
        ensures
            r == rot_x(self.rotation),
    {
        proof {
            lemma_rot_fields(self.rotation);
        }
        (self.rotation & ROT_MASK_X) >> ROT_SHIFT_X
    }

    /// The Y rotation step.
    #[inline]
    pub fn get_y_rotation(&self) -> (r: u16)
        ensures
            r == rot_y(self.rotation),
    {
        proof {
            lemma_rot_fields(self.rotation);
        }
        (self.rotation & ROT_MASK_Y) >> ROT_SHIFT_Y
    }

    /// The Z rotation step.
    #[inline]
    pub fn get_z_rotation(&self) -> (r: u16)
        ensures
            r == rot_z(self.rotation),
    {
        proof {
            lemma_rot_fields(self.rotation);
        }
        (self.rotation & ROT_MASK_Z) >> ROT_SHIFT_Z
    }

    /// Packs `x`, `y`, `z` into the position field as given (X in bits 8..12,
    /// Y in bits 4..8, Z in bits 0..4); values of 16 or more are not masked.
    #[inline]
    pub fn set_pos(&mut self, x: u16, y: u16, z: u16)
        ensures
            final(self).position == (x << 8u32) | (y << 4u32) | z,
            x < 16 && y < 16 && z < 16 ==> pos_x(final(self).position) == x && pos_y(
                final(self).position,
            ) == y && pos_z(final(self).position) == z,
            final(self).material == old(self).material,
            final(self).points == old(self).points,
            final(self).rotation == old(self).rotation,
    {
        proof {
            lemma_pack_position(x, y, z);
        }
        self.position = (x << 8) | (y << 4) | z;
    }

    /// The local position held in the position field.
    pub fn get_pos(&self) -> (r: IVec3)
        ensures
            r == (IVec3 {
                x: pos_x(self.position) as i32,
                y: pos_y(self.position) as i32,
                z: pos_z(self.position) as i32,
            }),
    {
        proof {
            lemma_position_fields(self.position);
        }
        IVec3 {
            x: ((self.position >> 8) & 0xF) as i32,
            y: ((self.position >> 4) & 0xF) as i32,
            z: (self.position & 0xF) as i32,
        }
    }

    /// Whether this cell holds no voxel (material zero).
    #[inline]
    pub fn is_empty(&self) -> (r: bool)
        ensures
            r == block_is_empty(*self),
    {
        self.material == 0
    }

    /// The world position of this block inside the chunk at `chunk_pos`: the
    /// chunk's origin plus the block's local position.
    pub fn world_position(&self, chunk_pos: ChunkCoord) -> (r: IVec3)
        requires
            origin_fits(chunk_pos),
            16 * chunk_pos.x + 15 <= i32::MAX,
            16 * chunk_pos.y + 15 <= i32::MAX,
            16 * chunk_pos.z + 15 <= i32::MAX,
        ensures
            r == world_at(
                chunk_pos,
                UVec3 {
                    x: pos_x(self.position) as u32,
                    y: pos_y(self.position) as u32,
                    z: pos_z(self.position) as u32,
                },
            ),
    {
        let local = self.get_pos();
        let origin = chunk_pos.to_world_pos();
        IVec3 { x: local.x + origin.x, y: local.y + origin.y, z: local.z + origin.z }
    }

    /// Adds `steps` modulo 32 to the rotation step around `axis`, leaving the
    /// other axes and the unused top bit untouched.
    pub fn rotate(&mut self, axis: Axis, steps: u16)
        ensures
            final(self).rotation == with_rot(
                old(self).rotation,
                axis,
                (rot_of(old(self).rotation, axis) + steps) % 32,
            ),
            final(self).position == old(self).position,
            final(self).material == old(self).material,
            final(self).points == old(self).points,
    {
        let (current, mask, shift) = match axis {
            Axis::X => (self.get_x_rotation(), ROT_MASK_X, ROT_SHIFT_X),
            Axis::Y => (self.get_y_rotation(), ROT_MASK_Y, ROT_SHIFT_Y),
            Axis::Z => (self.get_z_rotation(), ROT_MASK_Z, ROT_SHIFT_Z),
        };
        let new_rot: u16 = ((current as u32 + steps as u32) % 32) as u16;
        proof {
            lemma_set_rot_field(self.rotation, new_rot);
        }
        self.rotation = (self.rotation & !mask) | (new_rot << shift);
    }

    /// Sets all three rotation steps; each input is masked to its low five
    /// bits, so out-of-range steps wrap.
    pub fn set_rotation(&mut self, x: u16, y: u16, z: u16)
        ensures
            final(self).rotation == x % 32 + 32 * (y % 32) + 1024 * (z % 32),
            rot_x(final(self).rotation) == x % 32,
            rot_y(final(self).rotation) == y % 32,
            rot_z(final(self).rotation) == z % 32,
            final(self).position == old(self).position,
            final(self).material == old(self).material,
            final(self).points == old(self).points,
    {
        proof {
            lemma_pack_rotation(x, y, z);
        }
        self.rotation = (x & 0x1F) | ((y & 0x1F) << 5) | ((z & 0x1F) << 10);
    }
}

} // verus!
