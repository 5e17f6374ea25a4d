use voxel_store::block::{vector_to_position, Axis, Block};
use voxel_store::coord::{ChunkCoord, IVec3};

#[test]
fn new_block_is_occupied_without_rotation() {
    let b = Block::new(0x123);
    assert_eq!(b, Block { position: 0x123, material: 1, points: 0, rotation: 0 });
    assert!(!b.is_empty());
}

#[test]
fn default_block_is_empty() {
    let b = Block::default();
    assert_eq!(b, Block { position: 0, material: 0, points: 0, rotation: 0 });
    assert!(b.is_empty());
}

#[test]
fn new_rot_keeps_rotation() {
    let b = Block::new_rot(7, 0b11111_00010_00001);
    assert_eq!(b.get_x_rotation(), 1);
    assert_eq!(b.get_y_rotation(), 2);
    assert_eq!(b.get_z_rotation(), 31);
    assert_eq!(b.material, 1);
}

#[test]
fn set_rotation_packs_and_reads_back() {
    let mut b = Block::new(0);
    b.set_rotation(3, 17, 30);
    assert_eq!(b.rotation, 3 | (17 << 5) | (30 << 10));
    assert_eq!((b.get_x_rotation(), b.get_y_rotation(), b.get_z_rotation()), (3, 17, 30));
}

#[test]
fn set_rotation_masks_to_five_bits() {
    let mut b = Block::new(0);
    b.set_rotation(33, 64, 95);
    assert_eq!((b.get_x_rotation(), b.get_y_rotation(), b.get_z_rotation()), (1, 0, 31));
}

#[test]
fn rotate_wraps_one_axis_only() {
    let mut b = Block::new(5);
    b.set_rotation(30, 4, 9);
    b.rotate(Axis::X, 5);
    assert_eq!((b.get_x_rotation(), b.get_y_rotation(), b.get_z_rotation()), (3, 4, 9));
    b.rotate(Axis::Y, 32);
    assert_eq!((b.get_x_rotation(), b.get_y_rotation(), b.get_z_rotation()), (3, 4, 9));
    b.rotate(Axis::Z, 65535);
    assert_eq!((b.get_x_rotation(), b.get_y_rotation(), b.get_z_rotation()), (3, 4, 8));
    assert_eq!(b.position, 5);
}

#[test]
fn rotate_keeps_top_bit() {
    let mut b = Block::new_rot(0, 0x8000);
    b.rotate(Axis::Y, 1);
    assert_eq!(b.rotation, 0x8000 | (1 << 5));
}

#[test]
fn set_pos_and_get_pos() {
    let mut b = Block::default();
    b.set_pos(1, 2, 3);
    assert_eq!(b.position, 0x123);
    assert_eq!(b.get_pos(), IVec3::new(1, 2, 3));
}

#[test]
fn set_pos_does_not_mask() {
    let mut b = Block::default();
    b.set_pos(0, 16, 0);
    assert_eq!(b.position, 0x100);
}

#[test]
fn vector_to_position_wraps_each_axis() {
    assert_eq!(vector_to_position(IVec3::new(1, 2, 3)), 0x123);
    assert_eq!(vector_to_position(IVec3::new(-1, 16, 17)), 0xF01);
    assert_eq!(Block::new_raw(IVec3::new(-2, 0, 15)).position, 0xE0F);
}

#[test]
fn world_position_adds_chunk_origin() {
    let b = Block::new(0x1F2);
    assert_eq!(b.world_position(ChunkCoord::new(-1, 2, 0)), IVec3::new(-15, 47, 2));
}
