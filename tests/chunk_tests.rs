use voxel_store::block::Block;
use voxel_store::chunk::Chunk;
use voxel_store::coord::{ChunkCoord, IVec3, UVec3};

#[test]
fn index_transform_is_a_bijection() {
    for i in 0..4096u32 {
        let l = Chunk::index_to_local(i);
        assert!(l.x < 16 && l.y < 16 && l.z < 16);
        assert_eq!(Chunk::local_to_index(l), i);
    }
    for z in 0..16 {
        for y in 0..16 {
            for x in 0..16 {
                let l = UVec3::new(x, y, z);
                assert_eq!(Chunk::index_to_local(Chunk::local_to_index(l)), l);
            }
        }
    }
}

#[test]
fn index_is_z_major() {
    assert_eq!(Chunk::local_to_index(UVec3::new(1, 2, 3)), 3 * 256 + 2 * 16 + 1);
    assert_eq!(Chunk::index_to_local(4095), UVec3::new(15, 15, 15));
}

#[test]
fn empty_chunk_reports_no_blocks() {
    let c = Chunk::empty(ChunkCoord::new(1, 2, 3));
    assert_eq!(c.position, ChunkCoord::new(1, 2, 3));
    assert!(!c.dirty);
    assert!(c.blocks.iter().all(|b| *b == Block::default()));
    assert!(c.get_block(UVec3::new(0, 0, 0)).is_none());
}

#[test]
fn full_chunk_slots_hold_their_own_index() {
    let c = Chunk::new(ChunkCoord::new(0, 0, 0));
    assert!(!c.dirty);
    for (i, b) in c.blocks.iter().enumerate() {
        assert_eq!(*b, Block::new(i as u16));
    }
    assert_eq!(c.get_block(UVec3::new(1, 0, 0)), Some(&Block::new(1)));
    assert!(Chunk::load(ChunkCoord::new(4, 5, 6)).is_some());
}

#[test]
fn empty_block_is_absent_whatever_its_fields() {
    let mut c = Chunk::new(ChunkCoord::new(0, 0, 0));
    let hidden = Block { position: 0xFFF, material: 0, points: 77, rotation: 0x7FFF };
    c.set_block(UVec3::new(2, 3, 4), hidden);
    assert!(c.dirty);
    assert!(c.get_block(UVec3::new(2, 3, 4)).is_none());
    assert!(c.get_block_mut(UVec3::new(2, 3, 4)).is_none());
    assert_eq!(c.blocks[4 * 256 + 3 * 16 + 2], hidden);
}

#[test]
fn out_of_range_slot_is_absent_and_write_is_ignored() {
    let mut c = Chunk::new(ChunkCoord::new(0, 0, 0));
    assert!(c.get_block(UVec3::new(0, 0, 16)).is_none());
    c.set_block(UVec3::new(0, 0, 16), Block::default());
    assert!(!c.dirty);
    assert!(c.get_block(UVec3::new(5, 5, 5)).is_some());
}

#[test]
fn get_block_mut_edits_in_place() {
    let mut c = Chunk::new(ChunkCoord::new(0, 0, 0));
    if let Some(b) = c.get_block_mut(UVec3::new(1, 1, 1)) {
        b.set_rotation(1, 2, 3);
    }
    assert_eq!(c.get_block(UVec3::new(1, 1, 1)).map(|b| b.get_z_rotation()), Some(3));
    assert!(!c.dirty);
}

#[test]
fn adjacent_chunks_are_the_six_faces() {
    let c = Chunk::empty(ChunkCoord::new(0, -5, 7));
    assert_eq!(
        c.get_adjacent_chunk_coords(),
        [
            ChunkCoord::new(-1, -5, 7),
            ChunkCoord::new(1, -5, 7),
            ChunkCoord::new(0, -6, 7),
            ChunkCoord::new(0, -4, 7),
            ChunkCoord::new(0, -5, 6),
            ChunkCoord::new(0, -5, 8),
        ]
    );
}

#[test]
fn world_position_lookup_in_chunk() {
    let c = Chunk::new(ChunkCoord::new(-1, 0, 0));
    assert!(c.contains_world_pos(IVec3::new(-1, 0, 0)));
    assert!(!c.contains_world_pos(IVec3::new(0, 0, 0)));
    assert_eq!(
        c.get_block_at_world_pos(IVec3::new(-16, 1, 0)),
        c.get_block(UVec3::new(0, 1, 0))
    );
    assert!(c.get_block_at_world_pos(IVec3::new(16, 0, 0)).is_none());
}
