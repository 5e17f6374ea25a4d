use voxel_store::chunk::Chunk;
use voxel_store::coord::{ChunkCoord, IVec3, UVec3};

#[test]
fn negative_world_position_resolves_to_negative_chunk() {
    let p = IVec3::new(-1, -1, -1);
    assert_eq!(ChunkCoord::from_world_pos(p), ChunkCoord::new(-1, -1, -1));
    assert_eq!(Chunk::world_to_local_pos(p), UVec3::new(15, 15, 15));
}

#[test]
fn chunk_plus_local_gives_back_world_position() {
    let samples = [
        IVec3::new(0, 0, 0),
        IVec3::new(-1, -1, -1),
        IVec3::new(-16, -17, 31),
        IVec3::new(i32::MIN, i32::MAX, 12345),
        IVec3::new(100, -100, -33),
    ];
    for p in samples {
        let c = ChunkCoord::from_world_pos(p);
        let chunk = Chunk::empty(c);
        let local = Chunk::world_to_local_pos(p);
        assert_eq!(chunk.local_to_world_pos(local), p);
    }
}

#[test]
fn to_world_pos_multiplies_by_sixteen() {
    assert_eq!(ChunkCoord::new(2, -3, 0).to_world_pos(), IVec3::new(32, -48, 0));
    assert_eq!(Chunk::empty(ChunkCoord::new(-1, 0, 1)).position(), IVec3::new(-16, 0, 16));
}

#[test]
fn floor_division_for_boundaries() {
    assert_eq!(ChunkCoord::from_world_pos(IVec3::new(15, 16, -16)), ChunkCoord::new(0, 1, -1));
    assert_eq!(ChunkCoord::from_world_pos(IVec3::new(-17, -15, 0)), ChunkCoord::new(-2, -1, 0));
}
