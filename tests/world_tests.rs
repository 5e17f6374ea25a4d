use voxel_store::block::Block;
use voxel_store::chunk::Chunk;
use voxel_store::coord::{ChunkCoord, IVec3, UVec3};
use voxel_store::world::World;

fn sorted(mut v: Vec<ChunkCoord>) -> Vec<(i32, i32, i32)> {
    let mut t: Vec<(i32, i32, i32)> = v.drain(..).map(|c| (c.x, c.y, c.z)).collect();
    t.sort();
    t
}

fn ball(center: (i32, i32, i32), r: i64) -> Vec<(i32, i32, i32)> {
    let mut out = Vec::new();
    for x in -r..=r {
        for y in -r..=r {
            for z in -r..=r {
                if x * x + y * y + z * z <= r * r {
                    out.push((center.0 + x as i32, center.1 + y as i32, center.2 + z as i32));
                }
            }
        }
    }
    out.sort();
    out
}

#[test]
fn radius_one_loads_exactly_seven_chunks() {
    let mut w = World::empty();
    w.update_loaded_chunks(IVec3::new(0, 0, 0), 1);
    let expected = vec![(-1, 0, 0), (0, -1, 0), (0, 0, -1), (0, 0, 0), (0, 0, 1), (0, 1, 0), (1, 0, 0)];
    assert_eq!(sorted(w.loaded_chunk_coords()), expected);
    for c in w.loaded_chunk_coords() {
        let chunk = w.get_chunk(c).unwrap();
        assert_eq!(chunk.position, c);
        assert!(chunk.blocks.iter().all(|b| !b.is_empty()));
    }
}

#[test]
fn radius_zero_loads_only_center() {
    let mut w = World::empty();
    w.update_loaded_chunks(IVec3::new(-3, 4, -5), 0);
    assert_eq!(sorted(w.loaded_chunk_coords()), vec![(-3, 4, -5)]);
}

#[test]
fn second_pass_changes_nothing() {
    let mut w = World::empty();
    w.update_loaded_chunks(IVec3::new(2, -1, 0), 3);
    w.set_block(IVec3::new(32, -16, 0), Block::default());
    let before = sorted(w.loaded_chunk_coords());
    w.update_loaded_chunks(IVec3::new(2, -1, 0), 3);
    assert_eq!(sorted(w.loaded_chunk_coords()), before);
    let edited = w.get_chunk(ChunkCoord::new(2, -1, 0)).unwrap();
    assert!(edited.dirty);
    assert!(edited.get_block(UVec3::new(0, 0, 0)).is_none());
}

#[test]
fn moving_center_evicts_and_loads() {
    let mut w = World::empty();
    w.update_loaded_chunks(IVec3::new(0, 0, 0), 2);
    assert_eq!(sorted(w.loaded_chunk_coords()), ball((0, 0, 0), 2));
    w.set_block(IVec3::new(0, 0, 0), Block::default());
    w.update_loaded_chunks(IVec3::new(1, 0, 0), 2);
    assert_eq!(sorted(w.loaded_chunk_coords()), ball((1, 0, 0), 2));
    assert!(w.get_chunk(ChunkCoord::new(0, 0, 0)).unwrap().dirty);
    assert!(w.get_chunk(ChunkCoord::new(-2, 0, 0)).is_none());
}

#[test]
fn coarse_grid_streams_the_same_ball() {
    for size in [1, 2, 3, 7] {
        let mut w = World::with_grid_cell_size(size);
        w.update_loaded_chunks(IVec3::new(-4, 3, 10), 3);
        w.update_loaded_chunks(IVec3::new(-2, 2, 9), 2);
        assert_eq!(sorted(w.loaded_chunk_coords()), ball((-2, 2, 9), 2));
    }
}

#[test]
fn streaming_removes_far_chunks_set_by_hand() {
    let mut w = World::with_grid_cell_size(4);
    w.set_chunk(ChunkCoord::new(100, 0, 0), Chunk::empty(ChunkCoord::new(100, 0, 0)));
    w.set_chunk(ChunkCoord::new(1, 0, 0), Chunk::empty(ChunkCoord::new(1, 0, 0)));
    w.update_loaded_chunks(IVec3::new(0, 0, 0), 1);
    assert_eq!(sorted(w.loaded_chunk_coords()), ball((0, 0, 0), 1));
    assert!(w.get_chunk(ChunkCoord::new(1, 0, 0)).unwrap().blocks.iter().all(|b| b.is_empty()));
}

#[test]
fn set_block_materializes_missing_chunk() {
    let mut w = World::empty();
    let b = Block::new_rot(0x0F0, 0x21);
    w.set_block(IVec3::new(-1, 17, 5), b);
    let c = ChunkCoord::new(-1, 1, 0);
    let chunk = w.get_chunk(c).expect("chunk created");
    assert_eq!(chunk.position, c);
    assert!(chunk.dirty);
    assert_eq!(chunk.get_block(UVec3::new(15, 1, 5)), Some(&b));
    assert_eq!(chunk.blocks.iter().filter(|x| !x.is_empty()).count(), 1);
    assert_eq!(w.get_block(IVec3::new(-1, 17, 5)), Some(&b));
    assert_eq!(w.loaded_chunk_coords().len(), 1);
}

#[test]
fn set_block_overwrites_in_loaded_chunk() {
    let mut w = World::empty();
    assert!(w.load_chunk(ChunkCoord::new(0, 0, 0)));
    assert!(w.get_block(IVec3::new(3, 3, 3)).is_some());
    w.set_block(IVec3::new(3, 3, 3), Block::default());
    assert!(w.get_block(IVec3::new(3, 3, 3)).is_none());
    assert!(w.get_block(IVec3::new(3, 3, 4)).is_some());
}

#[test]
fn unload_missing_chunk_is_a_no_op() {
    let mut w = World::empty();
    w.load_chunk(ChunkCoord::new(0, 0, 0));
    w.unload_chunk(ChunkCoord::new(5, 5, 5));
    assert_eq!(w.loaded_chunk_coords().len(), 1);
    w.unload_chunk(ChunkCoord::new(0, 0, 0));
    assert!(w.loaded_chunk_coords().is_empty());
    assert!(w.get_chunk(ChunkCoord::new(0, 0, 0)).is_none());
}

#[test]
fn set_chunk_replaces_existing() {
    let mut w = World::with_grid_cell_size(2);
    let c = ChunkCoord::new(-3, 0, 0);
    w.load_chunk(c);
    w.set_chunk(c, Chunk::empty(c));
    assert_eq!(w.loaded_chunk_coords().len(), 1);
    assert!(w.get_block(IVec3::new(-48, 0, 0)).is_none());
}

#[test]
fn get_chunk_mut_and_get_block_mut_edit_in_place() {
    let mut w = World::empty();
    let c = ChunkCoord::new(0, 0, -1);
    w.load_chunk(c);
    w.get_chunk_mut(c).unwrap().dirty = true;
    assert!(w.get_chunk(c).unwrap().dirty);
    if let Some(b) = w.get_block_mut(IVec3::new(0, 0, -1)) {
        b.rotate(voxel_store::block::Axis::X, 3);
    }
    assert_eq!(w.get_block(IVec3::new(0, 0, -1)).unwrap().get_x_rotation(), 3);
    assert!(w.get_chunk_mut(ChunkCoord::new(9, 9, 9)).is_none());
    assert!(w.get_block_mut(IVec3::new(1000, 0, 0)).is_none());
}

#[test]
fn get_block_ignores_chunk_with_other_position() {
    let mut w = World::empty();
    let c = ChunkCoord::new(0, 0, 0);
    w.set_chunk(c, Chunk::new(ChunkCoord::new(1, 0, 0)));
    assert!(w.get_block(IVec3::new(1, 1, 1)).is_none());
}
