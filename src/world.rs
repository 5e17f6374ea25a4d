//! The set of loaded chunks, its coarse spatial grid, and streaming of
//! chunks around a moving center.

use std::collections::hash_map::Entry;
use std::collections::{HashMap, HashSet};

use vstd::prelude::*;

use crate::block::Block;
use crate::chunk::{block_at, empty_block, index_of, is_full_chunk, written, Chunk};
use crate::coord::{cell_of, chunk_of, local_of, ChunkCoord, IVec3};
use crate::key::{
    coord_from_key, coord_of_key, floor_div, key_exec, key_of, lemma_floor_div_bounds,
    lemma_key_inverse, lemma_key_of,
};
use crate::streaming::{
    ball, cube_fits, in_ball, lemma_ball_in_cube, lemma_cell_span, lemma_square_nonneg,
    sq_dist, sq_dist_exec, streamed,
};

verus! {

broadcast use vstd::std_specs::hash::group_hash_axioms;

/// The chunks of a key-indexed map, indexed by coordinate.
spec fn view_of(m: Map<u128, Chunk>) -> Map<ChunkCoord, Chunk> {
    Map::new(|c: ChunkCoord| m.contains_key(key_of(c)), |c: ChunkCoord| m[key_of(c)])
}

proof fn lemma_view_insert(m: Map<u128, Chunk>, c: ChunkCoord, v: Chunk)
    ensures
        view_of(m.insert(key_of(c), v)) == view_of(m).insert(c, v),
{
    assert forall|c2: ChunkCoord| key_of(c2) == key_of(c) implies c2 == c by {
        lemma_key_of(c);
        lemma_key_of(c2);
    }
    assert(view_of(m.insert(key_of(c), v)) =~= view_of(m).insert(c, v));
}

proof fn lemma_view_remove(m: Map<u128, Chunk>, c: ChunkCoord)
    ensures
        view_of(m.remove(key_of(c))) == view_of(m).remove(c),
{
    assert forall|c2: ChunkCoord| key_of(c2) == key_of(c) implies c2 == c by {
        lemma_key_of(c);
        lemma_key_of(c2);
    }
    assert(view_of(m.remove(key_of(c))) =~= view_of(m).remove(c));
}

/// All loaded chunks, keyed by chunk coordinate, with a coarse spatial grid
/// over the same coordinates: each grid cell lists the loaded chunks whose
/// coordinates fall in it, and cells with no loaded chunk are not kept.
#[derive(Clone, Debug)]
pub struct World {
    /// Loaded chunks, by the key of their coordinate.
    chunks: HashMap<u128, Chunk>,
    /// For each non-empty grid cell (by the key of its cell coordinate), the
    /// keys of the loaded chunks inside it.
    spatial_grid: HashMap<u128, HashSet<u128>>,
    /// Width of a grid cell in chunks, at least 1.
    grid_cell_size: i32,
}

impl View for World {
    type V = Map<ChunkCoord, Chunk>;

    /// The loaded chunks by coordinate.
    closed spec fn view(&self) -> Map<ChunkCoord, Chunk> {
        view_of(self.chunks@)
    }
}

impl World {
    /// Width of a grid cell, in chunks.
    pub closed spec fn cell_size(&self) -> int {
        self.grid_cell_size as int
    }

    /// Whether the grid keeps a cell at `g`.
    pub closed spec fn has_cell(&self, g: ChunkCoord) -> bool {
        self.spatial_grid@.contains_key(key_of(g))
    }

    /// Whether the grid cell at `g` lists chunk `c`.
    pub closed spec fn cell_holds(&self, g: ChunkCoord, c: ChunkCoord) -> bool {
        self.spatial_grid@.contains_key(key_of(g)) && self.spatial_grid@[key_of(g)]@.contains(
            key_of(c),
        )
    }

    /// Key of the grid cell of the chunk with key `k`.
    spec fn cell_key(&self, k: u128) -> u128 {
        key_of(cell_of(coord_of_key(k), self.grid_cell_size as int))
    }

    /// The map and the grid agree: each loaded chunk is listed in the cell of
    /// its coordinate, each listed chunk is loaded and sits in its own cell,
    /// and no cell is empty.
    pub closed spec fn wf(&self) -> bool {
        &&& self.grid_cell_size >= 1
        &&& forall|k: u128| #[trigger]
            self.chunks@.contains_key(k) ==> k < 0x1_0000_0000_0000_0000_0000_0000
        &&& forall|k: u128| #[trigger]
            self.chunks@.contains_key(k) ==> self.spatial_grid@.contains_key(self.cell_key(k))
                && self.spatial_grid@[self.cell_key(k)]@.contains(k)
        &&& forall|g: u128| #[trigger]
            self.spatial_grid@.contains_key(g) ==> !self.spatial_grid@[g]@.is_empty()
        &&& forall|g: u128, k: u128|
            self.spatial_grid@.contains_key(g) && #[trigger] self.spatial_grid@[g]@.contains(k)
                ==> self.chunks@.contains_key(k) && g == self.cell_key(k)
    }

    /// The grid and the chunk map agree: every loaded coordinate is listed in
    /// exactly one grid cell, the one its coordinates divide into, every
    /// listed coordinate is loaded, and no grid cell is empty. Every
    /// operation keeps `wf`, so this holds after any sequence of them.
    pub proof fn lemma_grid_consistent(&self)
        requires
            self.wf(),
        ensures
            forall|c: ChunkCoord| #[trigger]
                self@.contains_key(c) ==> self.cell_holds(cell_of(c, self.cell_size()), c),
            forall|g: ChunkCoord, c: ChunkCoord| #[trigger]
                self.cell_holds(g, c) ==> self@.contains_key(c) && g == cell_of(c, self.cell_size()),
            forall|g: ChunkCoord| #[trigger]
                self.has_cell(g) ==> exists|c: ChunkCoord| self.cell_holds(g, c),
    {
        assert forall|c: ChunkCoord| #[trigger]
            self@.contains_key(c) implies self.cell_holds(cell_of(c, self.cell_size()), c) by {
            lemma_key_of(c);
        }
        assert forall|g: ChunkCoord, c: ChunkCoord| #[trigger]
            self.cell_holds(g, c) implies self@.contains_key(c) && g == cell_of(c, self.cell_size()) by {
            lemma_key_of(c);
            lemma_key_of(g);
            lemma_key_of(cell_of(c, self.cell_size()));
        }
        assert forall|g: ChunkCoord| #[trigger]
            self.has_cell(g) implies exists|c: ChunkCoord| self.cell_holds(g, c) by {
            let set = self.spatial_grid@[key_of(g)]@;
            let k = choose|k: u128| set.contains(k);
            lemma_key_inverse(k);
            assert(self.cell_holds(g, coord_of_key(k)));
        }
    }

    /// A world with no chunks and grid cells one chunk wide.
    #[inline]
    pub fn empty() -> (r: World)
        ensures
            r.wf(),
            r@ == Map::<ChunkCoord, Chunk>::empty(),
            r.cell_size() == 1,
    {
        let r = World { chunks: HashMap::new(), spatial_grid: HashMap::new(), grid_cell_size: 1 };
        assert(r@ =~= Map::<ChunkCoord, Chunk>::empty());
        r
    }

    /// A world with no chunks and grid cells `grid_cell_size` chunks wide.
    pub fn with_grid_cell_size(grid_cell_size: i32) -> (r: World)
        requires
            grid_cell_size >= 1,
        ensures
            r.wf(),
            r@ == Map::<ChunkCoord, Chunk>::empty(),
            r.cell_size() == grid_cell_size,
    {
        let r = World { chunks: HashMap::new(), spatial_grid: HashMap::new(), grid_cell_size };
        assert(r@ =~= Map::<ChunkCoord, Chunk>::empty());
        r
    }

    /// The grid cell of `coord`.
    #[inline]
    fn get_grid_cell(&self, coord: &ChunkCoord) -> (r: (i32, i32, i32))
        requires
            self.grid_cell_size >= 1,
        ensures
            r == (cell_of(*coord, self.cell_size()).x, cell_of(*coord, self.cell_size()).y, cell_of(
                *coord,
                self.cell_size(),
            ).z),
    {
        (
            floor_div(coord.x, self.grid_cell_size),
            floor_div(coord.y, self.grid_cell_size),
            floor_div(coord.z, self.grid_cell_size),
        )
    }

    /// Key of the grid cell of `coord`.
    fn cell_key_exec(&self, coord: &ChunkCoord) -> (r: u128)
        requires
            self.grid_cell_size >= 1,
        ensures
            r == self.cell_key(key_of(*coord)),
    {
        proof {
            lemma_key_of(*coord);
        }
        let (x, y, z) = self.get_grid_cell(coord);
        key_exec(x, y, z)
    }

    /// The chunk loaded at `coord`, if any.
    #[inline]
    pub fn get_chunk(&self, coord: ChunkCoord) -> (r: Option<&Chunk>)
        ensures
            match r {
                Some(ch) => self@.contains_key(coord) && *ch == self@[coord],
                None => !self@.contains_key(coord),
            },
    {
        self.chunks.get(&key_exec(coord.x, coord.y, coord.z))
    }

    /// Mutable access to the chunk loaded at `coord`, if any.
    #[inline]
    pub fn get_chunk_mut(&mut self, coord: ChunkCoord) -> (r: Option<&mut Chunk>)
        requires
            old(self).wf(),
        ensures
            final(self).wf(),
            final(self).cell_size() == old(self).cell_size(),
            match r {
                Some(ch) => {
                    &&& old(self)@.contains_key(coord)
                    &&& *ch == old(self)@[coord]
                    &&& final(self)@ == old(self)@.insert(coord, *final(ch))
                },
                None => !old(self)@.contains_key(coord) && final(self)@ == old(self)@,
            },
    {
        let k = key_exec(coord.x, coord.y, coord.z);
        match self.chunks.entry(k) {
            Entry::Occupied(e) => {
                let ch = e.into_mut();
                proof {
                    lemma_view_insert(old(self).chunks@, coord, *final(ch));
                }
                Some(ch)
            },
            Entry::Vacant(_) => {
                assert(old(self).chunks@.remove(k) =~= old(self).chunks@);
                None
            },
        }
    }

    /// The coordinates of all loaded chunks, each once, in no particular order.
    #[verifier::rlimit(30)]
    pub fn loaded_chunk_coords(&self) -> (r: Vec<ChunkCoord>)
        requires
            self.wf(),
        ensures
            forall|c: ChunkCoord| #[trigger] r@.contains(c) <==> self@.contains_key(c),
            r@.no_duplicates(),
    {
        let mut r: Vec<ChunkCoord> = Vec::new();
        let ghost mut seen: Set<u128> = Set::empty();
        for k in it: self.chunks.keys()
            invariant
                self.wf(),
                it.seq().unref().to_set() == self.chunks@.dom(),
                it.seq().no_duplicates(),
                seen.subset_of(self.chunks@.dom()),
                forall|j: int| 0 <= j < it.index() ==> seen.contains(#[trigger] *it.seq()[j]),
                forall|x: u128| #[trigger]
                    seen.contains(x) ==> exists|j: int| 0 <= j < it.index() && *it.seq()[j] == x,
                r@.no_duplicates(),
                forall|c: ChunkCoord| #[trigger] r@.contains(c) <==> seen.contains(key_of(c)),
        {
            assert(it.seq().unref().to_set().contains(*k));
            let c = coord_from_key(*k);
            proof {
                broadcast use vstd::seq_lib::lemma_seq_contains_after_push;

                assert forall|c2: ChunkCoord| key_of(c2) == *k implies c2 == c by {
                    lemma_key_of(c2);
                }
                if seen.contains(*k) {
                    let j = choose|j: int| 0 <= j < it.index() && *it.seq()[j] == *k;
                    assert(it.seq()[j] == it.seq()[it.index()]);
                }
                assert(!r@.contains(c));
                seen = seen.insert(*k);
            }
            let ghost prev = r@;
            r.push(c);
            assert forall|i: int, j: int| 0 <= i < j < r@.len() implies r@[i] != r@[j] by {
                if j == prev.len() {
                    assert(prev.contains(r@[i]));
                }
            }
        }
        assert(self.chunks@.dom().subset_of(seen));
        r
    }

    /// The block at world position `world_pos`: absent when its chunk is not
    /// loaded, when the chunk stored there reports another position, or when
    /// the block is empty.
    pub fn get_block(&self, world_pos: IVec3) -> (r: Option<&Block>)
        ensures
            ({
                let c = chunk_of(world_pos);
                let found = if self@.contains_key(c) && self@[c].position == c {
                    block_at(self@[c], local_of(world_pos))
                } else {
                    None
                };
                match r {
                    Some(b) => found == Some(*b),
                    None => found is None,
                }
            }),
    {
        let chunk_coord = ChunkCoord::from_world_pos(world_pos);
        match self.get_chunk(chunk_coord) {
            Some(chunk) => chunk.get_block_at_world_pos(world_pos),
            None => None,
        }
    }

    /// Mutable access to the block at world position `world_pos`: absent when
    /// its chunk is not loaded or the block is empty.
    pub fn get_block_mut(&mut self, world_pos: IVec3) -> (r: Option<&mut Block>)
        requires
            old(self).wf(),
        ensures
            final(self).wf(),
            final(self).cell_size() == old(self).cell_size(),
            ({
                let c = chunk_of(world_pos);
                let l = local_of(world_pos);
                match r {
                    Some(b) => {
                        &&& old(self)@.contains_key(c)
                        &&& block_at(old(self)@[c], l) == Some(*b)
                        &&& final(self)@.contains_key(c)
                        &&& final(self)@ == old(self)@.insert(c, final(self)@[c])
                        &&& final(self)@[c].position == old(self)@[c].position
                        &&& final(self)@[c].dirty == old(self)@[c].dirty
                        &&& final(self)@[c].blocks@ == old(self)@[c].blocks@.update(
                            index_of(l),
                            *final(b),
                        )
                    },
                    None => {
                        &&& final(self)@ == old(self)@
                        &&& !old(self)@.contains_key(c) || block_at(old(self)@[c], l) is None
                    },
                }
            }),
    {
        let chunk_coord = ChunkCoord::from_world_pos(world_pos);
        match self.get_chunk_mut(chunk_coord) {
            Some(chunk) => {
                let local = Chunk::world_to_local_pos(world_pos);
                chunk.get_block_mut(local)
            },
            None => None,
        }
    }

    /// Writes `block` at world position `world_pos`. When the chunk there is
    /// not loaded, an empty chunk is created first, so the write always lands.
    pub fn set_block(&mut self, world_pos: IVec3, block: Block)
        requires
            old(self).wf(),
        ensures
            final(self).wf(),
            final(self).cell_size() == old(self).cell_size(),
            ({
                let c = chunk_of(world_pos);
                let i = index_of(local_of(world_pos));
                &&& final(self)@.contains_key(c)
                &&& final(self)@ == old(self)@.insert(c, final(self)@[c])
                &&& old(self)@.contains_key(c) ==> written(old(self)@[c], final(self)@[c], i, block)
                &&& !old(self)@.contains_key(c) ==> {
                    &&& final(self)@[c].position == c
                    &&& final(self)@[c].dirty
                    &&& forall|j: int|
                        0 <= j < 4096 ==> #[trigger] final(self)@[c].blocks@[j] == if j == i {
                            block
                        } else {
                            empty_block()
                        }
                }
            }),
    {
        let chunk_coord = ChunkCoord::from_world_pos(world_pos);
        if self.get_chunk(chunk_coord).is_none() {
            self.set_chunk(chunk_coord, Chunk::empty(chunk_coord));
        }
        let local = Chunk::world_to_local_pos(world_pos);
        if let Some(chunk) = self.get_chunk_mut(chunk_coord) {
            chunk.set_block(local, block);
        }
    }

    /// Installs `chunk` at `chunk_coord`, replacing any chunk there, and lists
    /// the coordinate in its grid cell.
    pub fn set_chunk(&mut self, chunk_coord: ChunkCoord, chunk: Chunk)
        requires
            old(self).wf(),
        ensures
            final(self).wf(),
            final(self).cell_size() == old(self).cell_size(),
            final(self)@ == old(self)@.insert(chunk_coord, chunk),
    {
        let k = key_exec(chunk_coord.x, chunk_coord.y, chunk_coord.z);
        let g = self.cell_key_exec(&chunk_coord);
        proof {
            lemma_key_of(chunk_coord);
            lemma_view_insert(self.chunks@, chunk_coord, chunk);
        }
        let mut set = match self.spatial_grid.remove(&g) {
            Some(s) => s,
            None => HashSet::new(),
        };
        set.insert(k);
        self.spatial_grid.insert(g, set);
        self.chunks.insert(k, chunk);
    }

    /// Removes the chunk at `chunk_coord` and its grid entry, dropping the
    /// cell when it becomes empty; does nothing when no chunk is loaded there.
    pub fn unload_chunk(&mut self, chunk_coord: ChunkCoord)
        requires
            old(self).wf(),
        ensures
            final(self).wf(),
            final(self).cell_size() == old(self).cell_size(),
            final(self)@ == old(self)@.remove(chunk_coord),
    {
        let k = key_exec(chunk_coord.x, chunk_coord.y, chunk_coord.z);
        proof {
            lemma_key_of(chunk_coord);
            lemma_view_remove(self.chunks@, chunk_coord);
        }
        if self.chunks.contains_key(&k) {
            let g = self.cell_key_exec(&chunk_coord);
            if let Some(mut set) = self.spatial_grid.remove(&g) {
                set.remove(&k);
                if !set.is_empty() {
                    self.spatial_grid.insert(g, set);
                }
            }
        }
        self.chunks.remove(&k);
    }

    /// Adds to `keep` the keys of the chunks listed in grid cell `g` that lie
    /// within squared distance `radius_sq` of `center`.
    #[verifier::rlimit(30)]
    fn keep_from_cell(&self, g: u128, center: IVec3, radius_sq: i128, keep: &mut HashSet<u128>)
        requires
            self.wf(),
        ensures
            forall|k: u128| #[trigger]
                final(keep)@.contains(k) <==> old(keep)@.contains(k) || (self.chunks@.contains_key(k)
                    && self.cell_key(k) == g && sq_dist(coord_of_key(k), center) <= radius_sq),
    {
        match self.spatial_grid.get(&g) {
            Some(set) => {
                let ghost before = keep@;
                let ghost mut seen: Set<u128> = Set::empty();
                for m in it: set.iter()
                    invariant
                        self.wf(),
                        self.spatial_grid@.contains_key(g),
                        set@ == self.spatial_grid@[g]@,
                        it.seq().unref().to_set() == set@,
                        seen.subset_of(set@),
                        forall|j: int| 0 <= j < it.index() ==> seen.contains(#[trigger] *it.seq()[j]),
                        forall|k: u128| #[trigger]
                            keep@.contains(k) <==> before.contains(k) || (seen.contains(k) && sq_dist(
                                coord_of_key(k),
                                center,
                            ) <= radius_sq),
                {
                    assert(it.seq().unref().to_set().contains(*m));
                    if sq_dist_exec(*m, center) <= radius_sq {
                        keep.insert(*m);
                    }
                    proof {
                        seen = seen.insert(*m);
                    }
                }
                assert(set@.subset_of(seen));
            },
            None => {},
        }
    }

    /// Whether the chunk with key `k` is loaded and lies in the ball.
    spec fn kept(&self, k: u128, center: IVec3, radius: int) -> bool {
        self.chunks@.contains_key(k) && in_ball(coord_of_key(k), center, radius)
    }

    /// Grid cell of the chunk with key `k`.
    spec fn cell_coord(&self, k: u128) -> ChunkCoord {
        cell_of(coord_of_key(k), self.grid_cell_size as int)
    }

    proof fn lemma_kept_cell(&self, k: u128, center: IVec3, radius: int)
        requires
            self.wf(),
            radius >= 0,
            self.kept(k, center, radius),
        ensures
            ({
                let c = coord_of_key(k);
                let g = self.cell_coord(k);
                let s = self.grid_cell_size as int;
                &&& g.x * s <= c.x <= g.x * s + s - 1
                &&& g.y * s <= c.y <= g.y * s + s - 1
                &&& g.z * s <= c.z <= g.z * s + s - 1
                &&& center.x - radius <= c.x <= center.x + radius
                &&& center.y - radius <= c.y <= center.y + radius
                &&& center.z - radius <= c.z <= center.z + radius
                &&& (center.x - radius) / s <= g.x <= (center.x + radius) / s
                &&& (center.y - radius) / s <= g.y <= (center.y + radius) / s
                &&& (center.z - radius) / s <= g.z <= (center.z + radius) / s
            }),
    {
        let c = coord_of_key(k);
        let s = self.grid_cell_size as int;
        lemma_ball_in_cube(c, center, radius);
        lemma_cell_span(c.x as int, s, center.x - radius, center.x + radius);
        lemma_cell_span(c.y as int, s, center.y - radius, center.y + radius);
        lemma_cell_span(c.z as int, s, center.z - radius, center.z + radius);
        lemma_floor_div_bounds(c.x as int, s);
        lemma_floor_div_bounds(c.y as int, s);
        lemma_floor_div_bounds(c.z as int, s);
    }

    /// The keys of the loaded chunks that lie in the ball of `radius` around
    /// `center`, found by visiting only the grid cells that meet the ball's
    /// bounding cube.
    #[verifier::loop_isolation(false)]
    #[verifier::rlimit(30)]
    fn chunks_to_keep(&self, center: IVec3, radius: u32) -> (keep: HashSet<u128>)
        requires
            self.wf(),
            cube_fits(center, radius as int),
        ensures
            forall|k: u128| #[trigger] keep@.contains(k) <==> self.kept(k, center, radius as int),
    {
        let r = radius as i32;
        assert(radius as int * radius as int <= 0xFFFF_FFFF * 0xFFFF_FFFF) by (nonlinear_arith)
            requires
                radius <= 0xFFFF_FFFF,
        ;
        let radius_sq: i128 = radius as i128 * radius as i128;
        let s = self.grid_cell_size;
        let min_x = center.x - r;
        let max_x = center.x + r;
        let min_y = center.y - r;
        let max_y = center.y + r;
        let min_z = center.z - r;
        let max_z = center.z + r;
        let mut keep: HashSet<u128> = HashSet::new();
        let min_cell_x = floor_div(min_x, s) as i64;
        let max_cell_x = floor_div(max_x, s) as i64;
        let min_cell_y = floor_div(min_y, s) as i64;
        let max_cell_y = floor_div(max_y, s) as i64;
        let min_cell_z = floor_div(min_z, s) as i64;
        let max_cell_z = floor_div(max_z, s) as i64;
        proof {
            lemma_floor_div_bounds(min_x as int, s as int);
            lemma_floor_div_bounds(max_x as int, s as int);
            lemma_floor_div_bounds(min_y as int, s as int);
            lemma_floor_div_bounds(max_y as int, s as int);
            lemma_floor_div_bounds(min_z as int, s as int);
            lemma_floor_div_bounds(max_z as int, s as int);
            vstd::arithmetic::div_mod::lemma_div_is_ordered(min_x as int, max_x as int, s as int);
            vstd::arithmetic::div_mod::lemma_div_is_ordered(min_y as int, max_y as int, s as int);
            vstd::arithmetic::div_mod::lemma_div_is_ordered(min_z as int, max_z as int, s as int);
            assert forall|k: u128| #[trigger] self.kept(k, center, radius as int) implies self.cell_coord(k).x >= min_cell_x
                && self.cell_coord(k).y >= min_cell_y && self.cell_coord(k).z >= min_cell_z by {
                self.lemma_kept_cell(k, center, radius as int);
            }
        }
        let s = s as i64;
        let mut cell_x = min_cell_x;
        while cell_x <= max_cell_x
            invariant
                min_cell_x <= cell_x <= max_cell_x + 1,
                forall|k: u128| #[trigger] keep@.contains(k) ==> self.kept(k, center, radius as int),
                forall|k: u128|
                    #![trigger self.kept(k, center, radius as int)]
                    self.kept(k, center, radius as int) && self.cell_coord(k).x < cell_x
                        ==> keep@.contains(k),
            decreases max_cell_x + 1 - cell_x,
        {
            assert(-0x8000_0000 * 0x8000_0000 <= cell_x * s <= 0x8000_0000 * 0x8000_0000) by (nonlinear_arith)
                requires
                    -0x8000_0000 <= cell_x <= 0x8000_0000,
                    1 <= s <= 0x8000_0000,
            ;
            let cell_min_x = cell_x * s;
            let cell_max_x = cell_x * s + s - 1;
            if !(cell_max_x < min_x as i64 || cell_min_x > max_x as i64) {
                let mut cell_y = min_cell_y;
                while cell_y <= max_cell_y
                    invariant
                        min_cell_y <= cell_y <= max_cell_y + 1,
                        forall|k: u128| #[trigger]
                            keep@.contains(k) ==> self.kept(k, center, radius as int),
                        forall|k: u128|
                            #![trigger self.kept(k, center, radius as int)]
                            self.kept(k, center, radius as int) && (self.cell_coord(k).x < cell_x
                                || (self.cell_coord(k).x == cell_x && self.cell_coord(k).y
                                < cell_y)) ==> keep@.contains(k),
                    decreases max_cell_y + 1 - cell_y,
                {
                    assert(-0x8000_0000 * 0x8000_0000 <= cell_y * s <= 0x8000_0000 * 0x8000_0000)
                        by (nonlinear_arith)
                        requires
                            -0x8000_0000 <= cell_y <= 0x8000_0000,
                            1 <= s <= 0x8000_0000,
                    ;
                    let cell_min_y = cell_y * s;
                    let cell_max_y = cell_y * s + s - 1;
                    if !(cell_max_y < min_y as i64 || cell_min_y > max_y as i64) {
                        let mut cell_z = min_cell_z;
                        while cell_z <= max_cell_z
                            invariant
                                min_cell_z <= cell_z <= max_cell_z + 1,
                                forall|k: u128| #[trigger]
                                    keep@.contains(k) ==> self.kept(k, center, radius as int),
                                forall|k: u128|
                                    #![trigger self.kept(k, center, radius as int)]
                                    self.kept(k, center, radius as int) && (self.cell_coord(k).x
                                        < cell_x || (self.cell_coord(k).x == cell_x && (
                                    self.cell_coord(k).y < cell_y || (self.cell_coord(k).y
                                        == cell_y && self.cell_coord(k).z < cell_z))))
                                        ==> keep@.contains(k),
                            decreases max_cell_z + 1 - cell_z,
                        {
                            assert(-0x8000_0000 * 0x8000_0000 <= cell_z * s <= 0x8000_0000 * 0x8000_0000)
                                by (nonlinear_arith)
                                requires
                                    -0x8000_0000 <= cell_z <= 0x8000_0000,
                                    1 <= s <= 0x8000_0000,
                            ;
                            let cell_min_z = cell_z * s;
                            let cell_max_z = cell_z * s + s - 1;
                            if !(cell_max_z < min_z as i64 || cell_min_z > max_z as i64) {
                                let g = key_exec(cell_x as i32, cell_y as i32, cell_z as i32);
                                self.keep_from_cell(g, center, radius_sq, &mut keep);
                            }
                            proof {
                                assert forall|k: u128|
                                    self.kept(k, center, radius as int) && self.cell_coord(k).x
                                        == cell_x && self.cell_coord(k).y == cell_y
                                        && self.cell_coord(k).z == cell_z implies keep@.contains(
                                    k,
                                ) by {
                                    self.lemma_kept_cell(k, center, radius as int);
                                }
                            }
                            cell_z = cell_z + 1;
                        }
                        proof {
                            assert forall|k: u128|
                                self.kept(k, center, radius as int) && self.cell_coord(k).x
                                    == cell_x && self.cell_coord(k).y == cell_y implies keep@.contains(
                                k,
                            ) by {
                                self.lemma_kept_cell(k, center, radius as int);
                            }
                        }
                    } else {
                        proof {
                            assert forall|k: u128|
                                self.kept(k, center, radius as int) && self.cell_coord(k).x
                                    == cell_x && self.cell_coord(k).y == cell_y implies false by {
                                self.lemma_kept_cell(k, center, radius as int);
                            }
                        }
                    }
                    cell_y = cell_y + 1;
                }
                proof {
                    assert forall|k: u128|
                        self.kept(k, center, radius as int) && self.cell_coord(k).x
                            == cell_x implies keep@.contains(k) by {
                        self.lemma_kept_cell(k, center, radius as int);
                    }
                }
            } else {
                proof {
                    assert forall|k: u128|
                        self.kept(k, center, radius as int) && self.cell_coord(k).x
                            == cell_x implies false by {
                        self.lemma_kept_cell(k, center, radius as int);
                    }
                }
            }
            cell_x = cell_x + 1;
        }
        proof {
            assert forall|k: u128| self.kept(k, center, radius as int) implies keep@.contains(k) by {
                self.lemma_kept_cell(k, center, radius as int);
            }
        }
        keep
    }

    /// Unloads every loaded chunk whose key is not in `keep`.
    #[verifier::rlimit(30)]
    fn unload_all_but(&mut self, keep: &HashSet<u128>)
        requires
            old(self).wf(),
        ensures
            final(self).wf(),
            final(self).cell_size() == old(self).cell_size(),
            forall|c: ChunkCoord| #[trigger]
                final(self)@.contains_key(c) <==> old(self)@.contains_key(c) && keep@.contains(
                    key_of(c),
                ),
            forall|c: ChunkCoord| #[trigger]
                final(self)@.contains_key(c) ==> final(self)@[c] == old(self)@[c],
    {
        let mut to_unload: Vec<u128> = Vec::new();
        let ghost mut seen: Set<u128> = Set::empty();
        for k in it: self.chunks.keys()
            invariant
                self.wf(),
                it.seq().unref().to_set() == self.chunks@.dom(),
                seen.subset_of(self.chunks@.dom()),
                forall|j: int| 0 <= j < it.index() ==> seen.contains(#[trigger] *it.seq()[j]),
                forall|x: u128| #[trigger]
                    to_unload@.contains(x) <==> seen.contains(x) && !keep@.contains(x),
        {
            assert(it.seq().unref().to_set().contains(*k));
            if !keep.contains(k) {
                proof {
                    broadcast use vstd::seq_lib::lemma_seq_contains_after_push;

                }
                to_unload.push(*k);
            }
            proof {
                seen = seen.insert(*k);
            }
        }
        assert(self.chunks@.dom().subset_of(seen));
        self.unload_keys(&to_unload);
        assert forall|c: ChunkCoord| #[trigger]
            self@.contains_key(c) <==> old(self)@.contains_key(c) && keep@.contains(key_of(c)) by {
            if old(self)@.contains_key(c) && !keep@.contains(key_of(c)) {
                assert(to_unload@.contains(key_of(c)));
            }
        }
    }

    /// Unloads the chunk of every key in `keys`.
    #[verifier::rlimit(30)]
    fn unload_keys(&mut self, keys: &Vec<u128>)
        requires
            old(self).wf(),
            forall|x: u128| #[trigger]
                keys@.contains(x) ==> old(self).chunks@.contains_key(x),
        ensures
            final(self).wf(),
            final(self).cell_size() == old(self).cell_size(),
            forall|c: ChunkCoord| #[trigger]
                final(self)@.contains_key(c) <==> old(self)@.contains_key(c) && !keys@.contains(
                    key_of(c),
                ),
            forall|c: ChunkCoord| #[trigger]
                final(self)@.contains_key(c) ==> final(self)@[c] == old(self)@[c],
    {
        let ghost mut removed: Set<u128> = Set::empty();
        let mut i: usize = 0;
        while i < keys.len()
            invariant
                self.wf(),
                self.cell_size() == old(self).cell_size(),
                i <= keys.len(),
                forall|x: u128| #[trigger]
                    keys@.contains(x) ==> x < 0x1_0000_0000_0000_0000_0000_0000,
                forall|j: int| 0 <= j < i ==> removed.contains(#[trigger] keys@[j]),
                forall|x: u128| #[trigger] removed.contains(x) ==> keys@.contains(x),
                forall|c: ChunkCoord| #[trigger]
                    self@.contains_key(c) <==> old(self)@.contains_key(c) && !removed.contains(
                        key_of(c),
                    ),
                forall|c: ChunkCoord| #[trigger] self@.contains_key(c) ==> self@[c] == old(self)@[c],
            decreases keys.len() - i,
        {
            let k = keys[i];
            assert(keys@.contains(k));
            let c = coord_from_key(k);
            let ghost prev = self@;
            self.unload_chunk(c);
            proof {
                removed = removed.insert(k);
                assert forall|c2: ChunkCoord| #[trigger]
                    self@.contains_key(c2) <==> old(self)@.contains_key(c2) && !removed.contains(
                        key_of(c2),
                    ) by {
                    lemma_key_of(c2);
                    lemma_key_of(c);
                }
            }
            i = i + 1;
        }
        assert forall|c: ChunkCoord| #[trigger] keys@.contains(key_of(c)) implies removed.contains(
            key_of(c),
        ) by {
            let j = choose|j: int| 0 <= j < keys@.len() && keys@[j] == key_of(c);
            assert(removed.contains(keys@[j]));
        }
    }

    /// Loads every chunk of the ball of `radius` around `center` that is not
    /// loaded yet, skipping whole rows of offsets once a partial sum of
    /// squares already exceeds the squared radius.
    #[verifier::loop_isolation(false)]
    #[verifier::rlimit(30)]
    fn load_ball(&mut self, center: IVec3, radius: u32)
        requires
            old(self).wf(),
            cube_fits(center, radius as int),
            forall|c: ChunkCoord| #[trigger]
                old(self)@.contains_key(c) ==> in_ball(c, center, radius as int),
        ensures
            final(self).wf(),
            final(self).cell_size() == old(self).cell_size(),
            forall|c: ChunkCoord| #[trigger]
                final(self)@.contains_key(c) <==> in_ball(c, center, radius as int),
            forall|c: ChunkCoord| #[trigger]
                old(self)@.contains_key(c) ==> final(self)@[c] == old(self)@[c],
            forall|c: ChunkCoord|
                final(self)@.contains_key(c) && !old(self)@.contains_key(c) ==> is_full_chunk(
                    #[trigger] final(self)@[c],
                    c,
                ),
    {
        let r = radius as i64;
        assert(radius as int * radius as int <= 0xFFFF_FFFF * 0xFFFF_FFFF) by (nonlinear_arith)
            requires
                radius <= 0xFFFF_FFFF,
        ;
        let radius_sq: i128 = radius as i128 * radius as i128;
        assert forall|c: ChunkCoord| #[trigger]
            in_ball(c, center, radius as int) implies c.x - center.x >= -r by {
            lemma_ball_in_cube(c, center, radius as int);
        }
        let mut x: i64 = -r;
        while x <= r
            invariant
                -r <= x <= r + 1,
                self.wf(),
                self.cell_size() == old(self).cell_size(),
                forall|c: ChunkCoord| #[trigger]
                    self@.contains_key(c) ==> in_ball(c, center, radius as int),
                forall|c: ChunkCoord| #[trigger]
                    old(self)@.contains_key(c) ==> self@.contains_key(c) && self@[c] == old(
                        self,
                    )@[c],
                forall|c: ChunkCoord|
                    self@.contains_key(c) && !old(self)@.contains_key(c) ==> is_full_chunk(
                        #[trigger] self@[c],
                        c,
                    ),
                forall|c: ChunkCoord| #[trigger]
                    in_ball(c, center, radius as int) && c.x - center.x < x ==> self@.contains_key(
                        c,
                    ),
            decreases r + 1 - x,
        {
            assert(0 <= x * x <= 0x1_0000_0000 * 0x1_0000_0000) by (nonlinear_arith)
                requires
                    -0x1_0000_0000 <= x <= 0x1_0000_0000,
            ;
            let x_sq = x as i128 * x as i128;
            if x_sq <= radius_sq {
                assert forall|c: ChunkCoord| #[trigger]
                    in_ball(c, center, radius as int) implies c.y - center.y >= -r by {
                    lemma_ball_in_cube(c, center, radius as int);
                }
                let mut y: i64 = -r;
                while y <= r
                    invariant
                        -r <= y <= r + 1,
                        x_sq == x * x,
                        self.wf(),
                        self.cell_size() == old(self).cell_size(),
                        forall|c: ChunkCoord| #[trigger]
                            self@.contains_key(c) ==> in_ball(c, center, radius as int),
                        forall|c: ChunkCoord| #[trigger]
                            old(self)@.contains_key(c) ==> self@.contains_key(c) && self@[c] == old(
                                self,
                            )@[c],
                        forall|c: ChunkCoord|
                            self@.contains_key(c) && !old(self)@.contains_key(c) ==> is_full_chunk(
                                #[trigger] self@[c],
                                c,
                            ),
                        forall|c: ChunkCoord| #[trigger]
                            in_ball(c, center, radius as int) && (c.x - center.x < x || (c.x
                                - center.x == x && c.y - center.y < y)) ==> self@.contains_key(c),
                    decreases r + 1 - y,
                {
                    assert(0 <= y * y <= 0x1_0000_0000 * 0x1_0000_0000) by (nonlinear_arith)
                        requires
                            -0x1_0000_0000 <= y <= 0x1_0000_0000,
                    ;
                    let xy_sq = x_sq + y as i128 * y as i128;
                    if xy_sq <= radius_sq {
                        assert forall|c: ChunkCoord| #[trigger]
                            in_ball(c, center, radius as int) implies c.z - center.z >= -r by {
                            lemma_ball_in_cube(c, center, radius as int);
                        }
                        let mut z: i64 = -r;
                        while z <= r
                            invariant
                                -r <= z <= r + 1,
                                xy_sq == x * x + y * y,
                                self.wf(),
                                self.cell_size() == old(self).cell_size(),
                                forall|c: ChunkCoord| #[trigger]
                                    self@.contains_key(c) ==> in_ball(c, center, radius as int),
                                forall|c: ChunkCoord| #[trigger]
                                    old(self)@.contains_key(c) ==> self@.contains_key(c)
                                        && self@[c] == old(self)@[c],
                                forall|c: ChunkCoord|
                                    self@.contains_key(c) && !old(self)@.contains_key(c)
                                        ==> is_full_chunk(#[trigger] self@[c], c),
                                forall|c: ChunkCoord| #[trigger]
                                    in_ball(c, center, radius as int) && (c.x - center.x < x || (
                                    c.x - center.x == x && (c.y - center.y < y || (c.y - center.y
                                        == y && c.z - center.z < z)))) ==> self@.contains_key(c),
                            decreases r + 1 - z,
                        {
                            assert(0 <= z * z <= 0x1_0000_0000 * 0x1_0000_0000)
                                by (nonlinear_arith)
                                requires
                                    -0x1_0000_0000 <= z <= 0x1_0000_0000,
                            ;
                            if xy_sq + z as i128 * z as i128 <= radius_sq {
                                let chunk_coord = ChunkCoord::new(
                                    (center.x as i64 + x) as i32,
                                    (center.y as i64 + y) as i32,
                                    (center.z as i64 + z) as i32,
                                );
                                if self.get_chunk(chunk_coord).is_none() {
                                    self.load_chunk(chunk_coord);
                                }
                            } else {
                                assert forall|c: ChunkCoord|
                                    c.x - center.x == x && c.y - center.y == y && c.z - center.z
                                        == z implies !#[trigger] in_ball(c, center, radius as int) by {
                                }
                            }
                            z = z + 1;
                        }
                        assert forall|c: ChunkCoord|
                            #[trigger] in_ball(c, center, radius as int) && c.x - center.x == x
                                && c.y - center.y == y implies self@.contains_key(c) by {
                            lemma_ball_in_cube(c, center, radius as int);
                        }
                    } else {
                        assert forall|c: ChunkCoord|
                            c.x - center.x == x && c.y - center.y == y implies !#[trigger] in_ball(
                            c,
                            center,
                            radius as int,
                        ) by {
                            lemma_square_nonneg(c.z - center.z);
                        }
                    }
                    y = y + 1;
                }
                assert forall|c: ChunkCoord|
                    #[trigger] in_ball(c, center, radius as int) && c.x - center.x
                        == x implies self@.contains_key(c) by {
                    lemma_ball_in_cube(c, center, radius as int);
                }
            } else {
                assert forall|c: ChunkCoord|
                    c.x - center.x == x implies !#[trigger] in_ball(c, center, radius as int) by {
                    lemma_square_nonneg(c.y - center.y);
                    lemma_square_nonneg(c.z - center.z);
                }
            }
            x = x + 1;
        }
        assert forall|c: ChunkCoord| #[trigger]
            in_ball(c, center, radius as int) implies self@.contains_key(c) by {
            lemma_ball_in_cube(c, center, radius as int);
        }
    }

    /// Streams chunks around `center`: afterwards exactly the chunks of the
    /// closed ball of `radius` around `center` are loaded. Chunks of the ball
    /// that were already loaded are kept as they were, the others are
    /// generated, and every chunk outside the ball is unloaded.
    pub fn update_loaded_chunks(&mut self, center: IVec3, radius: u32)
        requires
            old(self).wf(),
            cube_fits(center, radius as int),
        ensures
            final(self).wf(),
            final(self).cell_size() == old(self).cell_size(),
            streamed(old(self)@, final(self)@, center, radius as int),
    {
        let keep = self.chunks_to_keep(center, radius);
        let ghost start = self@;
        self.unload_all_but(&keep);
        assert forall|c: ChunkCoord| #[trigger]
            self@.contains_key(c) <==> start.contains_key(c) && in_ball(c, center, radius as int) by {
            lemma_key_of(c);
        }
        let ghost evicted = self@;
        self.load_ball(center, radius);
        assert(self@.dom() =~= ball(center, radius as int));
        assert forall|c: ChunkCoord|
            start.contains_key(c) && in_ball(c, center, radius as int) implies #[trigger] self@[c]
            == start[c] by {
            assert(evicted.contains_key(c));
        }
    }

    /// Generates the chunk at `chunk_coord` and installs it; returns whether
    /// a chunk was obtained, which generation currently always achieves.
    #[inline]
    pub fn load_chunk(&mut self, chunk_coord: ChunkCoord) -> (r: bool)
        requires
            old(self).wf(),
        ensures
            final(self).wf(),
            final(self).cell_size() == old(self).cell_size(),
            r,
            final(self)@.contains_key(chunk_coord),
            is_full_chunk(final(self)@[chunk_coord], chunk_coord),
            final(self)@ == old(self)@.insert(chunk_coord, final(self)@[chunk_coord]),
    {
        match Chunk::load(chunk_coord) {
            Some(chunk) => {
                self.set_chunk(chunk_coord, chunk);
                true
            },
            None => false,
        }
    }
}

} // verus!
