//! The ball of chunks that streaming keeps loaded around a center, and the
//! relation between the chunks loaded before and after one streaming pass.

use vstd::prelude::*;

use crate::chunk::{is_full_chunk, Chunk};
use crate::coord::{fits_i32, ChunkCoord, IVec3};
use crate::key::{coord_from_key, coord_of_key};

verus! {

/// Squared Euclidean distance, in chunks, from chunk `c` to chunk `center`.
pub open spec fn sq_dist(c: ChunkCoord, center: IVec3) -> int {
    (c.x - center.x) * (c.x - center.x) + (c.y - center.y) * (c.y - center.y) + (c.z - center.z) * (
    c.z - center.z)
}

/// Whether chunk `c` lies in the closed ball of `radius` around `center`.
pub open spec fn in_ball(c: ChunkCoord, center: IVec3, radius: int) -> bool {
    sq_dist(c, center) <= radius * radius
}

/// The chunks of the closed ball of `radius` around `center`.
pub open spec fn ball(center: IVec3, radius: int) -> Set<ChunkCoord> {
    Set::new(|c: ChunkCoord| in_ball(c, center, radius))
}

/// Whether `after` is what streaming around `center` with `radius` leaves
/// when `before` was loaded: exactly the chunks of the ball, those that were
/// loaded kept unchanged, the others freshly generated.
pub open spec fn streamed(
    before: Map<ChunkCoord, Chunk>,
    after: Map<ChunkCoord, Chunk>,
    center: IVec3,
    radius: int,
) -> bool {
    &&& after.dom() == ball(center, radius)
    &&& forall|c: ChunkCoord| #[trigger]
        before.contains_key(c) && in_ball(c, center, radius) ==> after[c] == before[c]
    &&& forall|c: ChunkCoord|
        after.contains_key(c) && !before.contains_key(c) ==> is_full_chunk(#[trigger] after[c], c)
}

/// Streaming is idempotent: a second pass with the same center and radius
/// loads and unloads nothing, leaving the chunks exactly as the first left them.
pub proof fn lemma_streaming_idempotent(
    w0: Map<ChunkCoord, Chunk>,
    w1: Map<ChunkCoord, Chunk>,
    w2: Map<ChunkCoord, Chunk>,
    center: IVec3,
    radius: int,
)
    requires
        streamed(w0, w1, center, radius),
        streamed(w1, w2, center, radius),
    ensures
        w2 == w1,
{
    assert forall|c: ChunkCoord| w1.contains_key(c) implies #[trigger] w2[c] == w1[c] by {
        assert(w1.dom().contains(c));
    }
    assert(w2 =~= w1);
}

/// Whether the cube of half-width `radius` around `center` stays within `i32`.
pub open spec fn cube_fits(center: IVec3, radius: int) -> bool {
    &&& fits_i32(center.x - radius) && fits_i32(center.x + radius)
    &&& fits_i32(center.y - radius) && fits_i32(center.y + radius)
    &&& fits_i32(center.z - radius) && fits_i32(center.z + radius)
}

/// Squared distance from the chunk with key `k` to `center`.
pub(crate) fn sq_dist_exec(k: u128, center: IVec3) -> (r: i128)
    requires
        k < 0x1_0000_0000_0000_0000_0000_0000,
    ensures
        r == sq_dist(coord_of_key(k), center),
{
    let c = coord_from_key(k);
    let dx = c.x as i128 - center.x as i128;
    let dy = c.y as i128 - center.y as i128;
    let dz = c.z as i128 - center.z as i128;
    assert(0 <= dx * dx < 0x1_0000_0000_0000_0000 && 0 <= dy * dy < 0x1_0000_0000_0000_0000 && 0
        <= dz * dz < 0x1_0000_0000_0000_0000) by (nonlinear_arith)
        requires
            -0x1_0000_0000 < dx < 0x1_0000_0000,
            -0x1_0000_0000 < dy < 0x1_0000_0000,
            -0x1_0000_0000 < dz < 0x1_0000_0000,
    ;
    dx * dx + dy * dy + dz * dz
}

/// A chunk of the ball lies in the cube of the same half-width.
pub(crate) proof fn lemma_ball_in_cube(c: ChunkCoord, center: IVec3, radius: int)
    requires
        radius >= 0,
        in_ball(c, center, radius),
    ensures
        center.x - radius <= c.x <= center.x + radius,
        center.y - radius <= c.y <= center.y + radius,
        center.z - radius <= c.z <= center.z + radius,
{
    let dx = c.x - center.x;
    let dy = c.y - center.y;
    let dz = c.z - center.z;
    assert(-radius <= dx <= radius && -radius <= dy <= radius && -radius <= dz <= radius)
        by (nonlinear_arith)
        requires
            dx * dx + dy * dy + dz * dz <= radius * radius,
            radius >= 0,
    ;
}

pub(crate) proof fn lemma_square_nonneg(v: int)
    ensures
        v * v >= 0,
{
    assert(v * v >= 0) by (nonlinear_arith);
}

/// The cell `v / s` of a value `v` spans `(v / s) * s ..= (v / s) * s + s - 1`,
/// and the cell of a value between `lo` and `hi` lies between theirs.
pub(crate) proof fn lemma_cell_span(v: int, s: int, lo: int, hi: int)
    requires
        s >= 1,
        lo <= v <= hi,
    ensures
        (v / s) * s <= v <= (v / s) * s + s - 1,
        lo / s <= v / s <= hi / s,
{
    vstd::arithmetic::div_mod::lemma_fundamental_div_mod(v, s);
    vstd::arithmetic::div_mod::lemma_div_is_ordered(lo, v, s);
    vstd::arithmetic::div_mod::lemma_div_is_ordered(v, hi, s);
    assert((v / s) * s == s * (v / s)) by (nonlinear_arith);
}

} // verus!
