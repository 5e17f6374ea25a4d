//! Integer keys for chunk and grid-cell coordinates: the hash maps of the
//! world are keyed by these, and the two lemmas here make the encoding a
//! bijection between `i32` triples and the keys below 2^96.

use vstd::arithmetic::div_mod::{lemma_div_denominator, lemma_fundamental_div_mod_converse};
use vstd::prelude::*;

use crate::coord::ChunkCoord;

verus! {

/// Code of the integer triple `(x, y, z)`: each axis is biased by 2^31 into
/// `0..2^32` and the three are laid side by side in 96 bits, X highest.
pub(crate) open spec fn key3(x: int, y: int, z: int) -> int {
    (x + 0x8000_0000) * 0x1_0000_0000_0000_0000 + (y + 0x8000_0000) * 0x1_0000_0000 + (z
        + 0x8000_0000)
}

/// Hash-map key of a chunk coordinate (or of a grid cell).
pub(crate) open spec fn key_of(c: ChunkCoord) -> u128 {
    key3(c.x as int, c.y as int, c.z as int) as u128
}

/// The coordinate that a key below 2^96 stands for.
pub(crate) open spec fn coord_of_key(k: u128) -> ChunkCoord {
    ChunkCoord {
        x: (k as int / 0x1_0000_0000_0000_0000 - 0x8000_0000) as i32,
        y: ((k as int / 0x1_0000_0000) % 0x1_0000_0000 - 0x8000_0000) as i32,
        z: (k as int % 0x1_0000_0000 - 0x8000_0000) as i32,
    }
}

/// A coordinate's key is below 2^96 and decodes back to the coordinate.
pub(crate) proof fn lemma_key_of(c: ChunkCoord)
    ensures
        key_of(c) as int == key3(c.x as int, c.y as int, c.z as int),
        key_of(c) < 0x1_0000_0000_0000_0000_0000_0000,
        coord_of_key(key_of(c)) == c,
{
    let a = c.x + 0x8000_0000;
    let b = c.y + 0x8000_0000;
    let d = c.z + 0x8000_0000;
    let k = key3(c.x as int, c.y as int, c.z as int);
    assert(0 <= k < 0x1_0000_0000_0000_0000_0000_0000 && k == (a * 0x1_0000_0000 + b)
        * 0x1_0000_0000 + d && k == a * 0x1_0000_0000_0000_0000 + (b * 0x1_0000_0000 + d) && b
        * 0x1_0000_0000 + d < 0x1_0000_0000_0000_0000) by (nonlinear_arith)
        requires
            0 <= a < 0x1_0000_0000,
            0 <= b < 0x1_0000_0000,
            0 <= d < 0x1_0000_0000,
            k == a * 0x1_0000_0000_0000_0000 + b * 0x1_0000_0000 + d,
    ;
    lemma_fundamental_div_mod_converse(k, 0x1_0000_0000, a * 0x1_0000_0000 + b, d);
    lemma_fundamental_div_mod_converse(a * 0x1_0000_0000 + b, 0x1_0000_0000, a, b);
    lemma_fundamental_div_mod_converse(k, 0x1_0000_0000_0000_0000, a, b * 0x1_0000_0000 + d);
}

/// Every key below 2^96 is the key of the coordinate it decodes to.
pub(crate) proof fn lemma_key_inverse(k: u128)
    requires
        k < 0x1_0000_0000_0000_0000_0000_0000,
    ensures
        key_of(coord_of_key(k)) == k,
{
    let q1 = k as int / 0x1_0000_0000;
    let d = k as int % 0x1_0000_0000;
    let q2 = q1 / 0x1_0000_0000;
    let b = q1 % 0x1_0000_0000;
    lemma_div_denominator(k as int, 0x1_0000_0000, 0x1_0000_0000);
    assert(k as int == q1 * 0x1_0000_0000 + d && q1 == q2 * 0x1_0000_0000 + b) by {
        vstd::arithmetic::div_mod::lemma_fundamental_div_mod(k as int, 0x1_0000_0000);
        vstd::arithmetic::div_mod::lemma_fundamental_div_mod(q1, 0x1_0000_0000);
    }
    assert(k as int == q2 * 0x1_0000_0000_0000_0000 + b * 0x1_0000_0000 + d && 0 <= q2
        < 0x1_0000_0000) by (nonlinear_arith)
        requires
            k as int == q1 * 0x1_0000_0000 + d,
            q1 == q2 * 0x1_0000_0000 + b,
            0 <= b < 0x1_0000_0000,
            0 <= d < 0x1_0000_0000,
            0 <= k < 0x1_0000_0000_0000_0000_0000_0000,
    ;
}

/// Hash-map key of a coordinate.
pub(crate) fn key_exec(x: i32, y: i32, z: i32) -> (r: u128)
    ensures
        r == key_of(ChunkCoord { x, y, z }),
{
    proof {
        lemma_key_of(ChunkCoord { x, y, z });
    }
    let a = (x as i64 + 0x8000_0000) as u128;
    let b = (y as i64 + 0x8000_0000) as u128;
    let d = (z as i64 + 0x8000_0000) as u128;
    assert(a * 0x1_0000_0000_0000_0000 + b * 0x1_0000_0000 + d < 0x1_0000_0000_0000_0000_0000_0000)
        by (nonlinear_arith)
        requires
            a < 0x1_0000_0000,
            b < 0x1_0000_0000,
            d < 0x1_0000_0000,
    ;
    a * 0x1_0000_0000_0000_0000 + b * 0x1_0000_0000 + d
}

/// The coordinate that key `k` stands for.
pub(crate) fn coord_from_key(k: u128) -> (r: ChunkCoord)
    requires
        k < 0x1_0000_0000_0000_0000_0000_0000,
    ensures
        r == coord_of_key(k),
        key_of(r) == k,
{
    proof {
        lemma_key_inverse(k);
    }
    let x = ((k / 0x1_0000_0000_0000_0000) as i64 - 0x8000_0000) as i32;
    let y = (((k / 0x1_0000_0000) % 0x1_0000_0000) as i64 - 0x8000_0000) as i32;
    let z = ((k % 0x1_0000_0000) as i64 - 0x8000_0000) as i32;
    ChunkCoord { x, y, z }
}

/// Floor division of `v` by the positive `s`.
pub(crate) fn floor_div(v: i32, s: i32) -> (r: i32)
    requires
        s >= 1,
    ensures
        r == v as int / s as int,
{
    proof {
        lemma_floor_div_bounds(v as int, s as int);
    }
    v.checked_div_euclid(s).unwrap()
}

pub(crate) proof fn lemma_floor_div_bounds(v: int, s: int)
    requires
        s >= 1,
    ensures
        v >= 0 ==> 0 <= v / s <= v,
        v < 0 ==> v <= v / s < 0,
{
    if v >= 0 {
        vstd::arithmetic::div_mod::lemma_div_pos_is_pos(v, s);
        vstd::arithmetic::div_mod::lemma_div_is_ordered_by_denominator(v, 1, s);
    } else {
        vstd::arithmetic::div_mod::lemma_fundamental_div_mod(v, s);
        assert(v <= v / s < 0) by (nonlinear_arith)
            requires
                v == s * (v / s) + v % s,
                0 <= v % s < s,
                s >= 1,
                v < 0,
        ;
    }
}

} // verus!
