use vstd::arithmetic::power2::{lemma2_to64, lemma_pow2_strictly_increases, lemma_pow2_unfold, pow2};
use vstd::bits::lemma_u32_shl_is_mul;
use vstd::prelude::*;

verus! {

/// Width of one tile in pixels; the whole map at level 0 is one tile.
pub const TILE_SIZE: u32 = 256;

/// Highest zoom level whose map width still fits in a `u32`.
pub const MAX_LEVEL: u16 = 23;

/// Width (and height) in pixels of the whole map at zoom `level`.
pub open spec fn map_size_spec(level: nat) -> nat {
    256 * pow2(level)
}

/// `min(hi, max(lo, n))`: `n` clamped into `[lo, hi]` when `lo <= hi`.
pub open spec fn clip_spec(n: int, lo: int, hi: int) -> int {
    let m = if n < lo {
        lo
    } else {
        n
    };
    if m > hi {
        hi
    } else {
        m
    }
}

/// `p` clamped to a coordinate of the map at zoom `level`.
pub open spec fn clip_to_map_spec(p: int, level: nat) -> int {
    clip_spec(p, 0, map_size_spec(level) - 1)
}

/// The map width at any level up to `MAX_LEVEL` fits in a `u32`.
pub proof fn lemma_map_size_bounds(level: nat)
    requires
        level <= MAX_LEVEL,
    ensures
        256 <= map_size_spec(level) <= 0x8000_0000,
{
    lemma2_to64();
    if level < 23 {
        lemma_pow2_strictly_increases(level, 23);
    }
    if level > 0 {
        lemma_pow2_strictly_increases(0, level);
    }
}

/// Width and height of the map at zoom `level`: `256 << level`.
pub fn map_size(level: u16) -> (r: u32)
    requires
        level <= MAX_LEVEL,
    ensures
        r == map_size_spec(level as nat),
{
    proof {
        lemma_map_size_bounds(level as nat);
        lemma_u32_shl_is_mul(TILE_SIZE, level as u32);
    }
    TILE_SIZE << (level as u32)
}

/// Each zoom level doubles the width of the map.
pub proof fn lemma_map_size_doubles(level: nat)
    ensures
        map_size_spec(level + 1) == 2 * map_size_spec(level),
{
    lemma_pow2_unfold(level + 1);
}

/// A clamped value lies in the interval whenever the interval is not empty.
pub proof fn lemma_clip_in_range(n: int, lo: int, hi: int)
    requires
        lo <= hi,
    ensures
        lo <= clip_spec(n, lo, hi) <= hi,
        lo <= n <= hi ==> clip_spec(n, lo, hi) == n,
{
}

/// `n` clamped into `[lo, hi]`, written as `min(hi, max(lo, n))`.
pub fn clip(n: i64, lo: i64, hi: i64) -> (r: i64)
    ensures
        r == clip_spec(n as int, lo as int, hi as int),
{
    let m = if n < lo {
        lo
    } else {
        n
    };
    if m > hi {
        hi
    } else {
        m
    }
}

/// Clamps both coordinates of `pixel` into the map at zoom `level`, so that
/// each lies in `[0, map_size(level) - 1]`.
pub fn clip_pixel(pixel: (i64, i64), level: u16) -> (r: (i64, i64))
    requires
        level <= MAX_LEVEL,
    ensures
        r.0 == clip_to_map_spec(pixel.0 as int, level as nat),
        r.1 == clip_to_map_spec(pixel.1 as int, level as nat),
        0 <= r.0 < map_size_spec(level as nat),
        0 <= r.1 < map_size_spec(level as nat),
{
    let size = map_size(level);
    proof {
        lemma_map_size_bounds(level as nat);
        lemma_clip_in_range(pixel.0 as int, 0, size - 1);
        lemma_clip_in_range(pixel.1 as int, 0, size - 1);
    }
    let hi = size as i64 - 1;
    (clip(pixel.0, 0, hi), clip(pixel.1, 0, hi))
}

} // verus!
