//! Tile-index to texture-coordinate mapping of the spritesheet fragment
//! stage, stated exactly over integers.
//!
//! The shader maps a tile index to a UV sub-rectangle assuming row-major
//! tiling: `u_origin = (tile_index mod width) / width` and
//! `v_origin = (tile_index div width) / height`. The divisions by the grid
//! dimensions are performed in floating point on the GPU; everything before
//! them is integer arithmetic, which is computed and verified here. The
//! origin is returned as two exact fractions.

use vstd::prelude::*;

verus! {

/// UV origin of one tile, as exact fractions
/// `u = u_numerator / u_denominator`, `v = v_numerator / v_denominator`.
#[derive(Clone, Copy, PartialEq, Eq, Structural, Debug)]
pub struct TileUvOrigin {
    pub u_numerator: u32,
    pub u_denominator: u32,
    pub v_numerator: u32,
    pub v_denominator: u32,
}

/// Row-major UV origin of tile `tile_index` in a `width_tiles` by
/// `height_tiles` grid: `u = (tile_index mod width) / width`,
/// `v = (tile_index div width) / height`.
pub fn tile_uv_origin(tile_index: u32, width_tiles: u32, height_tiles: u32) -> (r: TileUvOrigin)
    requires
        width_tiles > 0,
        height_tiles > 0,
    ensures
        r.u_numerator == tile_index as int % width_tiles as int,
        r.u_denominator == width_tiles,
        r.v_numerator == tile_index as int / width_tiles as int,
        r.v_denominator == height_tiles,
        r.u_numerator < width_tiles,
{
    TileUvOrigin {
        u_numerator: tile_index % width_tiles,
        u_denominator: width_tiles,
        v_numerator: tile_index / width_tiles,
        v_denominator: height_tiles,
    }
}

} // verus!
