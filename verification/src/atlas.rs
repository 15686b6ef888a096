//! Mapping from a raw tile identifier (GID) to the atlas cell it samples.
//!
//! A GID is 1-based: 0 means "empty cell", real tiles start at 1. The atlas
//! is a grid of `atlas_w x atlas_h` cells; the returned row is measured from
//! the bottom of the atlas (texture-space Y runs upward, authoring order runs
//! downward, so the row index is flipped).

use vstd::prelude::*;

verus! {

/// One entry of the tile table: the zero-based atlas cell `(col, row)` that a
/// map cell samples. The empty sentinel is `(0, 0)`.
#[derive(Clone, Copy, PartialEq, Eq, Structural, Debug)]
pub struct TileCell {
    pub col: u32,
    pub row: u32,
}

/// The cell a GID maps to: `(0, 0)` for the empty GID 0, otherwise
/// `((gid-1) mod atlas_w, (atlas_h-1) - (gid-1) / atlas_w)`.
pub open spec fn atlas_cell_spec(gid: int, atlas_w: int, atlas_h: int) -> TileCell {
    if gid == 0 {
        TileCell { col: 0, row: 0 }
    } else {
        TileCell {
            col: ((gid - 1) % atlas_w) as u32,
            row: (atlas_h - 1 - (gid - 1) / atlas_w) as u32,
        }
    }
}

/// A GID is valid for an atlas when it is 0 (empty) or names one of the
/// `atlas_w * atlas_h` cells.
pub open spec fn gid_in_range(gid: int, atlas_w: int, atlas_h: int) -> bool {
    0 <= gid <= atlas_w * atlas_h
}

/// Converts a raw tile identifier into the atlas cell to sample.
///
/// The `gid - 1` shift is load-bearing: map formats reserve GID 0 for "no
/// tile" and start real tiles at 1, so using `gid` unshifted would misalign
/// every lookup by one atlas cell.
pub fn atlas_index(gid: u32, atlas_w: u32, atlas_h: u32) -> (cell: TileCell)
    requires
        1 <= atlas_w,
        1 <= atlas_h,
        gid_in_range(gid as int, atlas_w as int, atlas_h as int),
    ensures
        cell == atlas_cell_spec(gid as int, atlas_w as int, atlas_h as int),
{
    if gid == 0 {
        TileCell { col: 0, row: 0 }
    } else {
        let col = (gid - 1) % atlas_w;
        let q = (gid - 1) / atlas_w;
        proof {
            lemma_div_stays_below((gid - 1) as int, atlas_w as int, atlas_h as int);
        }
        let row = (atlas_h - 1) - q;
        TileCell { col, row }
    }
}

/// For `0 <= x < d * bound` with `d >= 1`, the quotient `x / d` is below
/// `bound`.
pub(crate) proof fn lemma_div_stays_below(x: int, d: int, bound: int)
    requires
        1 <= d,
        0 <= x < d * bound,
    ensures
        x / d < bound,
{
    vstd::arithmetic::div_mod::lemma_fundamental_div_mod(x, d);
    vstd::arithmetic::div_mod::lemma_mod_bound(x, d);
    assert(x / d < bound) by (nonlinear_arith)
        requires
            1 <= d,
            d * (x / d) + x % d == x,
            0 <= x % d,
            x < d * bound,
    ;
}

/// Every valid GID maps into the atlas: the column is below `atlas_w` and the
/// row below `atlas_h`, the empty sentinel included.
pub proof fn lemma_atlas_cell_in_range(gid: int, atlas_w: int, atlas_h: int)
    requires
        1 <= atlas_w,
        1 <= atlas_h,
        gid_in_range(gid, atlas_w, atlas_h),
    ensures
        atlas_cell_spec(gid, atlas_w, atlas_h).col < atlas_w,
        atlas_cell_spec(gid, atlas_w, atlas_h).row < atlas_h,
{
    if gid != 0 {
        vstd::arithmetic::div_mod::lemma_mod_bound(gid - 1, atlas_w);
        lemma_div_stays_below(gid - 1, atlas_w, atlas_h);
        vstd::arithmetic::div_mod::lemma_div_pos_is_pos(gid - 1, atlas_w);
    }
}

/// The empty GID always maps to the designated sentinel cell `(0, 0)`.
pub proof fn lemma_atlas_empty_sentinel(atlas_w: int, atlas_h: int)
    ensures
        atlas_cell_spec(0, atlas_w, atlas_h) == (TileCell { col: 0, row: 0 }),
{
}

} // verus!
