use vstd::prelude::*;

use crate::config::{MAX_SCALE, MIN_SCALE};

verus! {

/// The integer upscale factor for a window that fits `fit_x` whole copies
/// of the game's width and `fit_y` of its height: the smaller of the two,
/// kept within `MIN_SCALE..=MAX_SCALE`.
pub open spec fn spec_integer_scale(fit_x: u32, fit_y: u32) -> u32 {
    let m = if fit_x < fit_y {
        fit_x
    } else {
        fit_y
    };
    if m < MIN_SCALE {
        MIN_SCALE
    } else if m > MAX_SCALE {
        MAX_SCALE
    } else {
        m
    }
}

pub fn integer_scale(fit_x: u32, fit_y: u32) -> (s: u32)
    ensures
        s == spec_integer_scale(fit_x, fit_y),
        MIN_SCALE <= s <= MAX_SCALE,
{
    let m = if fit_x < fit_y {
        fit_x
    } else {
        fit_y
    };
    if m < MIN_SCALE {
        MIN_SCALE
    } else if m > MAX_SCALE {
        MAX_SCALE
    } else {
        m
    }
}

/// The scaled game never overflows the window: whenever the window holds
/// at least one copy of the game each way, the chosen scale fits both ways.
pub proof fn scale_fits_window(fit_x: u32, fit_y: u32)
    requires
        fit_x >= MIN_SCALE,
        fit_y >= MIN_SCALE,
    ensures
        spec_integer_scale(fit_x, fit_y) <= fit_x,
        spec_integer_scale(fit_x, fit_y) <= fit_y,
{
}

/// A column of tiles `(top row, rows drawn)` that fills the rows
/// `start..end` exactly: the first tile starts at `start`, each tile starts
/// where the one before ended, all are `tile_h` rows tall but the last, which
/// is clipped to the rows left, and the last ends at `end`.
pub open spec fn is_tile_column(tiles: Seq<(u32, u32)>, start: u32, end: u32, tile_h: u32) -> bool {
    &&& (start >= end <==> tiles.len() == 0)
    &&& tiles.len() > 0 ==> tiles[0].0 == start
    &&& forall|i: int|
        0 <= i < tiles.len() - 1 ==> #[trigger] tiles[i + 1].0 == tiles[i].0 + tiles[i].1
    &&& forall|i: int| 0 <= i < tiles.len() - 1 ==> #[trigger] tiles[i].1 == tile_h
    &&& forall|i: int| 0 <= i < tiles.len() ==> 0 < #[trigger] tiles[i].1 <= tile_h
    &&& tiles.len() > 0 ==> tiles.last().0 + tiles.last().1 == end
}

/// Tiles the rail wall down the rows `start..end` (see `is_tile_column`).
pub fn tile_column(start: u32, end: u32, tile_h: u32) -> (tiles: Vec<(u32, u32)>)
    requires
        tile_h > 0,
    ensures
        is_tile_column(tiles@, start, end, tile_h),
{
    let mut tiles: Vec<(u32, u32)> = Vec::new();
    let mut y: u32 = start;
    while y < end
        invariant
            start <= y,
            tile_h > 0,
            start < end ==> y <= end,
            start >= end ==> y == start,
            tiles@.len() == 0 <==> y == start,
            tiles@.len() > 0 ==> tiles@[0].0 == start,
            tiles@.len() > 0 ==> tiles@.last().0 + tiles@.last().1 == y,
            forall|i: int|
                0 <= i < tiles@.len() - 1 ==> #[trigger] tiles@[i + 1].0 == tiles@[i].0
                    + tiles@[i].1,
            forall|i: int| 0 <= i < tiles@.len() ==> #[trigger] tiles@[i].1 == tile_h,
        decreases end - y,
    {
        let avail = end - y;
        if avail >= tile_h {
            tiles.push((y, tile_h));
            y = y + tile_h;
        } else {
            tiles.push((y, avail));
            y = end;
            proof {
                assert(forall|i: int|
                    0 <= i < tiles@.len() - 1 ==> #[trigger] tiles@[i].1 == tile_h);
            }
            return tiles;
        }
    }
    tiles
}

} // verus!
