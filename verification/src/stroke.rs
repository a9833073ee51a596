//! The stroke rule engine: a pure per-pixel predicate deciding whether a
//! pixel of a tile belongs to a drawn stroke.
//!
//! A tile is split into an upper and a lower half. Each half renders one
//! selector (an integer taken from a symbolic code) in the half's own local
//! coordinate frame. A selector switches on a subset of ten geometric
//! predicates (horizontal bars, side bars, half and full diagonals); a pixel
//! inside the padded interior rectangle is a stroke exactly when some active
//! predicate fires.

use vstd::prelude::*;

verus! {

/// Numerator of the exact decimal expansion 1.4142135623730951 of the
/// square root of two, used to widen diagonal stroke thresholds.
pub const SQRT2_NUM: u128 = 14142135623730951;

/// Denominator of the decimal expansion: ten to the sixteenth power.
pub const SQRT2_DEN: u128 = 10000000000000000;

/// Style parameters for rendering. All sizes are in pixels.
pub struct Config {
    /// Columns to wrap text at (tiles per row of the grid).
    pub max_columns: u32,
    /// Edge length of one square tile; assumed even.
    pub tile_size: u32,
    /// Inner margin at the top and bottom of each tile half.
    pub padding: u32,
    /// Additional inner margin at the left and right sides.
    pub padding_side: u32,
    /// Stroke width.
    pub stroke: u32,
}

impl Config {
    /// Geometric sanity of the style: an even tile size, at least one
    /// column, and paddings small enough that the interior rectangle
    /// bounds do not underflow.
    pub open spec fn wf(&self) -> bool {
        &&& self.tile_size % 2 == 0
        &&& self.padding + 1 <= self.tile_size / 2
        &&& self.padding + self.padding_side + 1 <= self.tile_size
        &&& 1 <= self.max_columns
    }
}

/// Half the tile edge: the height of one tile half.
pub open spec fn tile_half(c: Config) -> int {
    c.tile_size as int / 2
}

/// Top bound of the padded interior rectangle of a tile half.
pub open spec fn interior_top(c: Config) -> int {
    c.padding as int
}

/// Bottom bound of the padded interior rectangle of a tile half.
pub open spec fn interior_bottom(c: Config) -> int {
    tile_half(c) - 1 - c.padding
}

/// Left bound of the padded interior rectangle.
pub open spec fn interior_left(c: Config) -> int {
    c.padding + c.padding_side
}

/// Right bound of the padded interior rectangle.
pub open spec fn interior_right(c: Config) -> int {
    c.tile_size - 1 - c.padding - c.padding_side
}

/// Whether local coordinates `(x, ly)` of a tile half lie inside the
/// padded interior rectangle. Pixels outside are always background.
pub open spec fn in_interior(c: Config, x: int, ly: int) -> bool {
    &&& interior_left(c) <= x <= interior_right(c)
    &&& interior_top(c) <= ly <= interior_bottom(c)
}

/// The stroke width scaled by the square root of two, truncated toward
/// zero: the threshold used by the side-bar predicate.
pub open spec fn sqrt2_scaled(s: int) -> int {
    s * (SQRT2_NUM as int) / (SQRT2_DEN as int)
}

/// Horizontal bar at the top edge of the interior.
pub open spec fn top_bar(c: Config, ly: int) -> bool {
    vstd::math::abs(ly - interior_top(c)) < c.stroke
}

/// Horizontal bar at the bottom edge of the interior.
pub open spec fn bottom_bar(c: Config, ly: int) -> bool {
    vstd::math::abs(ly - interior_bottom(c)) < c.stroke
}

/// Vertical bars at both side edges of the interior, widened by the
/// square root of two.
pub open spec fn side_bars(c: Config, x: int) -> bool {
    vstd::math::min(
        vstd::math::abs(x - interior_right(c)) as int,
        vstd::math::abs(x - interior_left(c)) as int,
    ) < sqrt2_scaled(c.stroke as int)
}

/// Upper-left diagonal, active only in the right part of the half.
pub open spec fn upper_left_diag(c: Config, x: int, ly: int) -> bool {
    x > tile_half(c) - 1 && vstd::math::abs((x + c.padding_side - tile_half(c)) - ly) < c.stroke
}

/// Lower-left diagonal, active only in the right part of the half.
pub open spec fn lower_left_diag(c: Config, x: int, ly: int) -> bool {
    x > tile_half(c) - 1 && vstd::math::abs((c.tile_size - x - c.padding_side - 1) - ly)
        < c.stroke
}

/// Upper-right diagonal, active only in the left part of the half.
pub open spec fn upper_right_diag(c: Config, x: int, ly: int) -> bool {
    x < tile_half(c) + 1 && vstd::math::abs((tile_half(c) + c.padding_side - 1 - x) - ly)
        < c.stroke
}

/// Lower-right diagonal, active only in the left part of the half.
pub open spec fn lower_right_diag(c: Config, x: int, ly: int) -> bool {
    x < tile_half(c) + 1 && vstd::math::abs((x - c.padding_side) - ly) < c.stroke
}

/// Full diagonal across the half, running downward.
pub open spec fn full_down_diag(c: Config, x: int, ly: int) -> bool {
    vstd::math::abs(x - 2 * ly) * (SQRT2_DEN as int) < c.stroke * (SQRT2_NUM as int)
}

/// Full diagonal across the half, running upward.
pub open spec fn full_up_diag(c: Config, x: int, ly: int) -> bool {
    vstd::math::abs((x + 2) - 2 * (tile_half(c) - ly)) * (SQRT2_DEN as int) < c.stroke
        * (SQRT2_NUM as int)
}

/// Stroke presence for one tile half: local coordinates `(x, ly)` are a
/// stroke exactly when they lie in the padded interior and some predicate
/// that the selector switches on fires. Several predicates can fire for
/// the same selector, producing compound shapes.
pub open spec fn half_stroke(c: Config, sel: u8, x: int, ly: int) -> bool {
    in_interior(c, x, ly) && {
        ||| (sel == 1 || sel == 3 || sel == 8) && top_bar(c, ly)
        ||| (sel == 0 || sel == 2 || sel == 9) && bottom_bar(c, ly)
        ||| (sel == 4 || sel == 5 || sel == 6 || sel == 7) && side_bars(c, x)
        ||| (sel == 0 || sel == 6) && upper_left_diag(c, x, ly)
        ||| (sel == 1 || sel == 7) && lower_left_diag(c, x, ly)
        ||| (sel == 2 || sel == 6) && upper_right_diag(c, x, ly)
        ||| (sel == 3 || sel == 7) && lower_right_diag(c, x, ly)
        ||| sel == 4 && full_down_diag(c, x, ly)
        ||| sel == 5 && full_up_diag(c, x, ly)
    }
}

/// Stroke presence for a whole tile: rows up to the tile's midline render
/// the code's first selector, rows below it render the second selector in
/// the lower half's own coordinate frame.
pub open spec fn is_stroke(c: Config, code: (u8, u8), x: int, y: int) -> bool {
    if y <= tile_half(c) {
        half_stroke(c, code.0, x, y)
    } else {
        half_stroke(c, code.1, x, y - tile_half(c))
    }
}

/// A selector can switch on several predicates at once, and any single one
/// of them suffices to mark a pixel as a stroke: for selector six, a pixel
/// of the interior satisfying the side-bar predicate, the upper-left
/// diagonal, or the upper-right diagonal is a stroke, independently of the
/// other two.
pub proof fn lemma_selector_six_compound(c: Config, x: int, ly: int)
    requires
        in_interior(c, x, ly),
        side_bars(c, x) || upper_left_diag(c, x, ly) || upper_right_diag(c, x, ly),
    ensures
        half_stroke(c, 6, x, ly),
{
}

/// Local coordinates outside the padded interior rectangle are never a
/// stroke, whatever the selector.
pub proof fn lemma_outside_interior_background(c: Config, sel: u8, x: int, ly: int)
    requires
        !in_interior(c, x, ly),
    ensures
        !half_stroke(c, sel, x, ly),
{
}

/// A pixel of a whole tile whose half-local coordinates fall outside the
/// padded interior rectangle is never a stroke, whatever the code.
pub proof fn lemma_padding_rejection(c: Config, code: (u8, u8), x: int, y: int)
    requires
        !in_interior(c, x, if y <= tile_half(c) { y } else { y - tile_half(c) }),
    ensures
        !is_stroke(c, code, x, y),
{
}

/// Absolute difference of two coordinates.
fn diff(a: i64, b: i64) -> (r: i64)
    requires
        -0x7fff_ffff_ffff_ffff <= a - b <= 0x7fff_ffff_ffff_ffff,
    ensures
        r == vstd::math::abs(a - b),
{
    if a >= b {
        a - b
    } else {
        b - a
    }
}

/// Decide whether pixel `(x, y)` of a tile rendering the symbolic code
/// `ch` belongs to a drawn stroke. Coordinates are local to the tile.
pub fn check_stroke(ch: (u8, u8), x: u32, y: u32, config: &Config) -> (r: bool)
    requires
        config.wf(),
        x < config.tile_size,
        y < config.tile_size,
    ensures
        r == is_stroke(*config, ch, x as int, y as int),
{
    let ts: i64 = config.tile_size as i64;
    let half: i64 = ts / 2;
    let xi: i64 = x as i64;

    // Decide the tile half, rebasing y for the lower one.
    let sel: u8;
    let ly: i64;
    if (y as i64) <= half {
        sel = ch.0;
        ly = y as i64;
    } else {
        sel = ch.1;
        ly = y as i64 - half;
    }

    let top: i64 = config.padding as i64;
    let bottom: i64 = half - 1 - config.padding as i64;
    let left: i64 = config.padding as i64 + config.padding_side as i64;
    let right: i64 = ts - 1 - config.padding as i64 - config.padding_side as i64;

    // Padding rejection: outside the interior rectangle is background.
    if xi < left || ly < top || xi > right || ly > bottom {
        return false;
    }

    let stroke: i64 = config.stroke as i64;

    // Horizontal bar at the top edge.
    if sel == 1 || sel == 3 || sel == 8 {
        if diff(ly, top) < stroke {
            return true;
        }
    }

    // Horizontal bar at the bottom edge.
    if sel == 0 || sel == 2 || sel == 9 {
        if diff(ly, bottom) < stroke {
            return true;
        }
    }

    // Vertical bars at both side edges.
    if sel == 4 || sel == 5 || sel == 6 || sel == 7 {
        let dr: i64 = diff(xi, right);
        let dl: i64 = diff(xi, left);
        let m: i64 = if dr < dl {
            dr
        } else {
            dl
        };
        let threshold: u128 = config.stroke as u128 * SQRT2_NUM / SQRT2_DEN;
        if (m as u128) < threshold {
            return true;
        }
    }

    // Upper-left diagonal.
    if sel == 0 || sel == 6 {
        if xi > half - 1 && diff(xi + config.padding_side as i64 - half, ly) < stroke {
            return true;
        }
    }

    // Lower-left diagonal.
    if sel == 1 || sel == 7 {
        if xi > half - 1 && diff(ts - xi - config.padding_side as i64 - 1, ly) < stroke {
            return true;
        }
    }

    // Upper-right diagonal.
    if sel == 2 || sel == 6 {
        if xi < half + 1 && diff(half + config.padding_side as i64 - 1 - xi, ly) < stroke {
            return true;
        }
    }

    // Lower-right diagonal.
    if sel == 3 || sel == 7 {
        if xi < half + 1 && diff(xi - config.padding_side as i64, ly) < stroke {
            return true;
        }
    }

    // Full diagonal across the half, running downward.
    if sel == 4 {
        let d: i64 = diff(xi, 2 * ly);
        if (d as u128) * SQRT2_DEN < config.stroke as u128 * SQRT2_NUM {
            return true;
        }
    }

    // Full diagonal across the half, running upward.
    if sel == 5 {
        let d: i64 = diff(xi + 2, 2 * (half - ly));
        if (d as u128) * SQRT2_DEN < config.stroke as u128 * SQRT2_NUM {
            return true;
        }
    }

    false
}

} // verus!
