//! Grid geometry: the mapping between logical board coordinates and scaled
//! screen-space positions.
//!
//! Screen-space positions are kept exact by measuring them in integer
//! sub-units rather than fractional pixels.  For a board that is `dim` tiles
//! wide, one horizontal sub-unit is `1 / (2 * dim)` of a world pixel, so the
//! world-pixel position of a point is `x / (2 * dim)`.  Every cell centre and
//! cell boundary lands exactly on such a sub-unit, which makes the
//! `cell_to_screen` / `screen_to_cell` pair a true inverse instead of one
//! that holds only up to rounding.

use vstd::prelude::*;
use vstd::arithmetic::div_mod::{
    lemma_fundamental_div_mod_converse_div, lemma_div_is_ordered, lemma_div_by_multiple,
    lemma_fundamental_div_mod,
};

verus! {

/// Logical cell address: column and row, counted from the bottom-left corner
/// of the board.
#[derive(Clone, Copy, PartialEq, Eq, Structural, Debug, Hash)]
pub struct Coordinate {
    pub col: u16,
    pub row: u16,
}

/// A screen-space point in exact sub-units.  `x` is measured in units of
/// `1 / (2 * board.width)` world pixels, `y` in units of
/// `1 / (2 * board.height)` world pixels.
#[derive(Clone, Copy, PartialEq, Eq, Structural, Debug)]
pub struct ScreenPos {
    pub x: i64,
    pub y: i64,
}

/// An exact scale ratio `num / den`.
#[derive(Clone, Copy, PartialEq, Eq, Structural, Debug)]
pub struct Scale {
    pub num: u64,
    pub den: u64,
}

/// Static board geometry: dimensions in tiles, unscaled tile size in pixels,
/// and the current viewport size in world pixels.  All parameters are
/// 16-bit, which keeps every sub-unit computation exactly representable in
/// `i64`.
#[derive(Clone, Copy, PartialEq, Eq, Structural, Debug)]
pub struct Board {
    /// Board width in tiles.
    pub width: u16,
    /// Board height in tiles.
    pub height: u16,
    /// Unscaled tile width in pixels.
    pub tile_w: u16,
    /// Unscaled tile height in pixels.
    pub tile_h: u16,
    /// Viewport width in world pixels.
    pub view_w: u16,
    /// Viewport height in world pixels.
    pub view_h: u16,
}

/// The exact centre of cell `c` along one axis, in sub-units of
/// `1 / (2 * dim)` pixels: `view * (2 * c + 1 - dim)`.
///
/// This equals `-view / 2 + (view / dim) / 2 + (view / dim) * c`, i.e. the
/// bottom-left origin plus `c` scaled tile sizes.
pub open spec fn axis_center(view: int, dim: int, c: int) -> int {
    view * (2 * c + 1 - dim)
}

/// The cell along one axis whose span contains sub-unit position `x`, if
/// any.  Cell `c` spans `[view * (2c - dim), view * (2c + 2 - dim))`, so the
/// containing cell index is `(x + view * dim) / (2 * view)`, rounded toward
/// negative infinity.  A degenerate axis (zero viewport or zero dimension)
/// contains no cell.
pub open spec fn axis_cell(view: int, dim: int, x: int) -> Option<u16> {
    if view <= 0 || dim <= 0 {
        None
    } else {
        let q = (x + view * dim) / (2 * view);
        if 0 <= q && q < dim {
            Some(q as u16)
        } else {
            None
        }
    }
}

/// The scale ratio along one axis: `view / (tile * dim)`, or the degenerate
/// zero ratio when the board has no extent along the axis.
pub open spec fn axis_scale(view: int, tile: int, dim: int) -> Scale {
    if tile == 0 || dim == 0 {
        Scale { num: 0, den: 1 }
    } else {
        Scale { num: view as u64, den: (tile * dim) as u64 }
    }
}

/// The scaled tile size along one axis: `view / dim` pixels, or the
/// degenerate zero ratio when the board has no extent along the axis.
pub open spec fn axis_tile_size(view: int, dim: int) -> Scale {
    if dim == 0 {
        Scale { num: 0, den: 1 }
    } else {
        Scale { num: view as u64, den: dim as u64 }
    }
}

/// What `cell_to_screen` returns: the exact centre of the cell.
pub open spec fn cell_to_screen_spec(b: Board, c: Coordinate) -> ScreenPos {
    ScreenPos {
        x: axis_center(b.view_w as int, b.width as int, c.col as int) as i64,
        y: axis_center(b.view_h as int, b.height as int, c.row as int) as i64,
    }
}

/// What `screen_to_cell` returns: the coordinate of the cell containing the
/// point, or `None` when the point lies off the board on either axis.
pub open spec fn screen_to_cell_spec(b: Board, p: ScreenPos) -> Option<Coordinate> {
    match (axis_cell(b.view_w as int, b.width as int, p.x as int), axis_cell(
        b.view_h as int,
        b.height as int,
        p.y as int,
    )) {
        (Some(col), Some(row)) => Some(Coordinate { col, row }),
        _ => None,
    }
}

impl Board {
    /// Builds the board geometry from map dimensions, tile size and the
    /// initial viewport size.
    pub fn new(width: u16, height: u16, tile_w: u16, tile_h: u16, view_w: u16, view_h: u16) -> (b:
        Board)
        ensures
            b.width == width,
            b.height == height,
            b.tile_w == tile_w,
            b.tile_h == tile_h,
            b.view_w == view_w,
            b.view_h == view_h,
    {
        Board { width, height, tile_w, tile_h, view_w, view_h }
    }

    /// Records a viewport resize; all placements derive from the current
    /// scale, so nothing else needs recomputing.
    pub fn resize(&mut self, view_w: u16, view_h: u16)
        ensures
            final(self).view_w == view_w,
            final(self).view_h == view_h,
            final(self).width == old(self).width,
            final(self).height == old(self).height,
            final(self).tile_w == old(self).tile_w,
            final(self).tile_h == old(self).tile_h,
    {
        self.view_w = view_w;
        self.view_h = view_h;
    }

    /// The scale `viewport / (tile * dim)` on each axis, as exact ratios.
    pub fn scale_factor(&self) -> (r: (Scale, Scale))
        ensures
            r.0 == axis_scale(self.view_w as int, self.tile_w as int, self.width as int),
            r.1 == axis_scale(self.view_h as int, self.tile_h as int, self.height as int),
    {
        (
            axis_scale_exec(self.view_w, self.tile_w, self.width),
            axis_scale_exec(self.view_h, self.tile_h, self.height),
        )
    }

    /// The scaled tile size `viewport / dim` on each axis, as exact ratios.
    pub fn scaled_tile_size(&self) -> (r: (Scale, Scale))
        ensures
            r.0 == axis_tile_size(self.view_w as int, self.width as int),
            r.1 == axis_tile_size(self.view_h as int, self.height as int),
    {
        (
            axis_tile_size_exec(self.view_w, self.width),
            axis_tile_size_exec(self.view_h, self.height),
        )
    }

    /// The screen position at which cell `(0, 0)` is centred:
    /// `-viewport / 2 + scaled_tile_size / 2` on each axis.
    pub fn bottom_left_origin(&self) -> (p: ScreenPos)
        ensures
            p.x == axis_center(self.view_w as int, self.width as int, 0),
            p.y == axis_center(self.view_h as int, self.height as int, 0),
    {
        self.cell_to_screen(Coordinate { col: 0, row: 0 })
    }

    /// Maps a logical cell to the exact screen position of its centre:
    /// `origin + scaled_tile_size * coordinate` on each axis.
    pub fn cell_to_screen(&self, c: Coordinate) -> (p: ScreenPos)
        ensures
            p == cell_to_screen_spec(*self, c),
            p.x == axis_center(self.view_w as int, self.width as int, c.col as int),
            p.y == axis_center(self.view_h as int, self.height as int, c.row as int),
    {
        ScreenPos {
            x: axis_pos_exec(self.view_w, self.width, c.col),
            y: axis_pos_exec(self.view_h, self.height, c.row),
        }
    }

    /// Maps a screen position back to the cell whose span contains it, or
    /// `None` when the position falls outside `[0, dim)` on either axis.
    pub fn screen_to_cell(&self, p: ScreenPos) -> (r: Option<Coordinate>)
        ensures
            r == screen_to_cell_spec(*self, p),
    {
        match (axis_pick_exec(self.view_w, self.width, p.x), axis_pick_exec(
            self.view_h,
            self.height,
            p.y,
        )) {
            (Some(col), Some(row)) => Some(Coordinate { col, row }),
            _ => None,
        }
    }
}

/// Round-trip along one axis: the centre of a valid cell maps back to that
/// cell.
proof fn lemma_axis_round_trip(view: int, dim: int, c: int)
    requires
        0 < view <= 0xffff,
        dim <= 0xffff,
        0 <= c < dim,
    ensures
        axis_cell(view, dim, axis_center(view, dim, c)) == Some(c as u16),
{
    let x = axis_center(view, dim, c);
    let num = x + view * dim;
    assert(num == (2 * view) * c + view) by (nonlinear_arith)
        requires
            x == view * (2 * c + 1 - dim),
            num == x + view * dim,
    ;
    lemma_fundamental_div_mod_converse_div(num, 2 * view, c, view);
    assert(num / (2 * view) == c);
}

/// Round-trip law: for every coordinate on the board and a non-degenerate
/// viewport, `screen_to_cell(cell_to_screen(c)) == Some(c)`.
pub proof fn lemma_screen_cell_round_trip(b: Board, c: Coordinate)
    requires
        c.col < b.width,
        c.row < b.height,
        b.view_w > 0,
        b.view_h > 0,
    ensures
        screen_to_cell_spec(b, cell_to_screen_spec(b, c)) == Some(c),
{
    let cx = axis_center(b.view_w as int, b.width as int, c.col as int);
    let cy = axis_center(b.view_h as int, b.height as int, c.row as int);
    lemma_axis_center_in_range(b.view_w as int, b.width as int, c.col as int);
    lemma_axis_center_in_range(b.view_h as int, b.height as int, c.row as int);
    assert(cx as i64 as int == cx);
    assert(cy as i64 as int == cy);
    lemma_axis_round_trip(b.view_w as int, b.width as int, c.col as int);
    lemma_axis_round_trip(b.view_h as int, b.height as int, c.row as int);
    assert(c.col as int as u16 == c.col);
    assert(c.row as int as u16 == c.row);
}

/// The centre of any cell with 16-bit parameters fits comfortably in `i64`.
proof fn lemma_axis_center_in_range(view: int, dim: int, c: int)
    requires
        0 <= view <= 0xffff,
        0 <= dim <= 0xffff,
        0 <= c <= 0xffff,
    ensures
        -0x7fff_ffff_ffff_ffff <= axis_center(view, dim, c) <= 0x7fff_ffff_ffff_ffff,
{
    assert(-0x7fff_ffff_ffff_ffff <= view * (2 * c + 1 - dim) <= 0x7fff_ffff_ffff_ffff)
        by (nonlinear_arith)
        requires
            0 <= view <= 0xffff,
            0 <= dim <= 0xffff,
            0 <= c <= 0xffff,
    ;
}

/// One axis of `cell_to_screen`.
fn axis_pos_exec(view: u16, dim: u16, c: u16) -> (x: i64)
    ensures
        x == axis_center(view as int, dim as int, c as int),
{
    let t: i64 = 2 * (c as i64) + 1 - (dim as i64);
    proof {
        assert(-0x7fff_ffff_ffff_ffff <= (view as int) * (t as int) <= 0x7fff_ffff_ffff_ffff)
            by (nonlinear_arith)
            requires
                0 <= view <= 0xffff,
                -0xffff <= t <= 0x1_ffff,
        ;
    }
    (view as i64) * t
}

/// One axis of `screen_to_cell`.
fn axis_pick_exec(view: u16, dim: u16, x: i64) -> (r: Option<u16>)
    ensures
        r == axis_cell(view as int, dim as int, x as int),
{
    if view == 0 || dim == 0 {
        return None;
    }
    proof {
        assert(0 <= (view as int) * (dim as int) <= 0xffff_0000) by (nonlinear_arith)
            requires
                0 < view <= 0xffff,
                0 < dim <= 0xffff,
        ;
    }
    let vd: i64 = (view as i64) * (dim as i64);
    if x >= 0x2_0000_0000 {
        proof {
            let num = x as int + (view as int) * (dim as int);
            let d = 2 * (view as int);
            assert(d * (dim as int) <= 0x2_0000_0000) by (nonlinear_arith)
                requires
                    0 < view <= 0xffff,
                    0 < dim <= 0xffff,
                    d == 2 * (view as int),
            ;
            lemma_div_by_multiple(dim as int, d);
            assert((dim as int) * d == d * (dim as int)) by (nonlinear_arith);
            lemma_div_is_ordered(d * (dim as int), num, d);
            assert(num / d >= dim as int);
        }
        return None;
    }
    let num: i64 = x + vd;
    if num < 0 {
        proof {
            let n = num as int;
            let d = 2 * (view as int);
            lemma_fundamental_div_mod(n, d);
            let q = n / d;
            if q >= 0 {
                assert(q * d >= 0) by (nonlinear_arith)
                    requires
                        q >= 0,
                        d > 0,
                ;
            }
            assert(q < 0);
        }
        return None;
    }
    let q: u64 = (num as u64) / (2 * (view as u64));
    if q < dim as u64 {
        Some(q as u16)
    } else {
        None
    }
}

/// One axis of `scale_factor`.
fn axis_scale_exec(view: u16, tile: u16, dim: u16) -> (r: Scale)
    ensures
        r == axis_scale(view as int, tile as int, dim as int),
{
    if tile == 0 || dim == 0 {
        Scale { num: 0, den: 1 }
    } else {
        proof {
            assert(0 < (tile as int) * (dim as int) <= 0xffff_0000) by (nonlinear_arith)
                requires
                    0 < tile <= 0xffff,
                    0 < dim <= 0xffff,
            ;
        }
        Scale { num: view as u64, den: (tile as u64) * (dim as u64) }
    }
}

/// One axis of `scaled_tile_size`.
fn axis_tile_size_exec(view: u16, dim: u16) -> (r: Scale)
    ensures
        r == axis_tile_size(view as int, dim as int),
{
    if dim == 0 {
        Scale { num: 0, den: 1 }
    } else {
        Scale { num: view as u64, den: dim as u64 }
    }
}

} // verus!
