//! Placing a bitmap at an arbitrary pixel with a cursor that only knows
//! cells.
//!
//! The terminal draws an image from the corner of a cell. To make it appear
//! at any pixel, the image is drawn from the cell that holds its corner, and
//! the part of the transparent border that fills the gap is drawn with it.
//! The two axes are treated alike; everything here is about one axis.

use crate::viewer::clamp;
use vstd::prelude::*;

verus! {

/// One axis of a display request, all in whole numbers.
#[derive(Clone, Copy, Debug, PartialEq, Eq, Structural)]
pub struct Axis {
    /// Where the image begins, in pixels from the edge of the window.
    pub pos: i32,
    /// How long the image is on screen, in pixels.
    pub len: i32,
    /// How many cells the window has along the axis.
    pub cells: u16,
    /// How many pixels the window has along the axis.
    pub extent: u16,
    /// Length of the bitmap along the axis, border excluded.
    pub bitmap_len: i32,
    /// Bitmap pixels that `den` screen pixels show.
    pub num: i32,
    /// Screen pixels that show `num` bitmap pixels.
    pub den: i32,
    /// Width of the transparent border, in bitmap pixels.
    pub padding: usize,
}

/// Where along one axis the terminal has to draw.
#[derive(Clone, Copy, Debug, PartialEq, Eq, Structural)]
pub struct AxisPlacement {
    /// The cell the drawing starts in, counted from 0.
    pub cell: usize,
    /// Number of cells drawn over.
    pub span: usize,
    /// First pixel of the bordered bitmap that is drawn.
    pub crop_start: usize,
    /// Number of pixels of the bordered bitmap that are drawn.
    pub crop_len: usize,
}

impl Axis {
    /// Whether sizes and ratio are all positive, so that cells and pixels
    /// can be converted into each other.
    pub open spec fn usable(self) -> bool {
        self.cells > 0 && self.extent > 0 && self.num > 0 && self.den > 0
    }

    /// Whether some of the image lies within the window.
    pub open spec fn on_screen(self) -> bool {
        self.pos + self.len >= 0 && self.pos <= self.extent
    }

    /// The cell that holds pixel `v`.
    pub open spec fn cell_of(self, v: int) -> int {
        v * self.cells / (self.extent as int)
    }

    /// The number of cells needed to reach pixel `v`.
    pub open spec fn cells_to(self, v: int) -> int {
        (v * self.cells + self.extent - 1) / (self.extent as int)
    }

    /// The cell the drawing starts in.
    pub open spec fn first_cell(self) -> int {
        if self.pos < 0 {
            0
        } else {
            self.cell_of(self.pos as int)
        }
    }

    /// The cell the drawing ends before.
    pub open spec fn end_cell(self) -> int {
        self.cells_to(self.pos + self.len)
    }

    /// Gap between the start of the first cell and the image, in pixels
    /// times the number of cells; 0 when the image begins outside the window.
    pub open spec fn gap_before(self) -> int {
        if self.pos < 0 {
            0
        } else {
            self.pos * self.cells - self.first_cell() * self.extent
        }
    }

    /// Gap between the end of the image and the end of the last cell, in
    /// pixels times the number of cells.
    pub open spec fn gap_after(self) -> int {
        self.end_cell() * self.extent - (self.pos + self.len) * self.cells
    }

    /// Screen pixels times cells that show `num` bitmap pixels: the unit in
    /// which gaps turn into bitmap pixels.
    pub open spec fn unit(self) -> int {
        self.cells * self.den
    }

    /// First bitmap pixel to draw. An image that begins in the window starts
    /// in its border, by the gap before it; one that begins outside starts
    /// inside the bitmap, by what is cut off.
    pub open spec fn crop_start(self) -> int {
        if self.pos < 0 {
            self.padding + (-self.pos) * self.num / (self.den as int)
        } else if self.padding * self.unit() < self.gap_before() * self.num {
            0
        } else {
            (self.padding * self.unit() - self.gap_before() * self.num) / self.unit()
        }
    }

    /// Number of bitmap pixels to draw.
    pub open spec fn crop_len(self) -> int {
        if self.pos < 0 {
            self.end_cell() * self.extent * self.num / self.unit()
        } else if (self.gap_before() + self.gap_after()) * self.num / self.unit() + self.bitmap_len
            < 0 {
            0
        } else {
            (self.gap_before() + self.gap_after()) * self.num / self.unit() + self.bitmap_len
        }
    }

    /// The placement along this axis, each number kept within `usize`.
    pub open spec fn placement(self) -> AxisPlacement {
        AxisPlacement {
            cell: self.first_cell() as usize,
            span: clamp(self.end_cell() - self.first_cell(), 0, usize::MAX as int) as usize,
            crop_start: clamp(self.crop_start(), 0, usize::MAX as int) as usize,
            crop_len: clamp(self.crop_len(), 0, usize::MAX as int) as usize,
        }
    }
}

/// The product of two numbers within known limits lies within the product
/// of the limits.
proof fn lemma_product_bound(a: int, a_max: int, b: int, b_max: int)
    requires
        0 <= a <= a_max,
        0 <= b <= b_max,
    ensures
        0 <= a * b <= a_max * b_max,
        a > 0 && b > 0 ==> a * b > 0,
{
    assert(0 <= a * b <= a_max * b_max && (a > 0 && b > 0 ==> a * b > 0)) by (nonlinear_arith)
        requires
            0 <= a <= a_max,
            0 <= b <= b_max,
    ;
}

/// The product of two numbers, where it fits.
fn times(a: i128, b: i128) -> (p: i128)
    requires
        i128::MIN <= a * b <= i128::MAX,
    ensures
        p == a * b,
{
    a * b
}

/// The quotient of a non-negative number by a positive one.
fn quotient(a: i128, b: i128) -> (q: i128)
    requires
        a >= 0,
        b > 0,
    ensures
        q == a / b,
        0 <= q <= a,
{
    assert(0 <= a / b <= a) by (nonlinear_arith)
        requires
            a >= 0,
            b > 0,
    ;
    a / b
}

/// A number kept within `usize`.
fn to_usize(v: i128) -> (r: usize)
    ensures
        r == clamp(v as int, 0, usize::MAX as int),
{
    if v < 0 {
        0
    } else if v > usize::MAX as i128 {
        usize::MAX
    } else {
        v as usize
    }
}

/// Where to draw along one axis: `None` when the axis cannot be used or the
/// image lies outside the window.
pub fn place_axis(axis: Axis) -> (placed: Option<AxisPlacement>)
    ensures
        placed is Some <==> axis.usable() && axis.on_screen(),
        placed matches Some(p) ==> p == axis.placement() && p.cell <= axis.cells,
{
    if axis.cells == 0 || axis.extent == 0 || axis.num <= 0 || axis.den <= 0 {
        return None;
    }
    let pos = axis.pos as i128;
    let end = axis.pos as i128 + axis.len as i128;
    let cells = axis.cells as i128;
    let extent = axis.extent as i128;
    let num = axis.num as i128;
    let den = axis.den as i128;
    let padding = axis.padding as i128;
    if end < 0 || pos > extent {
        return None;
    }
    proof {
        lemma_product_bound(cells as int, 0xFFFF, den as int, 0x7FFF_FFFF);
        lemma_product_bound(end as int, 0xFFFF_FFFF, cells as int, 0xFFFF);
        lemma_gaps(end as int, cells as int, extent as int);
    }
    let unit = times(cells, den);
    let end_cell = quotient(times(end, cells) + extent - 1, extent);
    proof {
        lemma_product_bound(end_cell as int, 0x1_0000_0000_0000, extent as int, 0xFFFF);
    }
    let reach = times(end_cell, extent);
    if pos < 0 {
        proof {
            lemma_product_bound(-pos as int, 0x8000_0000, num as int, 0x7FFF_FFFF);
            lemma_product_bound(reach as int, 0xFFFF_0000_0000_0000, num as int, 0x7FFF_FFFF);
        }
        let cut = quotient(times(-pos, num), den);
        let drawn = quotient(times(reach, num), unit);
        assert(axis.first_cell() == 0);
        Some(
            AxisPlacement {
                cell: 0,
                span: to_usize(end_cell),
                crop_start: to_usize(padding + cut),
                crop_len: to_usize(drawn),
            },
        )
    } else {
        proof {
            lemma_product_bound(pos as int, 0xFFFF, cells as int, 0xFFFF);
            lemma_gaps(pos as int, cells as int, extent as int);
        }
        let first_cell = quotient(times(pos, cells), extent);
        proof {
            lemma_product_bound(first_cell as int, 0xFFFE_0001, extent as int, 0xFFFF);
        }
        let gap_before = times(pos, cells) - times(first_cell, extent);
        let gap_after = reach - times(end, cells);
        proof {
            lemma_product_bound(padding as int, usize::MAX as int, cells as int, 0xFFFF);
            lemma_product_bound(
                padding * cells,
                usize::MAX as int * 0xFFFF,
                den as int,
                0x7FFF_FFFF,
            );
            lemma_product_bound(gap_before as int, 0xFFFF, num as int, 0x7FFF_FFFF);
            lemma_product_bound(
                (gap_before + gap_after) as int,
                0x1_FFFE,
                num as int,
                0x7FFF_FFFF,
            );
        }
        let border = times(times(padding, cells), den);
        assert(border == axis.padding * axis.unit()) by (nonlinear_arith)
            requires
                border == (padding * cells) * den,
                axis.unit() == cells * den,
                padding == axis.padding,
        ;
        let used = times(gap_before, num);
        let crop_start = if border < used {
            0
        } else {
            quotient(border - used, unit)
        };
        let grown = quotient(times(gap_before + gap_after, num), unit) + axis.bitmap_len as i128;
        Some(
            AxisPlacement {
                cell: to_usize(first_cell),
                span: to_usize(end_cell - first_cell),
                crop_start: to_usize(crop_start),
                crop_len: to_usize(grown),
            },
        )
    }
}

/// A pixel lies in its cell: the gap between the start of the cell and the
/// pixel is less than a cell, and so is the gap up to the next cell
/// boundary at or after it.
pub proof fn lemma_gaps(v: int, cells: int, extent: int)
    requires
        v >= 0,
        cells > 0,
        extent > 0,
    ensures
        0 <= v * cells - (v * cells / extent) * extent < extent,
        0 <= ((v * cells + extent - 1) / extent) * extent - v * cells < extent,
        0 <= v * cells / extent <= (v * cells + extent - 1) / extent,
        v <= extent ==> v * cells / extent <= cells,
{
    let n = v * cells;
    assert(n >= 0) by (nonlinear_arith)
        requires
            n == v * cells,
            v >= 0,
            cells > 0,
    ;
    vstd::arithmetic::div_mod::lemma_fundamental_div_mod(n, extent);
    vstd::arithmetic::div_mod::lemma_fundamental_div_mod(n + extent - 1, extent);
    vstd::arithmetic::div_mod::lemma_mod_bound(n, extent);
    vstd::arithmetic::div_mod::lemma_mod_bound(n + extent - 1, extent);
    vstd::arithmetic::div_mod::lemma_div_is_ordered(n, n + extent - 1, extent);
    vstd::arithmetic::div_mod::lemma_div_pos_is_pos(n, extent);
    assert(extent * (n / extent) == (n / extent) * extent) by (nonlinear_arith);
    if v <= extent {
        assert(n <= cells * extent) by (nonlinear_arith)
            requires
                n == v * cells,
                0 <= v <= extent,
                cells > 0,
        ;
        vstd::arithmetic::div_mod::lemma_div_is_ordered(n, cells * extent, extent);
        vstd::arithmetic::div_mod::lemma_div_multiples_vanish(cells, extent);
    }
    assert(extent * ((n + extent - 1) / extent) == ((n + extent - 1) / extent) * extent)
        by (nonlinear_arith);
}

/// Reading a placement back gives the position it was made from, to less
/// than one pixel of the bitmap.
///
/// For an image that begins in the window, the first cell and the gap before
/// the image add up to its position exactly, and where the border is wide
/// enough for the gap, the part of the border that is drawn covers the gap
/// and exceeds it by less than one bitmap pixel. For an image that begins
/// outside the window, what is cut off from the bitmap falls short of the
/// part outside by less than one bitmap pixel.
pub proof fn lemma_placement_round_trip(axis: Axis)
    requires
        axis.usable(),
        axis.on_screen(),
    ensures
        axis.pos >= 0 ==> axis.first_cell() * axis.extent + axis.gap_before() == axis.pos
            * axis.cells,
        axis.pos >= 0 ==> 0 <= axis.gap_before() < axis.extent,
        axis.pos >= 0 && axis.padding * axis.unit() >= axis.gap_before() * axis.num ==> {
            &&& 0 <= axis.crop_start() <= axis.padding
            &&& axis.gap_before() * axis.num <= (axis.padding - axis.crop_start()) * axis.unit()
            &&& (axis.padding - axis.crop_start()) * axis.unit() < axis.gap_before() * axis.num
                + axis.unit()
        },
        axis.pos < 0 ==> {
            &&& axis.crop_start() >= axis.padding
            &&& (axis.crop_start() - axis.padding) * axis.den <= (-axis.pos) * axis.num
            &&& (-axis.pos) * axis.num < (axis.crop_start() - axis.padding) * axis.den + axis.den
        },
{
    let unit = axis.unit();
    lemma_product_bound(axis.cells as int, 0xFFFF, axis.den as int, 0x7FFF_FFFF);
    if axis.pos >= 0 {
        lemma_gaps(axis.pos as int, axis.cells as int, axis.extent as int);
        if axis.padding * unit >= axis.gap_before() * axis.num {
            let a = axis.padding * unit - axis.gap_before() * axis.num;
            let q = a / unit;
            vstd::arithmetic::div_mod::lemma_fundamental_div_mod(a, unit);
            vstd::arithmetic::div_mod::lemma_mod_bound(a, unit);
            vstd::arithmetic::div_mod::lemma_div_pos_is_pos(a, unit);
            lemma_product_bound(axis.gap_before(), 0xFFFF, axis.num as int, 0x7FFF_FFFF);
            assert((axis.padding - q) * unit == axis.padding * unit - unit * q)
                by (nonlinear_arith);
            assert(q <= axis.padding) by (nonlinear_arith)
                requires
                    unit * q <= axis.padding * unit,
                    unit > 0,
            ;
        }
    } else {
        let a = (-axis.pos) * axis.num;
        let den = axis.den as int;
        lemma_product_bound(-axis.pos as int, 0x8000_0000, axis.num as int, 0x7FFF_FFFF);
        vstd::arithmetic::div_mod::lemma_fundamental_div_mod(a, den);
        vstd::arithmetic::div_mod::lemma_mod_bound(a, den);
        vstd::arithmetic::div_mod::lemma_div_pos_is_pos(a, den);
        assert((a / den) * den == den * (a / den)) by (nonlinear_arith);
    }
}

/// A border that covers a cell at the smallest scale covers every gap at
/// any scale from there up.
///
/// `render_precision` bitmap pixels show one point, and `scale_min` is the
/// smallest number of screen pixels that show one point, both in the same
/// unit. Where the image is drawn at that scale or a larger one, and the
/// border is at least one cell of the smallest scale wide, neither the gap
/// before the image nor the gap after it needs more than the border.
pub proof fn lemma_padding_suffices(axis: Axis, render_precision: int, scale_min: int)
    requires
        axis.usable(),
        axis.pos >= 0,
        axis.len >= 0,
        render_precision > 0,
        scale_min > 0,
        axis.num * scale_min <= render_precision * axis.den,
        axis.padding * (axis.cells * scale_min) >= axis.extent * render_precision,
    ensures
        axis.gap_before() * axis.num <= axis.padding * axis.unit(),
        axis.gap_after() * axis.num <= axis.padding * axis.unit(),
{
    lemma_gaps(axis.pos as int, axis.cells as int, axis.extent as int);
    lemma_gaps(axis.pos + axis.len, axis.cells as int, axis.extent as int);
    lemma_gap_covered(
        axis.gap_before(),
        axis.extent as int,
        axis.num as int,
        axis.den as int,
        axis.cells as int,
        axis.padding as int,
        render_precision,
        scale_min,
    );
    lemma_gap_covered(
        axis.gap_after(),
        axis.extent as int,
        axis.num as int,
        axis.den as int,
        axis.cells as int,
        axis.padding as int,
        render_precision,
        scale_min,
    );
}

/// A gap of less than a cell needs no more border than a cell at the
/// smallest scale.
proof fn lemma_gap_covered(
    gap: int,
    extent: int,
    num: int,
    den: int,
    cells: int,
    padding: int,
    render_precision: int,
    scale_min: int,
)
    requires
        0 <= gap < extent,
        num > 0,
        den > 0,
        cells > 0,
        padding >= 0,
        render_precision > 0,
        scale_min > 0,
        num * scale_min <= render_precision * den,
        padding * (cells * scale_min) >= extent * render_precision,
    ensures
        gap * num <= padding * (cells * den),
{
    assert(gap * (num * scale_min) <= gap * (render_precision * den)) by (nonlinear_arith)
        requires
            0 <= gap,
            num * scale_min <= render_precision * den,
    ;
    assert(gap * (render_precision * den) <= extent * (render_precision * den))
        by (nonlinear_arith)
        requires
            0 <= gap < extent,
            render_precision * den >= 0,
    ;
    assert(render_precision * den >= 0) by (nonlinear_arith)
        requires
            render_precision > 0,
            den > 0,
    ;
    assert(extent * (render_precision * den) == (extent * render_precision) * den)
        by (nonlinear_arith);
    assert((extent * render_precision) * den <= (padding * (cells * scale_min)) * den)
        by (nonlinear_arith)
        requires
            padding * (cells * scale_min) >= extent * render_precision,
            den > 0,
    ;
    assert((padding * (cells * scale_min)) * den == (padding * (cells * den)) * scale_min)
        by (nonlinear_arith);
    assert(gap * (num * scale_min) == (gap * num) * scale_min) by (nonlinear_arith);
    assert(gap * num <= padding * (cells * den)) by (nonlinear_arith)
        requires
            (gap * num) * scale_min <= (padding * (cells * den)) * scale_min,
            scale_min > 0,
    ;
}

} // verus!
