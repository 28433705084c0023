//! Rectangles and points on the integer pixel grid.

use vstd::prelude::*;

verus! {

/// A rectangle in viewport pixels: top-left corner and extent.
#[derive(Clone, Copy, Debug, PartialEq, Eq, Structural)]
pub struct DisplayRect {
    pub x: i32,
    pub y: i32,
    pub width: i32,
    pub height: i32,
}

/// Anything that has a position on the pixel grid.
pub trait Point {
    spec fn px(&self) -> int;

    spec fn py(&self) -> int;

    fn x(&self) -> (r: i32)
        ensures
            r == self.px(),
    ;

    fn y(&self) -> (r: i32)
        ensures
            r == self.py(),
    ;
}

/// Anything that covers an axis-aligned area of the pixel grid.
pub trait Rect {
    spec fn left(&self) -> int;

    spec fn top(&self) -> int;

    spec fn span_x(&self) -> int;

    spec fn span_y(&self) -> int;

    fn x(&self) -> (r: i32)
        ensures
            r == self.left(),
    ;

    fn y(&self) -> (r: i32)
        ensures
            r == self.top(),
    ;

    fn width(&self) -> (r: i32)
        ensures
            r == self.span_x(),
    ;

    fn height(&self) -> (r: i32)
        ensures
            r == self.span_y(),
    ;
}

/// Whether the point `(px, py)` lies in the closed rectangle that starts at
/// `(left, top)` and extends by `span_x` and `span_y`. Both far edges count
/// as inside.
pub open spec fn covers(left: int, top: int, span_x: int, span_y: int, px: int, py: int) -> bool {
    &&& left <= px <= left + span_x
    &&& top <= py <= top + span_y
}

/// Closed-interval hit test of a point against a rectangle.
pub fn rect_point_intersect<R: Rect, P: Point>(rect: &R, point: &P) -> (hit: bool)
    ensures
        hit == covers(
            rect.left(),
            rect.top(),
            rect.span_x(),
            rect.span_y(),
            point.px(),
            point.py(),
        ),
{
    let rect_x: i64 = rect.x() as i64;
    let rect_y: i64 = rect.y() as i64;
    let rect_width: i64 = rect.width() as i64;
    let rect_height: i64 = rect.height() as i64;
    let point_x: i64 = point.x() as i64;
    let point_y: i64 = point.y() as i64;
    let in_columns = point_x >= rect_x && point_x <= rect_x + rect_width;
    let in_rows = point_y >= rect_y && point_y <= rect_y + rect_height;
    in_columns && in_rows
}

impl Point for (i32, i32) {
    open spec fn px(&self) -> int {
        self.0 as int
    }

    open spec fn py(&self) -> int {
        self.1 as int
    }

    fn x(&self) -> (r: i32) {
        self.0
    }

    fn y(&self) -> (r: i32) {
        self.1
    }
}

impl Rect for DisplayRect {
    open spec fn left(&self) -> int {
        self.x as int
    }

    open spec fn top(&self) -> int {
        self.y as int
    }

    open spec fn span_x(&self) -> int {
        self.width as int
    }

    open spec fn span_y(&self) -> int {
        self.height as int
    }

    fn x(&self) -> (r: i32) {
        self.x
    }

    fn y(&self) -> (r: i32) {
        self.y
    }

    fn width(&self) -> (r: i32) {
        self.width
    }

    fn height(&self) -> (r: i32) {
        self.height
    }
}

/// Signed division that rounds toward zero, as a mathematical function.
pub open spec fn trunc_div(a: int, b: int) -> int
    recommends
        b > 0,
{
    if a >= 0 {
        a / b
    } else {
        -((-a) / b)
    }
}

} // verus!
