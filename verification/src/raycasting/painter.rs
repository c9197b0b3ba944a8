//! Colors for painting, and which pixels the basic shapes cover.
use vstd::prelude::*;

verus! {

#[derive(Clone, Copy, Debug, PartialEq, Eq, Structural)]
pub struct RGB {
    pub r: u8,
    pub g: u8,
    pub b: u8,
}

impl RGB {
    pub fn from(r: u8, g: u8, b: u8) -> (c: Self)
        ensures
            c == (RGB { r, g, b }),
    {
        RGB { r, g, b }
    }
}

/// The pixels from `lo` to `hi` (both included) along a row `y`.
pub open spec fn row_span(lo: int, hi: int, y: i32) -> Seq<(i32, i32)> {
    Seq::new((hi - lo + 1) as nat, |k: int| ((lo + k) as i32, y))
}

/// The pixels from `lo` to `hi` (both included) along a column `x`.
pub open spec fn column_span(x: i32, lo: int, hi: int) -> Seq<(i32, i32)> {
    Seq::new((hi - lo + 1) as nat, |k: int| (x, (lo + k) as i32))
}

/// The pixels of a horizontal line from `x1` to `x2`, left to right.
pub open spec fn horiz_line_pixels(x1: i32, x2: i32, y: i32) -> Seq<(i32, i32)> {
    if x1 < x2 {
        row_span(x1 as int, x2 as int, y)
    } else {
        row_span(x2 as int, x1 as int, y)
    }
}

/// The pixels of a vertical line from `y1` to `y2`, top to bottom.
pub open spec fn vert_line_pixels(x: i32, y1: i32, y2: i32) -> Seq<(i32, i32)> {
    if y1 < y2 {
        column_span(x, y1 as int, y2 as int)
    } else {
        column_span(x, y2 as int, y1 as int)
    }
}

/// The pixels of a filled rectangle, row by row, each row left to right.
pub open spec fn filled_rect_pixels(x: i32, y: i32, w: int, h: int) -> Seq<(i32, i32)>
    decreases h,
{
    if w <= 0 || h <= 0 {
        Seq::empty()
    } else {
        filled_rect_pixels(x, y, w, h - 1) + row_span(x as int, x + w - 1, (y + h - 1) as i32)
    }
}

/// The pixels of the outline of a rectangle, in drawing order: the top and
/// bottom rows together, column by column, then the left and right sides
/// together, row by row, between them.
pub open spec fn rect_outline_pixels(x: i32, y: i32, w: int, h: int) -> Seq<(i32, i32)> {
    if w <= 0 || h <= 0 {
        Seq::empty()
    } else {
        let sides = if h > 2 {
            h - 2
        } else {
            0
        };
        Seq::new((2 * w) as nat, |k: int| ((x + k / 2) as i32, if k % 2 == 0 { y } else { (y + h - 1) as i32 }))
            + Seq::new(
            (2 * sides) as nat,
            |k: int| (if k % 2 == 0 { x } else { (x + w - 1) as i32 }, (y + 1 + k / 2) as i32),
        )
    }
}

/// The pixels that a horizontal line covers (`Painter::draw_horiz_line`).
pub fn horiz_line(x1: i32, x2: i32, y: i32) -> (v: Vec<(i32, i32)>)
    ensures
        v@ == horiz_line_pixels(x1, x2, y),
{
    let (xmin, xmax) = if x1 < x2 {
        (x1, x2)
    } else {
        (x2, x1)
    };
    let mut v: Vec<(i32, i32)> = Vec::new();
    let mut x: i32 = xmin;
    loop
        invariant_except_break
            v@ == row_span(xmin as int, x - 1, y),
        invariant
            xmin <= x <= xmax,
            xmin == if x1 < x2 { x1 } else { x2 },
            xmax == if x1 < x2 { x2 } else { x1 },
        ensures
            v@ == row_span(xmin as int, xmax as int, y),
        decreases xmax - x,
    {
        v.push((x, y));
        assert(v@ == row_span(xmin as int, x as int, y));
        if x == xmax {
            break;
        }
        x = x + 1;
    }
    v
}

/// The pixels that a vertical line covers (`Painter::draw_vert_line`).
pub fn vert_line(x: i32, y1: i32, y2: i32) -> (v: Vec<(i32, i32)>)
    ensures
        v@ == vert_line_pixels(x, y1, y2),
{
    let (ymin, ymax) = if y1 < y2 {
        (y1, y2)
    } else {
        (y2, y1)
    };
    let mut v: Vec<(i32, i32)> = Vec::new();
    let mut y: i32 = ymin;
    loop
        invariant_except_break
            v@ == column_span(x, ymin as int, y - 1),
        invariant
            ymin <= y <= ymax,
            ymin == if y1 < y2 { y1 } else { y2 },
            ymax == if y1 < y2 { y2 } else { y1 },
        ensures
            v@ == column_span(x, ymin as int, ymax as int),
        decreases ymax - y,
    {
        v.push((x, y));
        assert(v@ == column_span(x, ymin as int, y as int));
        if y == ymax {
            break;
        }
        y = y + 1;
    }
    v
}

/// The pixels that a filled rectangle covers (`Painter::fill_rect`).
pub fn fill_rect(x: i32, y: i32, w: i32, h: i32) -> (v: Vec<(i32, i32)>)
    requires
        w > 0 ==> x + w <= i32::MAX,
        h > 0 ==> y + h <= i32::MAX,
    ensures
        v@ == filled_rect_pixels(x, y, w as int, h as int),
{
    let mut v: Vec<(i32, i32)> = Vec::new();
    if w <= 0 || h <= 0 {
        return v;
    }
    let mut yy: i32 = y;
    while yy < y + h
        invariant
            w > 0,
            h > 0,
            x + w <= i32::MAX,
            y + h <= i32::MAX,
            y <= yy <= y + h,
            v@ == filled_rect_pixels(x, y, w as int, yy - y),
        decreases y + h - yy,
    {
        let mut xx: i32 = x;
        let ghost before = v@;
        while xx < x + w
            invariant
                w > 0,
                x + w <= i32::MAX,
                x <= xx <= x + w,
                v@ == before + row_span(x as int, xx - 1, yy),
            decreases x + w - xx,
        {
            v.push((xx, yy));
            assert(v@ == before + row_span(x as int, xx as int, yy));
            xx = xx + 1;
        }
        assert(filled_rect_pixels(x, y, w as int, yy - y + 1) == before + row_span(x as int, x + w - 1, yy));
        yy = yy + 1;
    }
    v
}

/// The pixels that the outline of a rectangle covers (`Painter::draw_rect`).
pub fn rect_outline(x: i32, y: i32, w: i32, h: i32) -> (v: Vec<(i32, i32)>)
    requires
        w > 0 ==> x + w <= i32::MAX,
        h > 0 ==> y + h <= i32::MAX,
    ensures
        v@ == rect_outline_pixels(x, y, w as int, h as int),
{
    let mut v: Vec<(i32, i32)> = Vec::new();
    if w <= 0 || h <= 0 {
        return v;
    }
    let x2 = x + w - 1;
    let y2 = y + h - 1;
    let ghost top = Seq::new((2 * w) as nat, |k: int| ((x + k / 2) as i32, if k % 2 == 0 { y } else { y2 }));
    let mut xx: i32 = x;
    loop
        invariant_except_break
            v@ == top.take(2 * (xx - x)),
        invariant
            w > 0,
            h > 0,
            x2 == x + w - 1,
            y2 == y + h - 1,
            x <= xx <= x2,
            top == Seq::new((2 * w) as nat, |k: int| ((x + k / 2) as i32, if k % 2 == 0 { y } else { y2 })),
        ensures
            v@ == top,
        decreases x2 - xx,
    {
        v.push((xx, y));
        v.push((xx, y2));
        assert(v@ == top.take(2 * (xx - x) + 2));
        if xx == x2 {
            assert(top.take(2 * (xx - x) + 2) == top);
            break;
        }
        xx = xx + 1;
    }
    let ghost sides: int = if h > 2 {
        h - 2
    } else {
        0
    };
    let ghost side = Seq::new((2 * sides) as nat, |k: int| (if k % 2 == 0 { x } else { x2 }, (y + 1 + k / 2) as i32));
    let mut yy: i32 = y + 1;
    while yy < y2
        invariant
            w > 0,
            h > 0,
            x2 == x + w - 1,
            y2 == y + h - 1,
            y + 1 <= yy,
            yy <= y2 || h == 1,
            h == 1 ==> yy == y + 1,
            sides == if h > 2 { h - 2 } else { 0 },
            side == Seq::new((2 * sides) as nat, |k: int| (if k % 2 == 0 { x } else { x2 }, (y + 1 + k / 2) as i32)),
            v@ == top + side.take(2 * (yy - y - 1)),
        decreases y2 - yy,
    {
        v.push((x, yy));
        v.push((x2, yy));
        assert(v@ == top + side.take(2 * (yy - y - 1) + 2));
        yy = yy + 1;
    }
    assert(side.take(2 * (yy - y - 1)) == side);
    v
}

} // verus!
