//! Screen buffer - collects what needs to be painted, as palette indices.
use crate::raycasting::painter::RGB;
use vstd::prelude::*;

verus! {

/// Screen buffer - holds one buffer of screen data, one palette index per pixel,
/// row by row.
pub struct ScreenBuffer {
    width: usize,
    height: usize,
    bytes: Vec<u8>,
}

/// Two pixels of a row-by-row buffer of width `w` share an index only if they
/// are the same pixel.
pub proof fn lemma_pixel_index_unique(w: int, px1: int, py1: int, px2: int, py2: int)
    requires
        0 <= px1 < w,
        0 <= px2 < w,
        0 <= py1,
        0 <= py2,
        py1 * w + px1 == py2 * w + px2,
    ensures
        px1 == px2,
        py1 == py2,
{
    if py1 < py2 {
        assert(py1 * w + w <= py2 * w) by (nonlinear_arith)
            requires
                py1 < py2,
                0 <= w,
        ;
    }
    if py2 < py1 {
        assert(py2 * w + w <= py1 * w) by (nonlinear_arith)
            requires
                py2 < py1,
                0 <= w,
        ;
    }
}

/// A pixel of a row-by-row buffer of width `w` and height `h` lies inside it.
pub proof fn lemma_pixel_index_bounds(w: int, h: int, px: int, py: int)
    requires
        0 <= px < w,
        0 <= py < h,
    ensures
        0 <= py * w + px < w * h,
{
    assert(py * w + px < w * h) by (nonlinear_arith)
        requires
            0 <= px < w,
            0 <= py < h,
    ;
    assert(0 <= py * w) by (nonlinear_arith)
        requires
            0 <= px < w,
            0 <= py,
    ;
}

/// The pixel `(px, py)` lies in the rectangle of corner `(x, y)` and size `w` x `h`.
pub open spec fn in_rect(x: int, y: int, w: int, h: int, px: int, py: int) -> bool {
    x <= px < x + w && y <= py < y + h
}

impl ScreenBuffer {
    /// The buffer holds one byte per pixel.
    pub closed spec fn wf(&self) -> bool {
        self.bytes@.len() == self.width * self.height
    }

    pub closed spec fn spec_width(&self) -> int {
        self.width as int
    }

    pub closed spec fn spec_height(&self) -> int {
        self.height as int
    }

    /// The palette index of the pixel at column `x` of row `y`.
    pub closed spec fn pixel(&self, x: int, y: int) -> u8 {
        self.bytes@[y * self.width + x]
    }

    /// Create a new screen buffer, all black (palette index 0).
    pub fn new(width: usize, height: usize) -> (s: Self)
        requires
            width * height <= usize::MAX,
        ensures
            s.wf(),
            s.spec_width() == width,
            s.spec_height() == height,
            forall|x: int, y: int| 0 <= x < width && 0 <= y < height ==> s.pixel(x, y) == 0,
    {
        let len = width * height;
        let bytes = vec![0u8; len];
        let s = Self { width, height, bytes };
        assert forall|x: int, y: int| 0 <= x < width && 0 <= y < height implies s.pixel(x, y)
            == 0 by {
            lemma_pixel_index_bounds(width as int, height as int, x, y);
        }
        s
    }

    /// Screen buffer width.
    pub fn width(&self) -> (w: usize)
        requires
            self.wf(),
        ensures
            w == self.spec_width(),
    {
        self.width
    }

    /// Screen buffer height.
    pub fn height(&self) -> (h: usize)
        requires
            self.wf(),
        ensures
            h == self.spec_height(),
    {
        self.height
    }

    /// The palette index of one pixel.
    pub fn get_pixel(&self, x: usize, y: usize) -> (c: u8)
        requires
            self.wf(),
            x < self.spec_width(),
            y < self.spec_height(),
        ensures
            c == self.pixel(x as int, y as int),
    {
        let blen = self.bytes.len();
        proof {
            lemma_pixel_index_bounds(self.width as int, self.height as int, x as int, y as int);
        }
        self.bytes[y * self.width + x]
    }

    /// Put a pixel in the buffer, *with* transparency: the palette index `0xFF`
    /// is transparent, and pixels outside the buffer are dropped.
    pub fn put_pixel(&mut self, x: i32, y: i32, c: u8)
        requires
            old(self).wf(),
        ensures
            final(self).wf(),
            final(self).spec_width() == old(self).spec_width(),
            final(self).spec_height() == old(self).spec_height(),
            forall|px: int, py: int|
                0 <= px < old(self).spec_width() && 0 <= py < old(self).spec_height()
                    ==> #[trigger] final(self).pixel(px, py) == if px == x && py == y && c != 0xFF {
                    c
                } else {
                    old(self).pixel(px, py)
                },
    {
        if x >= 0 && y >= 0 && c != 0xFF {
            let xx = x as usize;
            let yy = y as usize;
            if xx < self.width && yy < self.height {
                let blen = self.bytes.len();
                proof {
                    lemma_pixel_index_bounds(self.width as int, self.height as int, xx as int, yy as int);
                }
                let idx = yy * self.width + xx;
                let ghost w = self.width as int;
                self.bytes.set(idx, c);
                proof {
                    assert forall|px: int, py: int|
                        0 <= px < w && 0 <= py < self.height implies #[trigger] self.pixel(px, py)
                        == if px == x && py == y && c != 0xFF {
                        c
                    } else {
                        old(self).pixel(px, py)
                    } by {
                        lemma_pixel_index_bounds(w, self.height as int, px, py);
                        if py * w + px == idx {
                            lemma_pixel_index_unique(w, px, py, xx as int, yy as int);
                        }
                    }
                }
            }
        }
    }

    /// Fill a rectangle inside the buffer, *without* transparency: the part of
    /// the rectangle of corner `(x, y)` and size `w` x `h` that lies in the buffer
    /// takes the palette index `c`.
    pub fn fill_rect(&mut self, x: i32, y: i32, w: i32, h: i32, c: u8)
        requires
            old(self).wf(),
            old(self).spec_width() * old(self).spec_height() <= i32::MAX,
        ensures
            final(self).wf(),
            final(self).spec_width() == old(self).spec_width(),
            final(self).spec_height() == old(self).spec_height(),
            forall|px: int, py: int|
                0 <= px < old(self).spec_width() && 0 <= py < old(self).spec_height()
                    ==> #[trigger] final(self).pixel(px, py) == if in_rect(
                    x as int,
                    y as int,
                    w as int,
                    h as int,
                    px,
                    py,
                ) {
                    c
                } else {
                    old(self).pixel(px, py)
                },
    {
        proof {
            if self.width > 0 && self.height > 0 {
                assert(self.width <= self.width * self.height) by (nonlinear_arith)
                    requires
                        self.height > 0,
                ;
                assert(self.height <= self.width * self.height) by (nonlinear_arith)
                    requires
                        self.width > 0,
                ;
            }
        }
        let ghost sw0 = self.width as int;
        let ghost sh0 = self.height as int;
        if self.width == 0 || self.height == 0 {
            return;
        }
        let isw = self.width as i32;
        let ish = self.height as i32;
        if w <= 0 || h <= 0 || x >= isw || y >= ish {
            return;
        }
        // shift top-left corner inside the screen
        let xx = if x > 0 {
            x
        } else {
            0
        };
        let yy = if y > 0 {
            y
        } else {
            0
        };
        let w2 = w - xx + x;
        let h2 = h - yy + y;
        if w2 <= 0 || h2 <= 0 {
            return;
        }
        // shift bottom right corner inside the screen
        let sw = (if w2 < isw - xx {
            w2
        } else {
            isw - xx
        }) as usize;
        let sh = (if h2 < ish - yy {
            h2
        } else {
            ish - yy
        }) as usize;
        let x0 = xx as usize;
        let y0 = yy as usize;
        let width = self.width;
        let mut row: usize = 0;
        while row < sh
            invariant
                self.width == width,
                self.height == sh0,
                width == sw0,
                self.bytes@.len() == sw0 * sh0,
                sw0 * sh0 <= i32::MAX,
                x0 + sw <= sw0,
                y0 + sh <= sh0,
                row <= sh,
                x0 == (if x > 0 {
                    x as int
                } else {
                    0
                }),
                x0 + sw == (if x + w < sw0 {
                    x + w
                } else {
                    sw0
                }),
                y0 == (if y > 0 {
                    y as int
                } else {
                    0
                }),
                y0 + sh == (if y + h < sh0 {
                    y + h
                } else {
                    sh0
                }),
                forall|px: int, py: int|
                    0 <= px < sw0 && 0 <= py < sh0 ==> #[trigger] self.pixel(px, py) == if x0 <= px
                        < x0 + sw && y0 <= py < y0 + row {
                        c
                    } else {
                        old(self).pixel(px, py)
                    },
            decreases sh - row,
        {
            let mut col: usize = 0;
            while col < sw
                invariant
                    self.width == width,
                    self.height == sh0,
                    width == sw0,
                    self.bytes@.len() == sw0 * sh0,
                    sw0 * sh0 <= i32::MAX,
                    x0 + sw <= sw0,
                    y0 + sh <= sh0,
                    row < sh,
                    col <= sw,
                    forall|px: int, py: int|
                        0 <= px < sw0 && 0 <= py < sh0 ==> #[trigger] self.pixel(px, py) == if x0
                            <= px < x0 + sw && (y0 <= py < y0 + row || (py == y0 + row && px < x0
                            + col)) {
                            c
                        } else {
                            old(self).pixel(px, py)
                        },
                decreases sw - col,
            {
                let ghost before = *self;
                proof {
                    lemma_pixel_index_bounds(sw0, sh0, (x0 + col) as int, (y0 + row) as int);
                }
                let idx = (y0 + row) * width + x0 + col;
                self.bytes.set(idx, c);
                proof {
                    assert forall|px: int, py: int| 0 <= px < sw0 && 0 <= py < sh0 implies #[trigger] self.pixel(
                        px,
                        py,
                    ) == if x0 <= px < x0 + sw && (y0 <= py < y0 + row || (py == y0 + row && px
                        < x0 + col + 1)) {
                        c
                    } else {
                        old(self).pixel(px, py)
                    } by {
                        lemma_pixel_index_bounds(sw0, sh0, px, py);
                        assert(before.pixel(px, py) == before.bytes@[py * sw0 + px]);
                        if py * sw0 + px == idx {
                            lemma_pixel_index_unique(
                                sw0,
                                px,
                                py,
                                (x0 + col) as int,
                                (y0 + row) as int,
                            );
                        }
                    }
                }
                col = col + 1;
            }
            row = row + 1;
        }
    }
}

/// The screen color of a palette byte (for now, a grey of that level).
pub fn palette_to_rgb(c: u8) -> (rgb: RGB)
    ensures
        rgb == (RGB { r: c, g: c, b: c }),
{
    RGB::from(c, c, c)
}

} // verus!
