//! A small graphics surface: its size and its 256-color palette.
use vstd::prelude::*;

verus! {

#[derive(Debug, Clone, Copy, PartialEq, Eq, Structural)]
pub struct Color {
    r: u8,
    g: u8,
    b: u8,
}

impl Color {
    /// The red, green and blue parts.
    pub closed spec fn spec_rgb(&self) -> (u8, u8, u8) {
        (self.r, self.g, self.b)
    }

    pub fn from(r: u8, g: u8, b: u8) -> (c: Self)
        ensures
            c.spec_rgb() == (r, g, b),
    {
        Color { r, g, b }
    }

    pub fn set(&mut self, r: u8, g: u8, b: u8)
        ensures
            final(self).spec_rgb() == (r, g, b),
    {
        self.r = r;
        self.g = g;
        self.b = b;
    }
}

pub struct Gfx {
    width: i32,
    height: i32,
    pix_size: i32,
    palette: [Color; 256],
}

impl Gfx {
    /// The width, height and pixel size.
    pub closed spec fn spec_size(&self) -> (i32, i32, i32) {
        (self.width, self.height, self.pix_size)
    }

    /// The 256 colors of the palette.
    pub closed spec fn spec_palette(&self) -> Seq<Color> {
        self.palette@
    }

    /// A surface whose palette is all black.
    pub fn new(width: i32, height: i32, pix_size: i32) -> (g: Self)
        ensures
            g.spec_size() == (width, height, pix_size),
            g.spec_palette().len() == 256,
            forall|i: int| 0 <= i < 256 ==> (#[trigger] g.spec_palette()[i]).spec_rgb() == (0u8, 0u8, 0u8),
    {
        let black = Color::from(0, 0, 0);
        Gfx { width, height, pix_size, palette: [black; 256] }
    }

    pub fn width(&self) -> (w: i32)
        ensures
            w == self.spec_size().0,
    {
        self.width
    }

    pub fn height(&self) -> (h: i32)
        ensures
            h == self.spec_size().1,
    {
        self.height
    }

    /// Sets color `color_idx` of the palette.
    pub fn set_palette_color(&mut self, color_idx: u8, r: u8, g: u8, b: u8)
        ensures
            final(self).spec_size() == old(self).spec_size(),
            final(self).spec_palette().len() == 256,
            final(self).spec_palette()[color_idx as int].spec_rgb() == (r, g, b),
            forall|i: int|
                0 <= i < 256 && i != color_idx ==> #[trigger] final(self).spec_palette()[i]
                    == old(self).spec_palette()[i],
    {
        self.palette[color_idx as usize] = Color::from(r, g, b);
    }

    /// Painting through the palette is not done yet: nothing changes.
    pub fn put_pixel(&self, color_idx: u8) {
    }
}

} // verus!
