//! Data structures for the assets loaded from files.
use vstd::prelude::*;

verus! {

/// Graphics types
#[derive(Clone, Copy, PartialEq, Eq, Debug, Structural)]
pub enum GfxType {
    WALL,
    SPRITE,
    PIC,
}

/// Graphics - contains walls, sprites and miscellaneous (fonts, PICs etc)
/// Each pic is stored as columns, then rows (flipped)
pub struct GfxData {
    pub gtype: GfxType,
    pub width: u16,
    pub height: u16,
    pub pixels: Vec<u8>,
}

impl GfxData {
    /// A 64 x 64 wall texture (or an empty one, 0 x 0, if there are no pixels).
    pub fn new_wall(pixels: Vec<u8>) -> (g: Self)
        requires
            pixels@.len() == 0 || pixels@.len() == 64 * 64,
        ensures
            g.gtype == GfxType::WALL,
            g.width == g.height,
            g.width == (if pixels@.len() == 0 {
                0u16
            } else {
                64u16
            }),
            g.pixels@ == pixels@,
    {
        let wh = if pixels.len() == 0 {
            0
        } else {
            64
        };
        Self::new(GfxType::WALL, wh, wh, pixels)
    }

    /// A 64 x 64 sprite (or an empty one, 0 x 0, if there are no pixels).
    pub fn new_sprite(pixels: Vec<u8>) -> (g: Self)
        requires
            pixels@.len() == 0 || pixels@.len() == 64 * 64,
        ensures
            g.gtype == GfxType::SPRITE,
            g.width == g.height,
            g.width == (if pixels@.len() == 0 {
                0u16
            } else {
                64u16
            }),
            g.pixels@ == pixels@,
    {
        let wh = if pixels.len() == 0 {
            0
        } else {
            64
        };
        Self::new(GfxType::SPRITE, wh, wh, pixels)
    }

    /// A picture of the given size.
    pub fn new_pic(width: u16, height: u16, pixels: Vec<u8>) -> (g: Self)
        requires
            width * height <= u16::MAX,
            pixels@.len() == width * height,
        ensures
            g.gtype == GfxType::PIC,
            g.width == width,
            g.height == height,
            g.pixels@ == pixels@,
    {
        Self::new(GfxType::PIC, width, height, pixels)
    }

    fn new(gtype: GfxType, width: u16, height: u16, pixels: Vec<u8>) -> (g: Self)
        requires
            width * height <= u16::MAX,
            pixels@.len() == width * height,
        ensures
            g.gtype == gtype,
            g.width == width,
            g.height == height,
            g.pixels@ == pixels@,
    {
        Self { gtype, width, height, pixels }
    }
}

pub struct FontData {
    pub font_height: u16,
    pub space_width: u16,
    /// The pixels of the characters from `'!'` (33) on.
    pub char_pixels: Vec<Vec<u8>>,
}

/// The width of a character of a font, from the number of its pixels.
pub open spec fn font_char_width(
    font_height: u16,
    space_width: u16,
    char_lens: Seq<int>,
    ch: u8,
) -> u16 {
    if ch == 32 {
        space_width
    } else if ch >= 33 && ch - 33 < char_lens.len() {
        ((char_lens[ch - 33] % 0x10000) / (font_height as int)) as u16
    } else {
        0
    }
}

impl FontData {
    /// The lengths of the pixel data of each character.
    pub open spec fn char_lens(&self) -> Seq<int> {
        self.char_pixels@.map_values(|p: Vec<u8>| p@.len() as int)
    }

    pub fn new(font_height: u16, space_width: u16) -> (f: Self)
        ensures
            f.font_height == font_height,
            f.space_width == space_width,
            f.char_pixels@.len() == 0,
    {
        Self { font_height, space_width, char_pixels: Vec::with_capacity(100) }
    }

    /// Adds the pixels of the next character.
    pub fn add_char_data(&mut self, pixels: Vec<u8>)
        ensures
            final(self).char_pixels@ == old(self).char_pixels@.push(pixels),
            final(self).font_height == old(self).font_height,
            final(self).space_width == old(self).space_width,
    {
        self.char_pixels.push(pixels)
    }

    /// The width of a character: the space width for `' '`, the number of pixel
    /// columns of the glyph for a known character, 0 for any other.
    pub fn char_width(&self, ch: u8) -> (w: u16)
        requires
            (ch >= 33 && ch - 33 < self.char_pixels@.len()) ==> self.font_height != 0,
        ensures
            w == font_char_width(self.font_height, self.space_width, self.char_lens(), ch),
    {
        if ch == 32 {
            return self.space_width;
        }
        if ch >= 33 {
            let idx = (ch - 33) as usize;
            if idx < self.char_pixels.len() {
                let n = self.char_pixels[idx].len();
                let t = n as u16;
                assert(t == n % 0x10000) by (bit_vector)
                    requires
                        t == n as u16,
                ;
                return t / self.font_height;
            }
        }
        // not a valid char => no width
        0
    }
}

/// Map data - contains walls/doors and things, 64 x 64 tiles each.
pub struct MapData {
    name: String,
    width: u16,
    height: u16,
    walls: Vec<u16>,
    things: Vec<u16>,
}

/// The item at `(x, y)` of a row-by-row plane of size `w` x `h`, or 0 outside it.
pub open spec fn plane_item(plane: Seq<u16>, w: int, h: int, x: int, y: int) -> u16 {
    if 0 <= x < w && 0 <= y < h {
        plane[y * w + x]
    } else {
        0
    }
}

impl MapData {
    pub closed spec fn spec_name(&self) -> Seq<char> {
        self.name@
    }

    pub closed spec fn spec_width(&self) -> int {
        self.width as int
    }

    pub closed spec fn spec_height(&self) -> int {
        self.height as int
    }

    pub closed spec fn spec_walls(&self) -> Seq<u16> {
        self.walls@
    }

    pub closed spec fn spec_things(&self) -> Seq<u16> {
        self.things@
    }

    /// Builds a map; maps are always 64 x 64, with one word per tile in each
    /// plane, wall IDs up to 0xFF and thing IDs up to 0x1FF.
    pub fn new(name: String, width: u16, height: u16, walls: Vec<u16>, things: Vec<u16>) -> (m: Self)
        requires
            name@.len() > 0,
            width == 64,
            height == 64,
            walls@.len() == 4096,
            things@.len() == 4096,
            forall|i: int| 0 <= i < walls@.len() ==> walls@[i] <= 0xFF,
            forall|i: int| 0 <= i < things@.len() ==> things@[i] <= 0x1FF,
        ensures
            m.wf(),
            m.spec_width() == 64,
            m.spec_height() == 64,
            m.spec_name() == name@,
            m.spec_walls() == walls@,
            m.spec_things() == things@,
    {
        Self { name, width, height, walls, things }
    }

    pub fn name(&self) -> (s: &str)
        ensures
            s@ == self.spec_name(),
    {
        self.name.as_str()
    }

    pub fn width(&self) -> (w: i32)
        ensures
            w == self.spec_width(),
    {
        self.width as i32
    }

    pub fn height(&self) -> (h: i32)
        ensures
            h == self.spec_height(),
    {
        self.height as i32
    }

    pub closed spec fn wf(&self) -> bool {
        &&& self.width == 64
        &&& self.height == 64
        &&& self.walls@.len() == 4096
        &&& self.things@.len() == 4096
    }

    /// The wall at `(x, y)`, or 0 outside the map.
    pub fn wall(&self, x: i32, y: i32) -> (w: u16)
        requires
            self.wf(),
        ensures
            w == plane_item(self.spec_walls(), 64, 64, x as int, y as int),
    {
        self.safe_item_from_array(x, y, &self.walls)
    }

    /// The thing at `(x, y)`, or 0 outside the map.
    pub fn thing(&self, x: i32, y: i32) -> (t: u16)
        requires
            self.wf(),
        ensures
            t == plane_item(self.spec_things(), 64, 64, x as int, y as int),
    {
        self.safe_item_from_array(x, y, &self.things)
    }

    fn safe_item_from_array(&self, x: i32, y: i32, vect: &Vec<u16>) -> (r: u16)
        requires
            self.wf(),
            vect@.len() == 4096,
        ensures
            r == plane_item(vect@, 64, 64, x as int, y as int),
    {
        let w = self.width as i32;
        let h = self.height as i32;
        if x >= 0 && y >= 0 && x < w && y < h {
            assert(0 <= y * 64 + x < 4096) by (nonlinear_arith)
                requires
                    0 <= x < 64,
                    0 <= y < 64,
            ;
            let idx = (y * w + x) as usize;
            vect[idx]
        } else {
            0
        }
    }
}

} // verus!
