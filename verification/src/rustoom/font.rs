//! Fonts: the character patches of a WAD, and how text is laid out with them.
use super::game_initializer::is_continuation_byte;
use super::lump_bytes::{bytes_clone, bytes_view};
use super::map_items::{sub_slice, u16_at};
use super::palette::ColorMapper;
use super::pixmap::{PixMap, PixMapKind};
use super::utils::{atoi_bytes, atoi_in_range, decimal_value, is_digit};
use crate::raycasting::painter::RGB;
use bytes::Bytes;
use vstd::prelude::*;
use vstd::string::StringSliceAdditionalSpecFns;

verus! {

/// The number of characters a font holds.
pub const FONT_SIZE: usize = 64;

/// `STCFN`, the prefix of the status bar font's lumps.
pub open spec fn stcfn() -> Seq<u8> {
    seq![83u8, 84u8, 67u8, 70u8, 78u8]
}

/// `FONTA`, the prefix of the other font's lumps.
pub open spec fn fonta() -> Seq<u8> {
    seq![70u8, 79u8, 78u8, 84u8, 65u8]
}

/// Every byte is a digit.
pub open spec fn all_digits(s: Seq<u8>) -> bool {
    forall|j: int| 0 <= j < s.len() ==> is_digit(#[trigger] s[j])
}

/// The number the digits spell, or 9999 where there is anything else.
pub open spec fn number_or_9999(s: Seq<u8>) -> int {
    if all_digits(s) {
        decimal_value(s)
    } else {
        9999
    }
}

/// The character code a font lump's name gives: the number after `STCFN`,
/// or 32 more than the number after `FONTA`; 9999 for anything else.
pub open spec fn font_code(b: Seq<u8>) -> int {
    if b.take(5) == stcfn() {
        number_or_9999(b.skip(5))
    } else if b.take(5) == fonta() {
        number_or_9999(b.skip(5)) + 32
    } else {
        9999
    }
}

/// The slot of a character code: codes 33 to 95 in order, 121 and 124 in the
/// last slot; other codes have none.
pub open spec fn font_slot(code: int) -> Option<int> {
    if 33 <= code <= 95 {
        Some(code - 33)
    } else if code == 121 || code == 124 {
        Some(63)
    } else {
        None
    }
}

/// The slot of the character a lump's name (longer than 6 bytes) stands for.
pub open spec fn font_name_slot(b: Seq<u8>) -> Option<int> {
    if b.len() > 6 {
        font_slot(font_code(b))
    } else {
        None
    }
}

/// The name can be cut after its 5th byte, and its number read within `u32`.
pub open spec fn font_name_readable(b: Seq<u8>) -> bool {
    b.len() > 6 ==> {
        &&& !is_continuation_byte(b[5])
        &&& atoi_in_range(b.skip(5))
        &&& (b.take(5) == fonta() && all_digits(b.skip(5)) ==> decimal_value(b.skip(5)) + 32
            <= u32::MAX)
    }
}

/// The slot of the character that paints a byte of text (lower case letters
/// are painted as upper case ones).
pub open spec fn glyph_index(b: u8) -> int {
    if 33 <= b <= 95 {
        b - 33
    } else if b == 96 {
        6
    } else if 97 <= b <= 122 {
        b - 65
    } else if b == 123 {
        27
    } else if b == 124 {
        63
    } else if b == 125 {
        29
    } else if b == 126 {
        61
    } else {
        0
    }
}

pub struct Font {
    font: Vec<PixMap>,
    height: u16,
    spc_width: u16,
}

impl Font {
    /// There is a slot for each character.
    pub closed spec fn wf(&self) -> bool {
        self.font@.len() == FONT_SIZE
    }

    /// The patch in slot `i`.
    pub closed spec fn spec_glyph(&self, i: int) -> PixMap {
        self.font@[i]
    }

    /// The height of the tallest character.
    pub closed spec fn spec_height(&self) -> u16 {
        self.height
    }

    /// How far a space moves the text on.
    pub closed spec fn spec_space_width(&self) -> u16 {
        self.spc_width
    }

    /// The glyph in slot `i` has no pixels.
    pub open spec fn glyph_empty(&self, i: int) -> bool {
        self.spec_glyph(i).spec_width() == 0 || self.spec_glyph(i).spec_height() == 0
    }

    /// How far a byte of text moves the text on: the width of a space for
    /// bytes up to 32, the width of its character (0 where that is empty).
    pub open spec fn advance(&self, b: u8) -> int {
        if b <= 32 {
            self.spec_space_width() as int
        } else if self.glyph_empty(glyph_index(b)) {
            0
        } else {
            self.spec_glyph(glyph_index(b)).spec_width() as int
        }
    }

    /// The width of a text.
    pub open spec fn text_width(&self, s: Seq<u8>) -> int
        decreases s.len(),
    {
        if s.len() == 0 {
            0
        } else {
            self.text_width(s.drop_last()) + self.advance(s.last())
        }
    }

    /// The characters a text paints: where each starts, from the start of the
    /// text, and its slot; bytes up to 32 and empty characters paint nothing.
    pub open spec fn text_glyphs(&self, s: Seq<u8>) -> Seq<(int, int)>
        decreases s.len(),
    {
        if s.len() == 0 {
            Seq::empty()
        } else {
            let b = s.last();
            let before = self.text_glyphs(s.drop_last());
            if b > 32 && !self.glyph_empty(glyph_index(b)) {
                before.push((self.text_width(s.drop_last()), glyph_index(b)))
            } else {
                before
            }
        }
    }

    /// A font with all its slots empty.
    pub fn new() -> (f: Self)
        ensures
            f.wf(),
            f.spec_height() == 0,
            f.spec_space_width() == 0,
            forall|i: int| 0 <= i < FONT_SIZE ==> #[trigger] f.glyph_empty(i),
    {
        let mut font: Vec<PixMap> = Vec::new();
        let mut i: usize = 0;
        while i < FONT_SIZE
            invariant
                i <= FONT_SIZE,
                font@.len() == i,
                forall|j: int| 0 <= j < i ==> (#[trigger] font@[j]).spec_width() == 0,
            decreases FONT_SIZE - i,
        {
            font.push(PixMap::new_empty());
            i = i + 1;
        }
        Font { font, height: 0, spc_width: 0 }
    }

    /// Stores a font lump's patch in the slot of the character its name
    /// stands for; lumps for no slot are ignored. The font's height grows to
    /// the patch's, and the patch in the slot of `H` gives the space width.
    pub fn add_font_lump(&mut self, name: &str, bytes: &Bytes)
        requires
            old(self).wf(),
            font_name_readable(name.spec_bytes()),
            font_name_slot(name.spec_bytes()) is Some ==> bytes_view(*bytes).len() >= 4,
        ensures
            final(self).wf(),
            match font_name_slot(name.spec_bytes()) {
                Some(i) => {
                    let b = bytes_view(*bytes);
                    &&& final(self).spec_glyph(i).spec_data() == b
                    &&& final(self).spec_glyph(i).spec_kind() == PixMapKind::Patch
                    &&& final(self).spec_glyph(i).spec_width() == u16_at(b, 0)
                    &&& final(self).spec_glyph(i).spec_height() == u16_at(b, 2)
                    &&& forall|j: int|
                        0 <= j < FONT_SIZE && j != i ==> #[trigger] final(self).spec_glyph(j)
                            == old(self).spec_glyph(j)
                    &&& final(self).spec_height() == if u16_at(b, 2) > old(self).spec_height() {
                        u16_at(b, 2) as u16
                    } else {
                        old(self).spec_height()
                    }
                    &&& final(self).spec_space_width() == if i == 39 {
                        u16_at(b, 0) as u16
                    } else {
                        old(self).spec_space_width()
                    }
                },
                None => *final(self) == *old(self),
            },
    {
        let nb = name.as_bytes();
        let ghost b = nb@;
        if nb.len() <= 6 {
            return;
        }
        let code = font_code_of(nb);
        let idx: usize = if 33 <= code && code <= 95 {
            (code - 33) as usize
        } else if code == 121 || code == 124 {
            63
        } else {
            9999
        };
        if idx <= 63 {
            let p = PixMap::from_patch(bytes_clone(bytes));
            if p.height() > self.height {
                self.height = p.height();
            }
            if idx == 39 {
                self.spc_width = p.width();
            }
            self.font.set(idx, p);
        }
    }

    /// Every character from `!` to `Z` has been added.
    pub fn is_complete(&self) -> (r: bool)
        requires
            self.wf(),
        ensures
            r == forall|i: int| 0 <= i <= 57 ==> !#[trigger] self.glyph_empty(i),
    {
        let mut i: usize = 0;
        while i <= 57
            invariant
                self.wf(),
                i <= 58,
                forall|j: int| 0 <= j < i ==> !#[trigger] self.glyph_empty(j),
            decreases 58 - i,
        {
            if self.font[i].is_empty() {
                assert(self.glyph_empty(i as int));
                return false;
            }
            i = i + 1;
        }
        true
    }

    /// The patch in slot `idx`.
    pub fn glyph(&self, idx: usize) -> (p: &PixMap)
        requires
            self.wf(),
            idx < FONT_SIZE,
        ensures
            *p == self.spec_glyph(idx as int),
    {
        &self.font[idx]
    }

    /// Where each character of `text` is painted, from the start of the text,
    /// and which slot paints it: the layout that drawing the text follows.
    pub fn text_layout(&self, text: &str) -> (l: Vec<(i32, usize)>)
        requires
            self.wf(),
            self.text_width(text.spec_bytes()) <= i32::MAX,
        ensures
            l@.len() == self.text_glyphs(text.spec_bytes()).len(),
            forall|k: int|
                0 <= k < l@.len() ==> (#[trigger] l@[k]).0 as int == self.text_glyphs(
                    text.spec_bytes(),
                )[k].0 && l@[k].1 as int == self.text_glyphs(text.spec_bytes())[k].1,
    {
        let bytes = text.as_bytes();
        let ghost s = bytes@;
        let mut out: Vec<(i32, usize)> = Vec::new();
        let mut dx: i32 = 0;
        let mut i: usize = 0;
        while i < bytes.len()
            invariant
                self.wf(),
                s == bytes@,
                self.text_width(s) <= i32::MAX,
                i <= s.len(),
                dx == self.text_width(s.take(i as int)),
                out@.len() == self.text_glyphs(s.take(i as int)).len(),
                forall|k: int|
                    0 <= k < out@.len() ==> (#[trigger] out@[k]).0 as int == self.text_glyphs(
                        s.take(i as int),
                    )[k].0 && out@[k].1 as int == self.text_glyphs(s.take(i as int))[k].1,
            decreases s.len() - i,
        {
            let byte = bytes[i];
            proof {
                assert(s.take(i as int + 1).drop_last() == s.take(i as int));
                self.lemma_text_width_prefix(s, i as int + 1);
            }
            if byte <= 32 {
                dx = dx + self.spc_width as i32;
            } else {
                let idx: usize = if 33 <= byte && byte <= 95 {
                    (byte - 33) as usize
                } else if byte == 96 {
                    6
                } else if 97 <= byte && byte <= 122 {
                    (byte - 65) as usize
                } else if byte == 123 {
                    27
                } else if byte == 124 {
                    63
                } else if byte == 125 {
                    29
                } else if byte == 126 {
                    61
                } else {
                    0
                };
                let char_pixmap = &self.font[idx];
                if !char_pixmap.is_empty() {
                    out.push((dx, idx));
                    dx = dx + char_pixmap.width() as i32;
                }
            }
            i = i + 1;
        }
        assert(s.take(i as int) == s);
        out
    }

    /// The width of a prefix of a text is at most the text's.
    proof fn lemma_text_width_prefix(&self, s: Seq<u8>, n: int)
        requires
            0 <= n <= s.len(),
        ensures
            self.text_width(s.take(n)) <= self.text_width(s),
            self.text_width(s.take(n)) >= 0,
        decreases s.len(),
    {
        if s.len() > 0 {
            if n == s.len() {
                assert(s.take(n) == s);
                self.lemma_text_width_prefix(s.drop_last(), n - 1);
                assert(s.drop_last().take(n - 1) == s.drop_last());
            } else {
                self.lemma_text_width_prefix(s.drop_last(), n);
                assert(s.drop_last().take(n) == s.take(n));
            }
        }
    }
}

/// The character code a font lump's name gives.
#[verifier::spinoff_prover]
#[verifier::rlimit(40)]
fn font_code_of(nb: &[u8]) -> (code: u32)
    requires
        nb@.len() > 6,
        font_name_readable(nb@),
    ensures
        code == font_code(nb@),
{
    let ghost b = nb@;
    let prefix = sub_slice(nb, 0, 5);
    let suffix = sub_slice(nb, 5, nb.len());
    assert(suffix@ == b.skip(5));
    assert(prefix@ == b.take(5));
    let is_stcfn = is_prefix(prefix, 83, 84, 67, 70, 78);
    assert(is_stcfn == (b.take(5) == stcfn()));
    let is_fonta = is_prefix(prefix, 70, 79, 78, 84, 65);
    assert(is_fonta == (b.take(5) == fonta()));
    if is_stcfn {
        match atoi_bytes(suffix) {
            Some(n) => n,
            None => 9999,
        }
    } else if is_fonta {
        match atoi_bytes(suffix) {
            Some(n) => n + 32,
            None => 9999 + 32,
        }
    } else {
        9999
    }
}

/// The first five bytes are `b0` to `b4`.
fn is_prefix(p: &[u8], b0: u8, b1: u8, b2: u8, b3: u8, b4: u8) -> (r: bool)
    requires
        p@.len() == 5,
    ensures
        r == (p@ == seq![b0, b1, b2, b3, b4]),
{
    let r = p[0] == b0 && p[1] == b1 && p[2] == b2 && p[3] == b3 && p[4] == b4;
    if r {
        assert(p@ == seq![b0, b1, b2, b3, b4]);
    }
    r
}

/// Colors font pixels: a byte value scales the font's color (255 gives the
/// color itself).
pub struct FontColorMapper(pub RGB);

impl ColorMapper for FontColorMapper {
    open spec fn mapper_ready(&self) -> bool {
        true
    }

    fn byte2rgb(&self, color: u8) -> (c: RGB)
        ensures
            c.r == self.0.r * color / 255,
            c.g == self.0.g * color / 255,
            c.b == self.0.b * color / 255,
    {
        assert(self.0.r * color / 255 <= 255) by (nonlinear_arith);
        assert(self.0.g * color / 255 <= 255) by (nonlinear_arith);
        assert(self.0.b * color / 255 <= 255) by (nonlinear_arith);
        let r = (self.0.r as u32) * (color as u32) / 255;
        let g = (self.0.g as u32) * (color as u32) / 255;
        let b = (self.0.b as u32) * (color as u32) / 255;
        RGB::from(r as u8, g as u8, b as u8)
    }
}

} // verus!
