//! Palette and color handling/mapping.
use crate::raycasting::painter::RGB;
use crate::text::{joined, decimal, decimal_string};
use vstd::prelude::*;
use vstd::string::StringExecFns;

verus! {

/// Maps a byte value to a color.
pub trait ColorMapper {
    /// The mapper's data is consistent, so that it can map every byte.
    spec fn mapper_ready(&self) -> bool;

    fn byte2rgb(&self, color: u8) -> RGB
        requires
            self.mapper_ready(),
    ;
}

/// The bytes of one palette: 256 colors of 3 bytes.
pub const PALETTE_SIZE: usize = 768;

/// The bytes of one color map: a palette index for each of 256 values.
pub const COLORMAP_SIZE: usize = 256;

pub struct Palette {
    colormaps: Vec<u8>,
    palletes: Vec<u8>,
    cmap_cnt: usize,
    cmap_selection: usize,
    pal_cnt: usize,
    pal_selection: usize,
}

impl Palette {
    /// The counts are those of whole palettes and color maps in the data,
    /// and each selection starts a palette (a color map) that is there, or is
    /// 0 where there is none.
    pub closed spec fn wf(&self) -> bool {
        &&& self.palletes@.len() <= usize::MAX
        &&& self.colormaps@.len() <= usize::MAX
        &&& self.pal_cnt == self.palletes@.len() / 768
        &&& self.cmap_cnt == self.colormaps@.len() / 256
        &&& self.pal_selection % 768 == 0
        &&& self.cmap_selection % 256 == 0
        &&& (self.pal_cnt == 0 ==> self.pal_selection == 0)
        &&& (self.pal_cnt > 0 ==> self.pal_selection < self.pal_cnt * 768)
        &&& (self.cmap_cnt == 0 ==> self.cmap_selection == 0)
        &&& (self.cmap_cnt > 0 ==> self.cmap_selection < self.cmap_cnt * 256)
    }

    /// The bytes of all the palettes (PLAYPAL).
    pub closed spec fn spec_palettes(&self) -> Seq<u8> {
        self.palletes@
    }

    /// The bytes of all the color maps (COLORMAP).
    pub closed spec fn spec_colormaps(&self) -> Seq<u8> {
        self.colormaps@
    }

    /// The number of the selected palette.
    pub closed spec fn spec_palette_selection(&self) -> nat {
        (self.pal_selection / 768) as nat
    }

    /// The number of the selected color map.
    pub closed spec fn spec_colormap_selection(&self) -> nat {
        (self.cmap_selection / 256) as nat
    }

    /// The number of whole palettes.
    pub open spec fn palette_count(&self) -> nat {
        self.spec_palettes().len() / 768
    }

    /// The number of whole color maps.
    pub open spec fn colormap_count(&self) -> nat {
        self.spec_colormaps().len() / 256
    }

    /// The color of a byte value: gray where palettes or color maps are
    /// missing; else the selected color map gives a palette entry, whose three
    /// bytes in the selected palette are red, green and blue.
    pub open spec fn color_of(&self, color: u8) -> RGB {
        if self.colormap_count() == 0 || self.palette_count() == 0 {
            RGB { r: color, g: color, b: color }
        } else {
            let cmap_idx = self.spec_colormap_selection() * 256 + color;
            let pal_idx = self.spec_palette_selection() * 768 + 3 * self.spec_colormaps()[cmap_idx as int];
            RGB {
                r: self.spec_palettes()[pal_idx],
                g: self.spec_palettes()[pal_idx + 1],
                b: self.spec_palettes()[pal_idx + 2],
            }
        }
    }

    pub fn new() -> (p: Self)
        ensures
            p.wf(),
            p.spec_palettes().len() == 0,
            p.spec_colormaps().len() == 0,
            p.spec_palette_selection() == 0,
            p.spec_colormap_selection() == 0,
    {
        Palette {
            colormaps: Vec::new(),
            palletes: Vec::new(),
            cmap_cnt: 0,
            cmap_selection: 0,
            pal_cnt: 0,
            pal_selection: 0,
        }
    }

    /// Takes the palettes (PLAYPAL) and selects the first.
    pub fn init_palettes(&mut self, bytes: &[u8])
        requires
            old(self).wf(),
        ensures
            final(self).wf(),
            final(self).spec_palettes() == bytes@,
            final(self).spec_palette_selection() == 0,
            final(self).spec_colormaps() == old(self).spec_colormaps(),
            final(self).spec_colormap_selection() == old(self).spec_colormap_selection(),
    {
        self.palletes = vstd::slice::slice_to_vec(bytes);
        self.pal_selection = 0;
        self.pal_cnt = bytes.len() / 768;
    }

    /// Takes the color maps (COLORMAP) and selects the first.
    pub fn init_colormaps(&mut self, bytes: &[u8])
        requires
            old(self).wf(),
        ensures
            final(self).wf(),
            final(self).spec_colormaps() == bytes@,
            final(self).spec_colormap_selection() == 0,
            final(self).spec_palettes() == old(self).spec_palettes(),
            final(self).spec_palette_selection() == old(self).spec_palette_selection(),
    {
        self.colormaps = vstd::slice::slice_to_vec(bytes);
        self.cmap_selection = 0;
        self.cmap_cnt = bytes.len() / 256;
    }

    pub fn is_palette_initialized(&self) -> (b: bool)
        requires
            self.wf(),
        ensures
            b == (self.palette_count() > 0),
    {
        self.pal_cnt > 0
    }

    pub fn is_colormap_initialized(&self) -> (b: bool)
        requires
            self.wf(),
        ensures
            b == (self.colormap_count() > 0),
    {
        self.cmap_cnt > 0
    }

    /// Selects palette `pal`, refused where there is no such palette.
    pub fn select_palette(&mut self, pal: usize) -> (r: Result<(), String>)
        requires
            old(self).wf(),
        ensures
            final(self).wf(),
            final(self).spec_palettes() == old(self).spec_palettes(),
            final(self).spec_colormaps() == old(self).spec_colormaps(),
            final(self).spec_colormap_selection() == old(self).spec_colormap_selection(),
            match r {
                Ok(()) => pal < old(self).palette_count() && final(self).spec_palette_selection()
                    == pal,
                Err(e) => pal >= old(self).palette_count() && final(self).spec_palette_selection()
                    == old(self).spec_palette_selection() && e@ == "Invalid palette index: "@
                    + decimal(pal as nat) + " >= "@ + decimal(old(self).palette_count()),
            },
    {
        if pal >= self.pal_cnt {
            let msg = joined(String::from_str("Invalid palette index: "), decimal_string(pal as u64).as_str());
            let msg = joined(msg, " >= ");
            Err(joined(msg, decimal_string(self.pal_cnt as u64).as_str()))
        } else {
            assert(pal * 768 < self.pal_cnt * 768 <= self.palletes@.len()) by (nonlinear_arith)
                requires
                    pal < self.pal_cnt,
                    self.pal_cnt == self.palletes@.len() / 768,
            ;
            assert((pal * 768) % 768 == 0 && (pal * 768) / 768 == pal) by (nonlinear_arith);
            self.pal_selection = pal * 768;
            Ok(())
        }
    }

    /// Selects color map `cmap`, refused where there is no such color map.
    pub fn select_colormap(&mut self, cmap: usize) -> (r: Result<(), String>)
        requires
            old(self).wf(),
        ensures
            final(self).wf(),
            final(self).spec_palettes() == old(self).spec_palettes(),
            final(self).spec_colormaps() == old(self).spec_colormaps(),
            final(self).spec_palette_selection() == old(self).spec_palette_selection(),
            match r {
                Ok(()) => cmap < old(self).colormap_count() && final(self).spec_colormap_selection()
                    == cmap,
                Err(e) => cmap >= old(self).colormap_count() && final(self).spec_colormap_selection()
                    == old(self).spec_colormap_selection() && e@ == "Invalid colormap index: "@
                    + decimal(cmap as nat) + " >= "@ + decimal(old(self).colormap_count()),
            },
    {
        if cmap >= self.cmap_cnt {
            let msg = joined(String::from_str("Invalid colormap index: "), decimal_string(cmap as u64).as_str());
            let msg = joined(msg, " >= ");
            Err(joined(msg, decimal_string(self.cmap_cnt as u64).as_str()))
        } else {
            assert(cmap * 256 < self.cmap_cnt * 256 <= self.colormaps@.len()) by (nonlinear_arith)
                requires
                    cmap < self.cmap_cnt,
                    self.cmap_cnt == self.colormaps@.len() / 256,
            ;
            assert((cmap * 256) % 256 == 0 && (cmap * 256) / 256 == cmap) by (nonlinear_arith);
            self.cmap_selection = cmap * 256;
            Ok(())
        }
    }
}

/// A selection that starts one of the `cnt` blocks of `size` bytes leaves a
/// whole block after it within the data.
proof fn lemma_block_in_range(sel: int, size: int, cnt: int, len: int)
    requires
        size > 0,
        sel >= 0,
        sel % size == 0,
        sel < cnt * size,
        cnt == len / size,
        len >= 0,
    ensures
        sel + size <= len,
{
    assert(sel + size <= cnt * size) by (nonlinear_arith)
        requires
            size > 0,
            sel >= 0,
            sel % size == 0,
            sel < cnt * size,
    {
        let k = sel / size;
        assert(sel == k * size);
        assert(k < cnt);
        assert(k + 1 <= cnt);
        assert((k + 1) * size <= cnt * size);
    }
    assert(cnt * size <= len) by (nonlinear_arith)
        requires
            size > 0,
            cnt == len / size,
            len >= 0,
    ;
}

impl ColorMapper for Palette {
    open spec fn mapper_ready(&self) -> bool {
        self.wf()
    }

    fn byte2rgb(&self, color: u8) -> (c: RGB)
        ensures
            c == self.color_of(color),
    {
        if self.cmap_cnt == 0 || self.pal_cnt == 0 {
            RGB::from(color, color, color)
        } else {
            proof {
                lemma_block_in_range(self.pal_selection as int, 768, self.pal_cnt as int, self.palletes@.len() as int);
                lemma_block_in_range(self.cmap_selection as int, 256, self.cmap_cnt as int, self.colormaps@.len() as int);
            }
            let cmap_idx = self.cmap_selection + (color as usize);
            let pal_entry = 3 * (self.colormaps[cmap_idx] as usize);
            let pal_idx = self.pal_selection + pal_entry;
            let r = self.palletes[pal_idx];
            let g = self.palletes[pal_idx + 1];
            let b = self.palletes[pal_idx + 2];
            RGB::from(r, g, b)
        }
    }
}

} // verus!
