//! Index of the WAD graphics: sprites, patches and flats by name, with the
//! palette and the font.
use super::font::Font;
use super::game_initializer::{
    font_holds, fonts_complete, is_ascii_digit, lemma_font_push, lemma_lump_name_bytes, looks_like_graphic, lump_bytes_of,
    lump_name_seq, quick_check_if_lump_is_graphic, starts_with,
};
use super::lump_bytes::{bytes_as_slice, bytes_len, bytes_view};
use super::map_items::name_key_at;
use super::palette::Palette;
use super::pixmap::{PixMap, PixMapKind};
use super::utils::{atoi_bytes, hash_lump_name, is_digit, lemma_short_atoi_in_range, lump_hash, name_len};
use super::wad::{lump_name_ok, lump_name_text, WadData};
use crate::text::same_text;
use std::collections::HashMap;
use std::rc::Rc;
use vstd::prelude::*;
use vstd::string::StringExecFns;
use vstd::string::StringSliceAdditionalSpecFns;

verus! {

/// `TEXTURE` and a number: the name of a texture lump.
pub open spec fn spec_is_texture_lump(b: Seq<u8>) -> bool {
    b.len() == 8 && b.take(7) == seq![84u8, 69u8, 88u8, 84u8, 85u8, 82u8, 69u8] && is_digit(b[7])
}

pub fn is_texture_lump(name: &str) -> (r: bool)
    requires
        name.spec_bytes().len() == 8 ==> !(0x80 <= name.spec_bytes()[7] < 0xC0),
    ensures
        r == spec_is_texture_lump(name.spec_bytes()),
{
    let b = name.as_bytes();
    if b.len() != 8 {
        return false;
    }
    let word: [u8; 7] = [84, 69, 88, 84, 85, 82, 69];
    assert(word@ == seq![84u8, 69u8, 88u8, 84u8, 85u8, 82u8, 69u8]);
    if !starts_with(b, word.as_slice(), 7) {
        return false;
    }
    is_ascii_digit(b[7])
}

/// The key under which lump `i` is indexed: the hash of its name.
pub open spec fn lump_key(wad: WadData, i: int) -> u64 {
    let n = wad.lump_name_bytes(i);
    lump_hash(n.take(name_len(n)))
}

/// Every key of the index points at a lump of the WAD that is not empty and
/// whose name has that key.
pub open spec fn index_ok(wad: WadData, m: Map<u64, usize>) -> bool {
    forall|k: u64|
        #[trigger] m.contains_key(k) ==> {
            let i = m[k] as int;
            &&& i < wad.spec_lump_count()
            &&& wad.lump_ok(i)
            &&& lump_key(wad, i) == k
            &&& wad.lump_size(i) > 0
        }
}

/// Indexing lump `i` under its key keeps an index good.
proof fn lemma_index_insert(wad: WadData, m: Map<u64, usize>, k: u64, i: usize)
    requires
        index_ok(wad, m),
        i < wad.spec_lump_count(),
        wad.lump_ok(i as int),
        lump_key(wad, i as int) == k,
        wad.lump_size(i as int) > 0,
    ensures
        index_ok(wad, m.insert(k, i)),
{
    assert forall|k2: u64| #[trigger] m.insert(k, i).contains_key(k2) implies {
        let j = m.insert(k, i)[k2] as int;
        &&& j < wad.spec_lump_count()
        &&& wad.lump_ok(j)
        &&& lump_key(wad, j) == k2
        &&& wad.lump_size(j) > 0
    } by {
        if k2 != k {
            assert(m.contains_key(k2));
        }
    }
}

/// What indexing the lumps of a WAD has gathered so far.
pub struct IndexWalk {
    /// Inside `S_START` .. `S_END`, `P_START` .. `P_END`, `F_START` .. `F_END`.
    pub in_sprites: bool,
    pub in_patches: bool,
    pub in_flats: bool,
    /// The lump numbers of the sprites, patches and flats, by name key.
    pub sprites: Map<u64, usize>,
    pub patches: Map<u64, usize>,
    pub flats: Map<u64, usize>,
    /// The last PLAYPAL and COLORMAP lumps (empty: none yet).
    pub palettes: Seq<u8>,
    pub colormaps: Seq<u8>,
    /// The other graphics, offered to the font (name bytes and data), in order.
    pub fonts: Seq<(Seq<u8>, Seq<u8>)>,
    /// Why the walk stopped.
    pub error: Option<Seq<char>>,
}

/// Nothing indexed yet.
pub open spec fn index_start() -> IndexWalk {
    IndexWalk {
        in_sprites: false,
        in_patches: false,
        in_flats: false,
        sprites: Map::empty(),
        patches: Map::empty(),
        flats: Map::empty(),
        palettes: Seq::empty(),
        colormaps: Seq::empty(),
        fonts: Seq::empty(),
        error: None,
    }
}

/// The index after lump `i`, named `name` (bytes `nb`), holding `bytes`:
/// PLAYPAL and COLORMAP are kept; TEXTUREx and PNAMES are skipped; the
/// start and end markers open and close the sprite, patch and flat ranges;
/// a non-empty lump in a range is indexed there (sprites first), and any
/// other non-empty lump that looks like a graphic is offered to the font.
pub open spec fn index_step(s: IndexWalk, i: usize, name: Seq<char>, nb: Seq<u8>, bytes: Seq<u8>) -> IndexWalk {
    let k = lump_hash(nb.take(name_len(nb)));
    if name == "PLAYPAL"@ {
        IndexWalk { palettes: bytes, ..s }
    } else if name == "COLORMAP"@ {
        IndexWalk { colormaps: bytes, ..s }
    } else if spec_is_texture_lump(nb) || name == "PNAMES"@ {
        s
    } else if name == "S_START"@ {
        IndexWalk { in_sprites: true, ..s }
    } else if name == "S_END"@ {
        IndexWalk { in_sprites: false, ..s }
    } else if name == "P_START"@ {
        IndexWalk { in_patches: true, ..s }
    } else if name == "P_END"@ {
        IndexWalk { in_patches: false, ..s }
    } else if name == "F_START"@ {
        IndexWalk { in_flats: true, ..s }
    } else if name == "F_END"@ {
        IndexWalk { in_flats: false, ..s }
    } else if s.in_sprites && bytes.len() > 0 {
        IndexWalk { sprites: s.sprites.insert(k, i), ..s }
    } else if s.in_patches && bytes.len() > 0 {
        IndexWalk { patches: s.patches.insert(k, i), ..s }
    } else if s.in_flats && bytes.len() > 0 {
        IndexWalk { flats: s.flats.insert(k, i), ..s }
    } else if bytes.len() > 0 && looks_like_graphic(bytes) {
        IndexWalk { fonts: s.fonts.push((nb, bytes)), ..s }
    } else {
        s
    }
}

/// The index over the first `n` lumps of the WAD; the first lump that
/// cannot be read stops it.
pub open spec fn index_walk(w: WadData, n: nat) -> IndexWalk
    decreases n,
{
    if n == 0 {
        index_start()
    } else {
        let s = index_walk(w, (n - 1) as nat);
        if s.error is Some {
            s
        } else if !w.lump_ok(n - 1) {
            IndexWalk { error: Some(w.lump_error(n - 1)), ..s }
        } else {
            index_step(s, (n - 1) as usize, lump_name_text(w.lump_name_bytes(n - 1)), lump_name_seq(w, n - 1), lump_bytes_of(w, n - 1))
        }
    }
}

/// Why indexing fails, if it does: a lump that cannot be read, or palettes,
/// color maps, sprites, patches, flats or font characters missing.
pub open spec fn index_error(m: IndexWalk) -> Option<Seq<char>> {
    if m.error is Some {
        m.error
    } else if m.palettes.len() / 768 == 0 {
        Some("Pallete lump not found in WAD"@)
    } else if m.colormaps.len() / 256 == 0 {
        Some("Colormap lump not found in WAD"@)
    } else if m.sprites.len() == 0 {
        Some("Sprites not found in WAD"@)
    } else if m.patches.len() == 0 {
        Some("Patches not found in WAD"@)
    } else if m.flats.len() == 0 {
        Some("Flats not found in WAD"@)
    } else if !fonts_complete(m.fonts) {
        Some("Fonts not found in WAD"@)
    } else {
        None
    }
}

/// Once indexing has stopped, the rest of the lumps leave it as it is.
proof fn lemma_index_error_sticks(w: WadData, k: nat, n: nat)
    requires
        k <= n,
        index_walk(w, k).error is Some,
    ensures
        index_walk(w, n) == index_walk(w, k),
    decreases n - k,
{
    if n > k {
        lemma_index_error_sticks(w, k, (n - 1) as nat);
    }
}

pub struct GraphicsHandler {
    wad_data: Rc<WadData>,
    sprites: HashMap<u64, usize>,
    patches: HashMap<u64, usize>,
    flats: HashMap<u64, usize>,
    pub palette: Palette,
    pub font: Font,
}

impl GraphicsHandler {
    /// The WAD's directory lies within it, the indexes point at its lumps,
    /// and the palette and the font are consistent.
    pub closed spec fn wf(&self) -> bool {
        let w = *self.wad_data;
        &&& w.spec_dir_offset() + 16 * w.spec_lump_count() <= w.spec_bytes().len()
        &&& index_ok(w, self.sprites@)
        &&& index_ok(w, self.patches@)
        &&& index_ok(w, self.flats@)
        &&& self.palette.wf()
        &&& self.font.wf()
    }

    pub closed spec fn spec_palette(&self) -> Palette {
        self.palette
    }

    pub closed spec fn spec_font(&self) -> Font {
        self.font
    }

    pub closed spec fn spec_wad(&self) -> WadData {
        *self.wad_data
    }

    /// The indexes of sprites, patches and flats: name keys to lump numbers.
    pub closed spec fn spec_indexes(&self) -> (Map<u64, usize>, Map<u64, usize>, Map<u64, usize>) {
        (self.sprites@, self.patches@, self.flats@)
    }

    /// The handler is ready: palettes and color maps, sprites, patches and
    /// flats were found, and the font is complete.
    pub open spec fn collected(&self) -> bool {
        &&& self.spec_palette().palette_count() > 0
        &&& self.spec_palette().colormap_count() > 0
        &&& self.spec_indexes().0.len() > 0
        &&& self.spec_indexes().1.len() > 0
        &&& self.spec_indexes().2.len() > 0
        &&& forall|i: int| 0 <= i <= 57 ==> !#[trigger] self.spec_font().glyph_empty(i)
    }

    /// Indexes the graphics of a WAD whose directory lies within it (see
    /// [`index_walk`]); refused with the message that [`index_error`] gives.
    pub fn new(wad_data: Rc<WadData>) -> (r: Result<Self, String>)
        requires
            wad_data.spec_dir_offset() + 16 * wad_data.spec_lump_count() <= wad_data.spec_bytes().len(),
        ensures
            ({
                let m = index_walk(*wad_data, wad_data.spec_lump_count());
                match r {
                    Ok(g) => {
                        &&& index_error(m) is None
                        &&& g.wf()
                        &&& g.collected()
                        &&& g.spec_wad() == *wad_data
                        &&& g.spec_indexes() == (m.sprites, m.patches, m.flats)
                        &&& g.spec_palette().spec_palettes() == m.palettes
                        &&& g.spec_palette().spec_colormaps() == m.colormaps
                        &&& g.spec_palette().spec_palette_selection() == 0
                        &&& g.spec_palette().spec_colormap_selection() == 0
                        &&& font_holds(g.spec_font(), m.fonts)
                    },
                    Err(e) => index_error(m) == Some(e@),
                }
            }),
    {
        let mut g = GraphicsHandler {
            wad_data,
            sprites: HashMap::new(),
            patches: HashMap::new(),
            flats: HashMap::new(),
            palette: Palette::new(),
            font: Font::new(),
        };
        assert(font_holds(g.font, Seq::empty()));
        match g.parse_and_collect_lump_data() {
            Ok(()) => {},
            Err(e) => {
                return Err(e);
            },
        }
        let ghost m = index_walk(g.spec_wad(), g.spec_wad().spec_lump_count());
        assert((forall|i: int| 0 <= i <= 57 ==> !#[trigger] g.spec_font().glyph_empty(i)) == fonts_complete(m.fonts)) by {
            if forall|i: int| 0 <= i <= 57 ==> !#[trigger] g.spec_font().glyph_empty(i) {
                assert forall|i: int| 0 <= i <= 57 implies match #[trigger] super::game_initializer::font_slot_data(m.fonts, i) {
                    Some(d) => super::map_items::u16_at(d, 0) != 0 && super::map_items::u16_at(d, 2) != 0,
                    None => false,
                } by {
                    assert(!g.spec_font().glyph_empty(i));
                }
            }
            if fonts_complete(m.fonts) {
                assert forall|i: int| 0 <= i <= 57 implies !#[trigger] g.spec_font().glyph_empty(i) by {
                    assert(match super::game_initializer::font_slot_data(m.fonts, i) {
                        Some(d) => super::map_items::u16_at(d, 0) != 0 && super::map_items::u16_at(d, 2) != 0,
                        None => false,
                    });
                }
            }
        }
        match g.validate_collected_lump_data() {
            Ok(()) => Ok(g),
            Err(e) => Err(e),
        }
    }

    /// Sprites are not decoded yet: `None`.
    pub fn get_sprite(&self, sprite_name: &str) -> (p: Option<PixMap>)
        requires
            self.wf(),
        ensures
            p is None,
    {
        self.get_mapped_graphic(sprite_name, &self.sprites)
    }

    /// Patches are not decoded yet: `None`.
    pub fn get_patch(&self, patch_name: &str) -> (p: Option<PixMap>)
        requires
            self.wf(),
        ensures
            p is None,
    {
        self.get_mapped_graphic(patch_name, &self.patches)
    }

    /// The flat indexed under the name's key, read from its lump.
    pub fn get_flat(&self, flat_name: &str) -> (p: Option<PixMap>)
        requires
            self.wf(),
        ensures
            ({
                let k = lump_hash(flat_name.spec_bytes().take(name_len(flat_name.spec_bytes())));
                match p {
                    Some(p) => self.spec_indexes().2.contains_key(k) && p.spec_kind()
                        == PixMapKind::Flat && p.spec_width() == 64 && p.spec_data()
                        == self.spec_wad().spec_bytes().subrange(
                        self.spec_wad().lump_start(self.spec_indexes().2[k] as int),
                        self.spec_wad().lump_start(self.spec_indexes().2[k] as int)
                            + self.spec_wad().lump_size(self.spec_indexes().2[k] as int),
                    ),
                    None => !self.spec_indexes().2.contains_key(k),
                }
            }),
    {
        let k = hash_lump_name(flat_name.as_bytes());
        match self.flats.get(&k) {
            Some(idx) => {
                let i = *idx;
                assert(self.flats@.contains_key(k));
                match self.wad_data.get_lump(i) {
                    Ok(l) => Some(PixMap::from_flat(l.bytes)),
                    Err(_) => None,
                }
            },
            None => None,
        }
    }

    /// Looks the name up in an index; decoding the lump is not done yet.
    fn get_mapped_graphic(&self, name: &str, mapp: &HashMap<u64, usize>) -> (p: Option<PixMap>)
        ensures
            p is None,
    {
        let k = hash_lump_name(name.as_bytes());
        match mapp.get(&k) {
            Some(_) => None,
            None => None,
        }
    }

    /// Walks the lumps in order (see [`index_step`]).
    fn parse_and_collect_lump_data(&mut self) -> (r: Result<(), String>)
        requires
            old(self).wf(),
            old(self).sprites@ == Map::<u64, usize>::empty(),
            old(self).patches@ == Map::<u64, usize>::empty(),
            old(self).flats@ == Map::<u64, usize>::empty(),
            old(self).palette.spec_palettes().len() == 0,
            old(self).palette.spec_colormaps().len() == 0,
            old(self).palette.spec_palette_selection() == 0,
            old(self).palette.spec_colormap_selection() == 0,
            font_holds(old(self).font, Seq::empty()),
        ensures
            final(self).wf(),
            final(self).spec_wad() == old(self).spec_wad(),
            ({
                let m = index_walk(old(self).spec_wad(), old(self).spec_wad().spec_lump_count());
                match r {
                    Ok(()) => {
                        &&& m.error is None
                        &&& final(self).spec_indexes() == (m.sprites, m.patches, m.flats)
                        &&& final(self).palette.spec_palettes() == m.palettes
                        &&& final(self).palette.spec_colormaps() == m.colormaps
                        &&& final(self).palette.spec_palette_selection() == 0
                        &&& final(self).palette.spec_colormap_selection() == 0
                        &&& font_holds(final(self).font, m.fonts)
                    },
                    Err(e) => m.error == Some(e@),
                }
            }),
    {
        let ghost w = self.spec_wad();
        let ghost mut m = index_start();
        let mut in_sprites = false;
        let mut in_patches = false;
        let mut in_flats = false;
        let count = self.wad_data.get_lump_count();
        let mut lump_idx: usize = 0;
        assert(self.palette.spec_palettes() =~= Seq::<u8>::empty());
        assert(self.palette.spec_colormaps() =~= Seq::<u8>::empty());
        while lump_idx < count
            invariant
                self.wf(),
                self.spec_wad() == w,
                w == old(self).spec_wad(),
                count == w.spec_lump_count(),
                lump_idx <= count,
                m == index_walk(w, lump_idx as nat),
                m.error is None,
                self.spec_indexes() == (m.sprites, m.patches, m.flats),
                (in_sprites, in_patches, in_flats) == (m.in_sprites, m.in_patches, m.in_flats),
                self.palette.spec_palettes() == m.palettes,
                self.palette.spec_colormaps() == m.colormaps,
                self.palette.spec_palette_selection() == 0,
                self.palette.spec_colormap_selection() == 0,
                font_holds(self.font, m.fonts),
            decreases count - lump_idx,
        {
            let l = match self.wad_data.get_lump(lump_idx) {
                Ok(l) => l,
                Err(e) => {
                    proof {
                        lemma_index_error_sticks(w, (lump_idx + 1) as nat, count as nat);
                    }
                    return Err(e);
                },
            };
            let ghost name_src = self.spec_wad().lump_name_bytes(lump_idx as int);
            proof {
                lemma_lump_name_bytes(name_src);
            }
            let name = l.name.as_str();
            let ghost nb = lump_name_seq(w, lump_idx as int);
            let ghost lb = lump_bytes_of(w, lump_idx as int);
            assert(name.spec_bytes() == name_src.take(name_len(name_src)));
            assert(name.spec_bytes() == nb);
            proof {
                if name.spec_bytes().len() == 8 {
                    assert(name.spec_bytes()[7] == name_src[7]);
                    assert(super::wad::name_byte_ok(name_src[7]));
                }
            }
            proof {
                assert(name_len(name.spec_bytes()) == name_len(name_src));
                assert(name.spec_bytes().take(name_len(name.spec_bytes())) == name.spec_bytes());
                assert(lump_hash(name.spec_bytes().take(name_len(name.spec_bytes()))) == lump_key(
                    self.spec_wad(),
                    lump_idx as int,
                ));
            }
            assert(index_walk(w, (lump_idx + 1) as nat) == index_step(m, lump_idx, name@, nb, lb));
            let non_empty = bytes_len(&l.bytes) > 0;
            if same_text(name, "PLAYPAL") {
                self.palette.init_palettes(bytes_as_slice(&l.bytes));
            } else if same_text(name, "COLORMAP") {
                self.palette.init_colormaps(bytes_as_slice(&l.bytes));
            } else if is_texture_lump(name) {
            } else if same_text(name, "PNAMES") {
            } else if same_text(name, "S_START") {
                in_sprites = true;
            } else if same_text(name, "S_END") {
                in_sprites = false;
            } else if same_text(name, "P_START") {
                in_patches = true;
            } else if same_text(name, "P_END") {
                in_patches = false;
            } else if same_text(name, "F_START") {
                in_flats = true;
            } else if same_text(name, "F_END") {
                in_flats = false;
            } else if in_sprites && non_empty {
                let k = hash_lump_name(name.as_bytes());
                proof {
                    lemma_index_insert(self.spec_wad(), self.sprites@, k, lump_idx);
                }
                self.sprites.insert(k, lump_idx);
            } else if in_patches && non_empty {
                let k = hash_lump_name(name.as_bytes());
                proof {
                    lemma_index_insert(self.spec_wad(), self.patches@, k, lump_idx);
                }
                self.patches.insert(k, lump_idx);
            } else if in_flats && non_empty {
                let k = hash_lump_name(name.as_bytes());
                proof {
                    lemma_index_insert(self.spec_wad(), self.flats@, k, lump_idx);
                }
                self.flats.insert(k, lump_idx);
            } else if non_empty && quick_check_if_lump_is_graphic(bytes_as_slice(&l.bytes)) {
                proof {
                    super::game_initializer::lemma_font_name_readable(name_src);
                }
                let ghost f0 = self.font;
                self.font.add_font_lump(name, &l.bytes);
                proof {
                    lemma_font_push(f0, self.font, m.fonts, nb, lb);
                }
            }
            proof {
                m = index_step(m, lump_idx, name@, nb, lb);
            }
            lump_idx = lump_idx + 1;
        }
        Ok(())
    }

    /// The palette, color maps, sprites, patches, flats and font were all
    /// found; else the message says the first that is missing.
    fn validate_collected_lump_data(&self) -> (r: Result<(), String>)
        requires
            self.wf(),
        ensures
            match r {
                Ok(()) => self.collected(),
                Err(e) => !self.collected() && e@ == (if self.spec_palette().palette_count() == 0 {
                    "Pallete lump not found in WAD"@
                } else if self.spec_palette().colormap_count() == 0 {
                    "Colormap lump not found in WAD"@
                } else if self.spec_indexes().0.len() == 0 {
                    "Sprites not found in WAD"@
                } else if self.spec_indexes().1.len() == 0 {
                    "Patches not found in WAD"@
                } else if self.spec_indexes().2.len() == 0 {
                    "Flats not found in WAD"@
                } else {
                    "Fonts not found in WAD"@
                }),
            },
    {
        let complete = self.font.is_complete();
        assert(self.spec_font() == self.font);
        assert(complete == forall|i: int| 0 <= i <= 57 ==> !#[trigger] self.font.glyph_empty(i));
        if !self.palette.is_palette_initialized() {
            Err(String::from_str("Pallete lump not found in WAD"))
        } else if !self.palette.is_colormap_initialized() {
            Err(String::from_str("Colormap lump not found in WAD"))
        } else if self.sprites.is_empty() {
            Err(String::from_str("Sprites not found in WAD"))
        } else if self.patches.is_empty() {
            Err(String::from_str("Patches not found in WAD"))
        } else if self.flats.is_empty() {
            Err(String::from_str("Flats not found in WAD"))
        } else if !complete {
            Err(String::from_str("Fonts not found in WAD"))
        } else {
            Ok(())
        }
    }
}

} // verus!
