//! Recognizing the lumps of a WAD: maps, textures, fonts and graphics.
use super::font::{fonta, font_name_readable, font_name_slot, Font};
use super::graphics::{pnames_ok, tex_count, tex_entry_error, tex_entry_ok, tex_header_ok, textures_after, Graphics};
use super::lump_bytes::{bytes_as_slice, bytes_clone, bytes_empty, bytes_len, bytes_view};
use super::map::MapData;
use super::map_items::{sub_slice, u16_at};
use super::palette::Palette;
use super::utils::{buf_to_u16, buf_to_u32, lemma_name_end_bounds, lemma_name_end_full, lemma_short_atoi_in_range, lump_hash, name_len};
use super::wad::{lump_name_ok, lump_name_text, name_byte_ok, u32_at, LumpData, WadData};
use crate::text::{joined, same_text};
use bytes::Bytes;
use vstd::prelude::*;
use vstd::string::StringExecFns;
use vstd::string::StringSliceAdditionalSpecFns;
use vstd::utf8::{encode_utf8, is_ascii_chars, is_ascii_chars_encode_utf8};

verus! {

/// An ASCII digit.
pub open spec fn spec_is_ascii_digit(b: u8) -> bool {
    48 <= b <= 57
}

/// A map lump's name: `ExMy` or `MAPxy`, with digits in place of `x` and `y`.
pub open spec fn spec_is_map_name(b: Seq<u8>) -> bool {
    if b.len() == 4 {
        b[0] == 69 && spec_is_ascii_digit(b[1]) && b[2] == 77 && spec_is_ascii_digit(b[3])
    } else if b.len() == 5 {
        b[0] == 77 && b[1] == 65 && b[2] == 80 && spec_is_ascii_digit(b[3])
            && spec_is_ascii_digit(b[4])
    } else {
        false
    }
}

/// A texture lump's name: `TEXTURE` and a digit.
pub open spec fn spec_is_texture_name(b: Seq<u8>) -> bool {
    b.len() == 8 && b.take(7) == seq![84u8, 69u8, 88u8, 84u8, 85u8, 82u8, 69u8]
        && spec_is_ascii_digit(b[7])
}

/// A font lump's name: at least 7 bytes, starting with `STCFN` or `FONTA`.
pub open spec fn spec_is_font_name(b: Seq<u8>) -> bool {
    b.len() >= 7 && (b.take(5) == seq![83u8, 84u8, 67u8, 70u8, 78u8] || b.take(5) == seq![
        70u8,
        79u8,
        78u8,
        84u8,
        65u8,
    ])
}

/// A byte that continues a UTF-8 character: no character starts there.
pub open spec fn is_continuation_byte(b: u8) -> bool {
    0x80 <= b < 0xC0
}

pub fn is_ascii_digit(byte: u8) -> (r: bool)
    ensures
        r == spec_is_ascii_digit(byte),
{
    byte >= 48 && byte <= 57
}

pub fn is_map_name(name: &str) -> (r: bool)
    ensures
        r == spec_is_map_name(name.spec_bytes()),
{
    let b = name.as_bytes();
    if b.len() == 4 {
        b[0] == 69 && is_ascii_digit(b[1]) && b[2] == 77 && is_ascii_digit(b[3])
    } else if b.len() == 5 {
        b[0] == 77 && b[1] == 65 && b[2] == 80 && is_ascii_digit(b[3]) && is_ascii_digit(b[4])
    } else {
        false
    }
}

/// `b[..n]` spells the `n` bytes of `word`.
pub(crate) fn starts_with(b: &[u8], word: &[u8], n: usize) -> (r: bool)
    requires
        n <= b@.len(),
        n == word@.len(),
    ensures
        r == (b@.take(n as int) == word@),
{
    let mut i: usize = 0;
    while i < n
        invariant
            i <= n,
            n <= b@.len(),
            n == word@.len(),
            b@.take(i as int) == word@.take(i as int),
        decreases n - i,
    {
        if b[i] != word[i] {
            assert(b@.take(n as int)[i as int] != word@[i as int]);
            return false;
        }
        assert(b@.take(i as int + 1) == word@.take(i as int + 1)) by {
            assert(b@.take(i as int + 1) == b@.take(i as int).push(b@[i as int]));
            assert(word@.take(i as int + 1) == word@.take(i as int).push(word@[i as int]));
        }
        i = i + 1;
    }
    assert(word@.take(n as int) == word@);
    true
}

/// The name's 8th byte must start a character, as the name is cut there.
pub fn is_texture_name(name: &str) -> (r: bool)
    requires
        name.spec_bytes().len() == 8 ==> !is_continuation_byte(name.spec_bytes()[7]),
    ensures
        r == spec_is_texture_name(name.spec_bytes()),
{
    let b = name.as_bytes();
    let texture: [u8; 7] = [84, 69, 88, 84, 85, 82, 69];
    let word = texture.as_slice();
    assert(word@ == seq![84u8, 69u8, 88u8, 84u8, 85u8, 82u8, 69u8]);
    b.len() == 8 && starts_with(b, word, 7) && is_ascii_digit(b[7])
}

/// The name's 6th byte must start a character, as the name is cut there.
pub fn is_font_name(name: &str) -> (r: bool)
    requires
        name.spec_bytes().len() >= 7 ==> !is_continuation_byte(name.spec_bytes()[5]),
    ensures
        r == spec_is_font_name(name.spec_bytes()),
{
    let b = name.as_bytes();
    if b.len() < 7 {
        return false;
    }
    let stcfn: [u8; 5] = [83, 84, 67, 70, 78];
    let fonta: [u8; 5] = [70, 79, 78, 84, 65];
    assert(stcfn@ == seq![83u8, 84u8, 67u8, 70u8, 78u8]);
    assert(fonta@ == seq![70u8, 79u8, 78u8, 84u8, 65u8]);
    starts_with(b, stcfn.as_slice(), 5) || starts_with(b, fonta.as_slice(), 5)
}

/// The larger of the first `n` column offsets of a patch (0 for none).
pub open spec fn max_col_offset(b: Seq<u8>, n: nat) -> int
    decreases n,
{
    if n == 0 {
        0
    } else {
        let m = max_col_offset(b, (n - 1) as nat);
        let o = u32_at(b, 8 + 4 * (n - 1));
        if o > m {
            o
        } else {
            m
        }
    }
}

/// Walking the posts of a patch column from `i` on reaches its end marker
/// (0xFF) within the bytes: each post holds its length at `i + 1` and takes
/// that many bytes plus 4.
pub open spec fn column_ends_ok(b: Seq<u8>, i: int) -> bool
    decreases b.len() - i,
{
    if i < 0 || i >= b.len() {
        false
    } else if b[i] == 0xFF {
        true
    } else if i + 3 >= b.len() {
        false
    } else {
        let next = i + b[i + 1] + 4;
        if next >= b.len() {
            false
        } else {
            column_ends_ok(b, next)
        }
    }
}

/// The quick test that a lump holds a patch: a header of at least 12 bytes
/// with a width and a height, column offsets that all lie within the lump,
/// and a column at the largest offset that ends within the lump.
pub open spec fn looks_like_graphic(b: Seq<u8>) -> bool {
    let width = u16_at(b, 0);
    let height = u16_at(b, 2);
    &&& b.len() >= 12
    &&& width != 0
    &&& height != 0
    &&& b.len() >= 8 + 4 * width
    &&& max_col_offset(b, width as nat) < b.len()
    &&& column_ends_ok(b, max_col_offset(b, width as nat))
}

proof fn lemma_max_col_offset_step(b: Seq<u8>, n: nat)
    ensures
        max_col_offset(b, n + 1) >= max_col_offset(b, n),
        max_col_offset(b, n + 1) >= u32_at(b, 8 + 4 * n as int),
{
}

pub fn quick_check_if_lump_is_graphic(bytes: &[u8]) -> (r: bool)
    ensures
        r == looks_like_graphic(bytes@),
{
    let len = bytes.len();
    if len < 12 {
        return false;
    }
    let ghost b = bytes@;
    let mut max_idx: usize = 0;
    let width = buf_to_u16(sub_slice(bytes, 0, 2)) as usize;
    let height = buf_to_u16(sub_slice(bytes, 2, 4)) as usize;
    if width == 0 || height == 0 || len < 8 + 4 * width {
        return false;
    }
    let mut col: usize = 0;
    while col < width
        invariant
            b == bytes@,
            len == b.len(),
            width == u16_at(b, 0),
            len >= 8 + 4 * width,
            col <= width,
            max_idx == max_col_offset(b, col as nat),
            max_idx < len,
        decreases width - col,
    {
        let col_ofs = buf_to_u32(sub_slice(bytes, 8 + 4 * col, 8 + 4 * col + 4)) as usize;
        proof {
            lemma_max_col_offset_step(b, col as nat);
        }
        if col_ofs > max_idx {
            max_idx = col_ofs;
        }
        assert(max_idx == max_col_offset(b, col as nat + 1));
        if len <= max_idx {
            proof {
                lemma_max_col_offset_grows(b, col as nat + 1, width as nat);
            }
            return false;
        }
        col = col + 1;
    }
    loop
        invariant
            b == bytes@,
            len == b.len(),
            looks_like_graphic(b) == column_ends_ok(b, max_idx as int),
        decreases len - max_idx,
    {
        if max_idx >= len {
            return false;
        }
        if bytes[max_idx] == 0xFF {
            return true;
        }
        if len - max_idx <= 3 {
            return false;
        }
        let post_len = bytes[max_idx + 1] as usize;
        if post_len + 4 >= len - max_idx {
            return false;
        }
        max_idx = max_idx + post_len + 4;
    }
}

proof fn lemma_max_col_offset_grows(b: Seq<u8>, m: nat, n: nat)
    requires
        m <= n,
    ensures
        max_col_offset(b, m) <= max_col_offset(b, n),
    decreases n - m,
{
    if m < n {
        lemma_max_col_offset_grows(b, m, (n - 1) as nat);
    }
}


/// The name of a lump read from a WAD is ASCII: its UTF-8 bytes are the
/// bytes it was read from, none of them a continuation byte, and there are at
/// most 8 of them when the name was read from 8 bytes.
pub proof fn lemma_lump_name_bytes(s: Seq<u8>)
    requires
        lump_name_ok(s),
    ensures
        encode_utf8(lump_name_text(s)) == s.take(name_len(s)),
        encode_utf8(lump_name_text(s)).len() == name_len(s),
        name_len(s.take(name_len(s))) == name_len(s),
        forall|i: int|
            0 <= i < name_len(s) ==> !is_continuation_byte(#[trigger] encode_utf8(lump_name_text(s))[i]),
        s.len() <= 8 ==> name_len(s) <= 8,
{
    lemma_name_end_bounds(s, 0);
    let t = lump_name_text(s);
    assert forall|i: int| 0 <= i < t.len() implies '\0' <= #[trigger] t[i] <= '\u{7f}' by {
        assert(name_byte_ok(s[i]));
    }
    assert(is_ascii_chars(t));
    is_ascii_chars_encode_utf8(t);
    assert forall|i: int| 0 <= i < name_len(s) implies encode_utf8(t)[i] == s[i] by {
        assert(t[i] as u8 == encode_utf8(t)[i]);
        assert(name_byte_ok(s[i]));
    }
    assert(encode_utf8(t) == s.take(name_len(s)));
    let p = s.take(name_len(s));
    assert forall|j: int| 0 <= j < p.len() implies #[trigger] p[j] != 0 by {
        assert(name_byte_ok(s[j]));
    }
    lemma_name_end_full(p, 0);
}

/// A map that is complete and named as maps are.
pub open spec fn map_ok(m: MapData) -> bool {
    &&& forall|k: int| 0 <= k < 10 ==> #[trigger] m.spec_lump(k).len() > 0
    &&& spec_is_map_name(encode_utf8(m.spec_name()))
}

/// Every map is complete and named as maps are.
pub open spec fn maps_all_ok(maps: Seq<MapData>) -> bool {
    forall|i: int| 0 <= i < maps.len() ==> map_ok(#[trigger] maps[i])
}

/// A map while its lumps are gathered: its name and its ten lump slots.
pub type MapModel = (Seq<char>, Seq<Seq<u8>>);

/// What walking the lumps of a WAD has gathered so far.
pub struct LumpWalk {
    /// Inside `F_START` .. `F_END`.
    pub in_flats: bool,
    /// The last PNAMES lump (empty: none yet).
    pub pnames: Seq<u8>,
    /// The TEXTUREx lumps, in order.
    pub textures: Seq<Seq<u8>>,
    /// The map whose lumps are being gathered.
    pub open_map: Option<MapModel>,
    /// The maps gathered, in order.
    pub maps: Seq<MapModel>,
    /// The last PLAYPAL and COLORMAP lumps (empty: none yet).
    pub palettes: Seq<u8>,
    pub colormaps: Seq<u8>,
    /// The flats and the patches, by the hash of their names.
    pub flats: Map<u64, Seq<u8>>,
    pub patches: Map<u64, Seq<u8>>,
    /// The font lumps (name bytes and data), in order.
    pub fonts: Seq<(Seq<u8>, Seq<u8>)>,
    /// Why the walk stopped.
    pub error: Option<Seq<char>>,
}

/// Nothing gathered yet.
pub open spec fn walk_start() -> LumpWalk {
    LumpWalk {
        in_flats: false,
        pnames: Seq::empty(),
        textures: Seq::empty(),
        open_map: None,
        maps: Seq::empty(),
        palettes: Seq::empty(),
        colormaps: Seq::empty(),
        flats: Map::empty(),
        patches: Map::empty(),
        fonts: Seq::empty(),
        error: None,
    }
}

/// Every slot of a map holds a lump.
pub open spec fn slots_full(slots: Seq<Seq<u8>>) -> bool {
    forall|i: int| 0 <= i < 10 ==> #[trigger] slots[i].len() > 0
}

/// The key a lump is stored under: the hash of its name.
pub open spec fn name_key(nb: Seq<u8>) -> u64 {
    lump_hash(nb.take(name_len(nb)))
}

/// The walk after one more lump, named `name` (whose bytes are `nb`) and
/// holding `bytes`: a map being gathered takes its map lumps, and the first
/// other lump closes it (an incomplete map stops the walk); a map name opens
/// a map; PLAYPAL and COLORMAP are kept, PNAMES and TEXTUREx lumps too;
/// lumps between F_START and F_END with bytes are flats, and other lumps
/// that look like graphics are patches (and font lumps, for font names).
pub open spec fn walk_step(s: LumpWalk, name: Seq<char>, nb: Seq<u8>, bytes: Seq<u8>) -> LumpWalk {
    let (s1, taken) = walk_map_part(s, name, bytes);
    if taken {
        s1
    } else {
        walk_rest(s1, name, nb, bytes)
    }
}

/// A map being gathered takes a map lump (`true`); any other lump closes it,
/// which stops the walk (`true`) where the map is incomplete.
pub open spec fn walk_map_part(s: LumpWalk, name: Seq<char>, bytes: Seq<u8>) -> (LumpWalk, bool) {
    match s.open_map {
        Some((mname, slots)) => match super::map::map_lump_index(name) {
            Some(i) => (LumpWalk { open_map: Some((mname, slots.update(i, bytes))), ..s }, true),
            None => if !slots_full(slots) {
                (LumpWalk { error: Some("Incomplete map in WAD: "@ + mname), ..s }, true)
            } else {
                (LumpWalk { open_map: None, maps: s.maps.push((mname, slots)), ..s }, false)
            },
        },
        None => (s, false),
    }
}

/// A lump that no map takes.
pub open spec fn walk_rest(s1: LumpWalk, name: Seq<char>, nb: Seq<u8>, bytes: Seq<u8>) -> LumpWalk {
    if spec_is_map_name(nb) {
        LumpWalk { open_map: Some((name, Seq::new(10, |i: int| Seq::<u8>::empty()))), ..s1 }
    } else if name == "PLAYPAL"@ {
        LumpWalk { palettes: bytes, ..s1 }
    } else if name == "COLORMAP"@ {
        LumpWalk { colormaps: bytes, ..s1 }
    } else if name == "PNAMES"@ {
        LumpWalk { pnames: bytes, ..s1 }
    } else if name == "F_START"@ {
        LumpWalk { in_flats: true, ..s1 }
    } else if name == "F_END"@ {
        LumpWalk { in_flats: false, ..s1 }
    } else if spec_is_texture_name(nb) {
        LumpWalk { textures: s1.textures.push(bytes), ..s1 }
    } else if bytes.len() > 0 && s1.in_flats {
        LumpWalk { flats: s1.flats.insert(name_key(nb), bytes), ..s1 }
    } else if looks_like_graphic(bytes) {
        LumpWalk {
            patches: s1.patches.insert(name_key(nb), bytes),
            fonts: if spec_is_font_name(nb) {
                s1.fonts.push((nb, bytes))
            } else {
                s1.fonts
            },
            ..s1
        }
    } else {
        s1
    }
}

/// The bytes of the name of lump `k`.
pub open spec fn lump_name_seq(w: WadData, k: int) -> Seq<u8> {
    w.lump_name_bytes(k).take(name_len(w.lump_name_bytes(k)))
}

/// The bytes of lump `k`.
pub open spec fn lump_bytes_of(w: WadData, k: int) -> Seq<u8> {
    w.spec_bytes().subrange(w.lump_start(k), w.lump_start(k) + w.lump_size(k))
}

/// The walk over the first `n` lumps of the WAD; the first lump that cannot
/// be read stops it.
pub open spec fn walk(w: WadData, n: nat) -> LumpWalk
    decreases n,
{
    if n == 0 {
        walk_start()
    } else {
        let s = walk(w, (n - 1) as nat);
        if s.error is Some {
            s
        } else if !w.lump_ok(n - 1) {
            LumpWalk { error: Some(w.lump_error(n - 1)), ..s }
        } else {
            walk_step(s, lump_name_text(w.lump_name_bytes(n - 1)), lump_name_seq(w, n - 1), lump_bytes_of(w, n - 1))
        }
    }
}

/// A TEXTUREx lump whose header and entries all lie within it.
pub open spec fn tex_lump_ok(b: Seq<u8>) -> bool {
    tex_header_ok(b) && forall|t: int| 0 <= t < tex_count(b) ==> #[trigger] tex_entry_ok(b, t)
}

/// Why a TEXTUREx lump is refused: its header, or its first entry that does
/// not fit.
pub open spec fn tex_lump_error(b: Seq<u8>) -> Seq<char> {
    if !tex_header_ok(b) {
        "TEXTUREx lump size too small: "@ + super::super::text::decimal(b.len())
    } else {
        tex_entry_error(
            b,
            choose|t: int| 0 <= t < tex_count(b) && !tex_entry_ok(b, t) && forall|u: int| 0 <= u < t ==> #[trigger] tex_entry_ok(b, u),
        )
    }
}

/// The textures stored from the TEXTUREx lumps, in order.
pub open spec fn textures_from(texs: Seq<Seq<u8>>) -> Map<u64, Seq<u8>>
    decreases texs.len(),
{
    if texs.len() == 0 {
        Map::empty()
    } else {
        textures_after(textures_from(texs.drop_last()), texs.last(), tex_count(texs.last()) as nat)
    }
}

/// The first TEXTUREx lump that is refused, among the first `n`.
pub open spec fn first_bad_texture(texs: Seq<Seq<u8>>, n: int) -> Option<int>
    decreases n,
{
    if n <= 0 {
        None
    } else {
        match first_bad_texture(texs, n - 1) {
            Some(t) => Some(t),
            None => if !tex_lump_ok(texs[n - 1]) {
                Some(n - 1)
            } else {
                None
            },
        }
    }
}

/// Why gathering the game data from the walked lumps fails, if it does.
pub open spec fn gather_error(m: LumpWalk) -> Option<Seq<char>> {
    if m.error is Some {
        m.error
    } else if m.pnames.len() == 0 {
        Some("PNAMES lump not found in WAD"@)
    } else if m.textures.len() == 0 {
        Some("TEXTUREx lump(s) not found in WAD"@)
    } else if !pnames_ok(m.pnames) {
        Some("PNAMES lump size too small"@)
    } else {
        match first_bad_texture(m.textures, m.textures.len() as int) {
            Some(t) => Some(tex_lump_error(m.textures[t])),
            None => None,
        }
    }
}

/// The slot data of the last font lump for slot `i`.
pub open spec fn font_slot_data(fonts: Seq<(Seq<u8>, Seq<u8>)>, i: int) -> Option<Seq<u8>>
    decreases fonts.len(),
{
    if fonts.len() == 0 {
        None
    } else if font_name_slot(fonts.last().0) == Some(i) {
        Some(fonts.last().1)
    } else {
        font_slot_data(fonts.drop_last(), i)
    }
}

/// The height of the tallest font character.
pub open spec fn font_height_of(fonts: Seq<(Seq<u8>, Seq<u8>)>) -> u16
    decreases fonts.len(),
{
    if fonts.len() == 0 {
        0
    } else {
        let h = font_height_of(fonts.drop_last());
        if font_name_slot(fonts.last().0) is Some && u16_at(fonts.last().1, 2) > h {
            u16_at(fonts.last().1, 2) as u16
        } else {
            h
        }
    }
}

/// The width of the space: that of the last font lump for the slot of `H`.
pub open spec fn font_space_of(fonts: Seq<(Seq<u8>, Seq<u8>)>) -> u16
    decreases fonts.len(),
{
    if fonts.len() == 0 {
        0
    } else if font_name_slot(fonts.last().0) == Some(39int) {
        u16_at(fonts.last().1, 0) as u16
    } else {
        font_space_of(fonts.drop_last())
    }
}

/// Every character from `!` to `Z` has a font lump with a picture that is
/// neither 0 wide nor 0 high.
pub open spec fn fonts_complete(fonts: Seq<(Seq<u8>, Seq<u8>)>) -> bool {
    forall|i: int|
        0 <= i <= 57 ==> match #[trigger] font_slot_data(fonts, i) {
            Some(d) => u16_at(d, 0) != 0 && u16_at(d, 2) != 0,
            None => false,
        }
}

/// Why building the game data from the walked lumps fails, if it does: the
/// walk or the textures fail, or palettes, color maps, maps or the font
/// characters are missing.
pub open spec fn build_error(m: LumpWalk) -> Option<Seq<char>> {
    match gather_error(m) {
        Some(e) => Some(e),
        None => if m.palettes.len() / 768 == 0 || m.colormaps.len() / 256 == 0 {
            Some("PLAYPAL or COLORMAP lump not found in WAD"@)
        } else if m.maps.len() == 0 {
            Some("Maps not found in WAD"@)
        } else if !fonts_complete(m.fonts) {
            Some("Fonts not found in WAD"@)
        } else {
            None
        },
    }
}

/// The maps as (name, lump slots).
pub open spec fn maps_view(maps: Seq<MapData>) -> Seq<MapModel> {
    maps.map_values(|m: MapData| (m.spec_name(), Seq::new(10, |i: int| m.spec_lump(i))))
}

/// The font holds the characters of the font lumps.
pub open spec fn font_holds(f: Font, fonts: Seq<(Seq<u8>, Seq<u8>)>) -> bool {
    &&& forall|i: int|
        0 <= i < 64 ==> match #[trigger] font_slot_data(fonts, i) {
            Some(d) => f.spec_glyph(i).spec_data() == d && f.spec_glyph(i).spec_kind()
                == super::pixmap::PixMapKind::Patch && f.spec_glyph(i).spec_width() == u16_at(d, 0)
                && f.spec_glyph(i).spec_height() == u16_at(d, 2),
            None => f.glyph_empty(i),
        }
    &&& f.spec_height() == font_height_of(fonts)
    &&& f.spec_space_width() == font_space_of(fonts)
}

/// Once a walk has stopped, the rest of the lumps leave it as it is.
proof fn lemma_walk_error_sticks(w: WadData, k: nat, n: nat)
    requires
        k <= n,
        walk(w, k).error is Some,
    ensures
        walk(w, n) == walk(w, k),
    decreases n - k,
{
    if n > k {
        lemma_walk_error_sticks(w, k, (n - 1) as nat);
    }
}

/// The first refused TEXTUREx lump stays the first one.
proof fn lemma_first_bad_sticks(texs: Seq<Seq<u8>>, t: int, n: int)
    requires
        0 <= t < n,
        first_bad_texture(texs, t + 1) == Some(t),
    ensures
        first_bad_texture(texs, n) == Some(t),
    decreases n - t,
{
    if n > t + 1 {
        lemma_first_bad_sticks(texs, t, n - 1);
    }
}

/// The error that storing a TEXTUREx lump answers is the lump's error.
proof fn lemma_tex_lump_error(b: Seq<u8>, e: Seq<char>)
    requires
        if !tex_header_ok(b) {
            e == "TEXTUREx lump size too small: "@ + super::super::text::decimal(b.len())
        } else {
            exists|t: int|
                0 <= t < tex_count(b) && !tex_entry_ok(b, t) && (forall|u: int| 0 <= u < t ==> #[trigger] tex_entry_ok(b, u))
                    && e == tex_entry_error(b, t)
        },
    ensures
        !tex_lump_ok(b),
        tex_lump_error(b) == e,
{
    if tex_header_ok(b) {
        let t = choose|t: int|
            0 <= t < tex_count(b) && !tex_entry_ok(b, t) && (forall|u: int| 0 <= u < t ==> #[trigger] tex_entry_ok(b, u))
                && e == tex_entry_error(b, t);
        let c = choose|c: int| 0 <= c < tex_count(b) && !tex_entry_ok(b, c) && forall|u: int| 0 <= u < c ==> #[trigger] tex_entry_ok(b, u);
        if c < t {
            assert(tex_entry_ok(b, c));
        }
        if t < c {
            assert(tex_entry_ok(b, t));
        }
        assert(c == t);
    }
}

/// Adding a font lump adds it to the font lumps the font holds.
pub(crate) proof fn lemma_font_push(f0: Font, f1: Font, fonts: Seq<(Seq<u8>, Seq<u8>)>, nb: Seq<u8>, b: Seq<u8>)
    requires
        font_holds(f0, fonts),
        f1.wf(),
        match font_name_slot(nb) {
            Some(i) => {
                &&& f1.spec_glyph(i).spec_data() == b
                &&& f1.spec_glyph(i).spec_kind() == super::pixmap::PixMapKind::Patch
                &&& f1.spec_glyph(i).spec_width() == u16_at(b, 0)
                &&& f1.spec_glyph(i).spec_height() == u16_at(b, 2)
                &&& forall|j: int| 0 <= j < 64 && j != i ==> #[trigger] f1.spec_glyph(j) == f0.spec_glyph(j)
                &&& f1.spec_height() == if u16_at(b, 2) > f0.spec_height() {
                    u16_at(b, 2) as u16
                } else {
                    f0.spec_height()
                }
                &&& f1.spec_space_width() == if i == 39 {
                    u16_at(b, 0) as u16
                } else {
                    f0.spec_space_width()
                }
            },
            None => f1 == f0,
        },
    ensures
        font_holds(f1, fonts.push((nb, b))),
{
    let fs = fonts.push((nb, b));
    assert(fs.drop_last() =~= fonts);
    assert(fs.last() == (nb, b));
    assert forall|i: int| 0 <= i < 64 implies match #[trigger] font_slot_data(fs, i) {
        Some(d) => f1.spec_glyph(i).spec_data() == d && f1.spec_glyph(i).spec_kind()
            == super::pixmap::PixMapKind::Patch && f1.spec_glyph(i).spec_width() == u16_at(d, 0)
            && f1.spec_glyph(i).spec_height() == u16_at(d, 2),
        None => f1.glyph_empty(i),
    } by {
        assert(font_slot_data(fs, i) == if font_name_slot(nb) == Some(i) {
            Some(b)
        } else {
            font_slot_data(fonts, i)
        });
        match font_slot_data(fonts, i) {
            Some(d) => {},
            None => {},
        }
    }
}

/// Stores the textures of the TEXTUREx lumps, in order; refused at the first
/// lump that does not fit.
fn store_textures(gfx: &mut Graphics, textures: &Vec<Bytes>) -> (r: Result<(), String>)
    requires
        old(gfx).spec_textures() == Map::<u64, Seq<u8>>::empty(),
    ensures
        final(gfx).spec_flats() == old(gfx).spec_flats(),
        final(gfx).spec_patches() == old(gfx).spec_patches(),
        final(gfx).spec_pnames() == old(gfx).spec_pnames(),
        ({
            let texs = textures@.map_values(|b: Bytes| bytes_view(b));
            match r {
                Ok(()) => first_bad_texture(texs, texs.len() as int) is None && final(gfx).spec_textures()
                    == textures_from(texs),
                Err(e) => first_bad_texture(texs, texs.len() as int) matches Some(t) && e@ == tex_lump_error(
                    texs[t],
                ),
            }
        }),
{
    let ghost texs = textures@.map_values(|b: Bytes| bytes_view(b));
    let mut t: usize = 0;
    assert(texs.take(0) =~= Seq::<Seq<u8>>::empty());
    while t < textures.len()
        invariant
            texs == textures@.map_values(|b: Bytes| bytes_view(b)),
            t <= texs.len(),
            first_bad_texture(texs, t as int) is None,
            gfx.spec_textures() == textures_from(texs.take(t as int)),
            gfx.spec_flats() == old(gfx).spec_flats(),
            gfx.spec_patches() == old(gfx).spec_patches(),
            gfx.spec_pnames() == old(gfx).spec_pnames(),
        decreases textures.len() - t,
    {
        let ghost b = texs[t as int];
        assert(bytes_view(textures@[t as int]) == b);
        assert(texs.take(t as int + 1).drop_last() =~= texs.take(t as int));
        match gfx.add_textures(&textures[t]) {
            Ok(()) => {},
            Err(e) => {
                proof {
                    lemma_tex_lump_error(b, e@);
                    assert(first_bad_texture(texs, t as int + 1) == Some(t as int));
                    lemma_first_bad_sticks(texs, t as int, texs.len() as int);
                }
                return Err(e);
            },
        }
        t = t + 1;
    }
    assert(texs.take(t as int) =~= texs);
    Ok(())
}

/// The names, bytes and kinds of the lumps of a WAD, gathered into the game data.
pub struct DoomGameData {
    wad: WadData,
    pal: Palette,
    maps: Vec<MapData>,
    font: Font,
    gfx: Graphics,
}

/// A lump's name is a fitting font name: ASCII, at most 8 bytes.
pub(crate) proof fn lemma_font_name_readable(s: Seq<u8>)
    requires
        lump_name_ok(s),
        s.len() == 8,
    ensures
        font_name_readable(encode_utf8(lump_name_text(s))),
{
    lemma_lump_name_bytes(s);
    let b = encode_utf8(lump_name_text(s));
    assert(b.len() <= 8);
    if b.len() > 6 {
        assert(b.skip(5).len() <= 3);
        lemma_short_atoi_in_range(b.skip(5));
        assert(b[5] == s[5]);
        assert(name_byte_ok(s[5]));
    }
}

impl DoomGameData {
    /// The palette and the font are consistent.
    pub closed spec fn wf(&self) -> bool {
        self.pal.wf() && self.font.wf()
    }

    pub closed spec fn spec_maps(&self) -> Seq<MapData> {
        self.maps@
    }

    pub closed spec fn spec_palette(&self) -> Palette {
        self.pal
    }

    pub closed spec fn spec_font(&self) -> Font {
        self.font
    }

    pub closed spec fn spec_graphics(&self) -> Graphics {
        self.gfx
    }

    /// The maps found are complete and named as maps are.
    pub open spec fn maps_ok(&self) -> bool {
        maps_all_ok(self.spec_maps())
    }

    /// What the collected data must hold for the game to run.
    pub open spec fn data_complete(&self) -> bool {
        &&& self.spec_palette().palette_count() > 0
        &&& self.spec_palette().colormap_count() > 0
        &&& self.spec_maps().len() > 0
        &&& forall|i: int| 0 <= i <= 57 ==> !#[trigger] self.spec_font().glyph_empty(i)
    }

    /// The game data gathered from a WAD whose directory lies within it, by
    /// walking its lumps (see [`walk`]); refused with the message that
    /// [`build_error`] gives.
    pub fn build(wad_data: WadData) -> (r: Result<DoomGameData, String>)
        requires
            wad_data.spec_dir_offset() + 16 * wad_data.spec_lump_count() <= wad_data.spec_bytes().len(),
        ensures
            ({
                let m = walk(wad_data, wad_data.spec_lump_count());
                match r {
                    Ok(d) => {
                        &&& build_error(m) is None
                        &&& d.wf()
                        &&& d.maps_ok()
                        &&& d.data_complete()
                        &&& maps_view(d.spec_maps()) == m.maps
                        &&& d.spec_palette().spec_palettes() == m.palettes
                        &&& d.spec_palette().spec_colormaps() == m.colormaps
                        &&& d.spec_palette().spec_palette_selection() == 0
                        &&& d.spec_palette().spec_colormap_selection() == 0
                        &&& d.spec_graphics().spec_flats() == m.flats
                        &&& d.spec_graphics().spec_patches() == m.patches
                        &&& d.spec_graphics().spec_pnames() == m.pnames
                        &&& d.spec_graphics().spec_textures() == textures_from(m.textures)
                        &&& font_holds(d.spec_font(), m.fonts)
                    },
                    Err(e) => build_error(m) == Some(e@),
                }
            }),
    {
        let mut dgd = DoomGameData {
            wad: wad_data,
            pal: Palette::new(),
            maps: Vec::new(),
            font: Font::new(),
            gfx: Graphics::new(),
        };
        assert(font_holds(dgd.font, Seq::empty()));
        match dgd.parse_wad_lumps() {
            Ok(()) => {},
            Err(e) => {
                return Err(e);
            },
        }
        let ghost m = walk(wad_data, wad_data.spec_lump_count());
        assert(dgd.spec_maps().len() == m.maps.len());
        assert((forall|i: int| 0 <= i <= 57 ==> !#[trigger] dgd.spec_font().glyph_empty(i)) == fonts_complete(m.fonts)) by {
            if forall|i: int| 0 <= i <= 57 ==> !#[trigger] dgd.spec_font().glyph_empty(i) {
                assert forall|i: int| 0 <= i <= 57 implies match #[trigger] font_slot_data(m.fonts, i) {
                    Some(d) => u16_at(d, 0) != 0 && u16_at(d, 2) != 0,
                    None => false,
                } by {
                    assert(!dgd.spec_font().glyph_empty(i));
                }
            }
            if fonts_complete(m.fonts) {
                assert forall|i: int| 0 <= i <= 57 implies !#[trigger] dgd.spec_font().glyph_empty(i) by {
                    assert(match font_slot_data(m.fonts, i) {
                        Some(d) => u16_at(d, 0) != 0 && u16_at(d, 2) != 0,
                        None => false,
                    });
                }
            }
        }
        match dgd.validate_collected_data() {
            Ok(()) => Ok(dgd),
            Err(e) => Err(e),
        }
    }

    pub fn palette(&self) -> (p: &Palette)
        ensures
            *p == self.spec_palette(),
    {
        &self.pal
    }

    pub fn map_count(&self) -> (n: usize)
        ensures
            n == self.spec_maps().len(),
    {
        self.maps.len()
    }

    pub fn map(&self, idx: usize) -> (m: &MapData)
        requires
            idx < self.spec_maps().len(),
        ensures
            *m == self.spec_maps()[idx as int],
    {
        &self.maps[idx]
    }

    pub fn font(&self) -> (f: &Font)
        ensures
            *f == self.spec_font(),
    {
        &self.font
    }

    pub fn graphics(&self) -> (g: &Graphics)
        ensures
            *g == self.spec_graphics(),
    {
        &self.gfx
    }

    /// The data gathered so far is what the walk `m` has gathered, with the
    /// flats flag, PNAMES, TEXTUREx lumps and the map being gathered kept
    /// aside; palettes and color maps are selected from the first.
    spec fn gathered(
        &self,
        m: LumpWalk,
        is_flats: bool,
        pnames: Seq<u8>,
        textures: Seq<Seq<u8>>,
        open: Option<MapData>,
    ) -> bool {
        &&& self.pal.wf()
        &&& self.font.wf()
        &&& maps_all_ok(self.maps@)
        &&& maps_view(self.maps@) == m.maps
        &&& match open {
            Some(pm) => m.open_map == Some((pm.spec_name(), Seq::new(10, |i: int| pm.spec_lump(i))))
                && spec_is_map_name(encode_utf8(pm.spec_name())),
            None => m.open_map is None,
        }
        &&& self.pal.spec_palettes() == m.palettes
        &&& self.pal.spec_colormaps() == m.colormaps
        &&& self.pal.spec_palette_selection() == 0
        &&& self.pal.spec_colormap_selection() == 0
        &&& self.gfx.spec_flats() == m.flats
        &&& self.gfx.spec_patches() == m.patches
        &&& self.gfx.spec_textures() == Map::<u64, Seq<u8>>::empty()
        &&& self.gfx.spec_pnames().len() == 0
        &&& pnames == m.pnames
        &&& textures == m.textures
        &&& is_flats == m.in_flats
        &&& font_holds(self.font, m.fonts)
    }

    /// Takes a lump that no map takes (see [`walk_rest`]).
    fn take_other_lump(
        &mut self,
        name: &str,
        bytes: &Bytes,
        is_flats: &mut bool,
        pnames: &mut Bytes,
        textures: &mut Vec<Bytes>,
        parsing_map: &mut Option<MapData>,
        Ghost(s1): Ghost<LumpWalk>,
    )
        requires
            old(self).gathered(
                s1,
                *old(is_flats),
                bytes_view(*old(pnames)),
                old(textures)@.map_values(|b: Bytes| bytes_view(b)),
                *old(parsing_map),
            ),
            old(parsing_map).is_none(),
            name.spec_bytes().len() == 8 ==> !is_continuation_byte(name.spec_bytes()[7]),
            name.spec_bytes().len() >= 7 ==> !is_continuation_byte(name.spec_bytes()[5]),
            font_name_readable(name.spec_bytes()),
            encode_utf8(name@) == name.spec_bytes(),
        ensures
            final(self).gathered(
                walk_rest(s1, name@, name.spec_bytes(), bytes_view(*bytes)),
                *final(is_flats),
                bytes_view(*final(pnames)),
                final(textures)@.map_values(|b: Bytes| bytes_view(b)),
                *final(parsing_map),
            ),
            final(self).wad == old(self).wad,
    {
        let ghost nb = name.spec_bytes();
        let ghost lb = bytes_view(*bytes);
        if is_map_name(name) {
            let nm = MapData::new(name);
            assert forall|j: int| 0 <= j < 10 implies #[trigger] nm.spec_lump(j) == Seq::<u8>::empty() by {
                assert(nm.spec_lump(j) =~= Seq::<u8>::empty());
            }
            assert(Seq::new(10, |j: int| nm.spec_lump(j)) =~= Seq::new(10, |j: int| Seq::<u8>::empty()));
            *parsing_map = Some(nm);
            return;
        }
        if same_text(name, "PLAYPAL") {
            self.pal.init_palettes(bytes_as_slice(bytes));
        } else if same_text(name, "COLORMAP") {
            self.pal.init_colormaps(bytes_as_slice(bytes));
        } else if same_text(name, "PNAMES") {
            *pnames = bytes_clone(bytes);
        } else if same_text(name, "F_START") {
            *is_flats = true;
        } else if same_text(name, "F_END") {
            *is_flats = false;
        } else if is_texture_name(name) {
            let ghost tv = textures@;
            textures.push(bytes_clone(bytes));
            assert(textures@.map_values(|b: Bytes| bytes_view(b)) =~= tv.map_values(|b: Bytes| bytes_view(b)).push(lb));
        } else if bytes_len(bytes) > 0 && *is_flats {
            self.gfx.add_flat(name, bytes);
        } else if quick_check_if_lump_is_graphic(bytes_as_slice(bytes)) {
            self.gfx.add_patch(name, bytes);
            if is_font_name(name) {
                let ghost f0 = self.font;
                self.font.add_font_lump(name, bytes);
                proof {
                    lemma_font_push(f0, self.font, s1.fonts, nb, lb);
                }
            }
        }
    }

    /// Walks the lumps of the WAD in order (see [`walk`]), then sets up the
    /// textures from PNAMES and the TEXTUREx lumps (see [`gather_error`]).
    fn parse_wad_lumps(&mut self) -> (r: Result<(), String>)
        requires
            old(self).pal.wf(),
            old(self).pal.spec_palettes().len() == 0,
            old(self).pal.spec_colormaps().len() == 0,
            old(self).pal.spec_palette_selection() == 0,
            old(self).pal.spec_colormap_selection() == 0,
            old(self).font.wf(),
            font_holds(old(self).font, Seq::empty()),
            old(self).maps@.len() == 0,
            old(self).gfx.spec_patches() == Map::<u64, Seq<u8>>::empty(),
            old(self).gfx.spec_flats() == Map::<u64, Seq<u8>>::empty(),
            old(self).gfx.spec_textures() == Map::<u64, Seq<u8>>::empty(),
            old(self).gfx.spec_pnames().len() == 0,
            old(self).wad.spec_dir_offset() + 16 * old(self).wad.spec_lump_count()
                <= old(self).wad.spec_bytes().len(),
        ensures
            final(self).wad == old(self).wad,
            final(self).pal.wf(),
            final(self).font.wf(),
            maps_all_ok(final(self).maps@),
            ({
                let m = walk(old(self).wad, old(self).wad.spec_lump_count());
                match r {
                    Ok(()) => {
                        &&& gather_error(m) is None
                        &&& maps_view(final(self).maps@) == m.maps
                        &&& final(self).pal.spec_palettes() == m.palettes
                        &&& final(self).pal.spec_colormaps() == m.colormaps
                        &&& final(self).pal.spec_palette_selection() == 0
                        &&& final(self).pal.spec_colormap_selection() == 0
                        &&& final(self).gfx.spec_flats() == m.flats
                        &&& final(self).gfx.spec_patches() == m.patches
                        &&& final(self).gfx.spec_pnames() == m.pnames
                        &&& final(self).gfx.spec_textures() == textures_from(m.textures)
                        &&& font_holds(final(self).font, m.fonts)
                    },
                    Err(e) => gather_error(m) == Some(e@),
                }
            }),
    {
        let ghost w = self.wad;
        let ghost mut m = walk_start();
        let mut is_flats = false;
        let mut pnames = bytes_empty();
        let mut textures: Vec<Bytes> = Vec::new();
        let mut parsing_map: Option<MapData> = None;
        let lump_count = self.wad.get_lump_count();
        let mut lump_idx: usize = 0;
        assert(maps_view(self.maps@) =~= Seq::<MapModel>::empty());
        assert(textures@.map_values(|b: Bytes| bytes_view(b)) =~= Seq::<Seq<u8>>::empty());
        assert(self.pal.spec_palettes() =~= Seq::<u8>::empty());
        assert(self.pal.spec_colormaps() =~= Seq::<u8>::empty());
        assert(bytes_view(pnames) =~= Seq::<u8>::empty());
        assert(self.gathered(m, is_flats, bytes_view(pnames), textures@.map_values(|b: Bytes| bytes_view(b)), parsing_map));
        while lump_idx < lump_count
            invariant
                self.wad == w,
                w == old(self).wad,
                lump_count == w.spec_lump_count(),
                w.spec_dir_offset() + 16 * w.spec_lump_count() <= w.spec_bytes().len(),
                lump_idx <= lump_count,
                m == walk(w, lump_idx as nat),
                m.error is None,
                self.gathered(m, is_flats, bytes_view(pnames), textures@.map_values(|b: Bytes| bytes_view(b)), parsing_map),
            decreases lump_count - lump_idx,
        {
            let k = lump_idx;
            let lump = match self.wad.get_lump(lump_idx) {
                Ok(l) => l,
                Err(e) => {
                    proof {
                        lemma_walk_error_sticks(w, (k + 1) as nat, lump_count as nat);
                    }
                    return Err(e);
                },
            };
            let ghost name_src = self.wad.lump_name_bytes(lump_idx as int);
            proof {
                lemma_lump_name_bytes(name_src);
                lemma_font_name_readable(name_src);
            }
            let name = lump.name.as_str();
            let ghost nb = lump_name_seq(w, k as int);
            let ghost lb = lump_bytes_of(w, k as int);
            assert(name.spec_bytes() == nb);
            proof {
                if name.spec_bytes().len() == 8 {
                    assert(name.spec_bytes()[7] == name_src[7]);
                    assert(name_byte_ok(name_src[7]));
                }
            }
            assert(walk(w, (k + 1) as nat) == walk_step(m, name@, nb, lb));
            lump_idx = lump_idx + 1;

            // a map being gathered takes its lumps
            let ghost mut s1 = m;
            match parsing_map {
                Some(mut map) => {
                    parsing_map = None;
                    let ghost slots = Seq::new(10, |i: int| map.spec_lump(i));
                    let still_parsing = map.add_lump(name, &lump.bytes);
                    if still_parsing {
                        let ghost i = super::map::map_lump_index(name@)->0;
                        assert(Seq::new(10, |j: int| map.spec_lump(j)) =~= slots.update(i, lb));
                        parsing_map = Some(map);
                        proof {
                            m = walk_step(m, name@, nb, lb);
                        }
                        continue;
                    }
                    assert(Seq::new(10, |j: int| map.spec_lump(j)) =~= slots);
                    if !map.is_complete() {
                        assert(!slots_full(slots)) by {
                            let j = choose|j: int| 0 <= j < 10 && !(#[trigger] map.spec_lump(j).len() > 0);
                            assert(slots[j] == map.spec_lump(j));
                        }
                        let msg = joined(String::from_str("Incomplete map in WAD: "), map.name());
                        proof {
                            lemma_walk_error_sticks(w, (k + 1) as nat, lump_count as nat);
                        }
                        return Err(msg);
                    }
                    assert(slots_full(slots)) by {
                        assert forall|j: int| 0 <= j < 10 implies #[trigger] slots[j].len() > 0 by {
                            assert(map.spec_lump(j).len() > 0);
                        }
                    }
                    let ghost before = self.maps@;
                    self.maps.push(map);
                    proof {
                        assert forall|i: int| 0 <= i < self.maps@.len() implies map_ok(#[trigger] self.maps@[i]) by {
                            if i < before.len() {
                                assert(self.maps@[i] == before[i]);
                            }
                        }
                        assert(maps_view(self.maps@) =~= maps_view(before).push((map.spec_name(), slots)));
                        s1 = LumpWalk { open_map: None, maps: m.maps.push((map.spec_name(), slots)), ..m };
                    }
                },
                None => {},
            }
            assert(walk_map_part(m, name@, lb) == (s1, false));
            self.take_other_lump(name, &lump.bytes, &mut is_flats, &mut pnames, &mut textures, &mut parsing_map, Ghost(s1));
            proof {
                m = walk_step(m, name@, nb, lb);
            }
        }
        if bytes_len(&pnames) == 0 {
            return Err(String::from_str("PNAMES lump not found in WAD"));
        }
        if textures.len() == 0 {
            return Err(String::from_str("TEXTUREx lump(s) not found in WAD"));
        }
        match self.gfx.set_patch_names(&pnames) {
            Ok(()) => {},
            Err(e) => {
                return Err(e);
            },
        }
        store_textures(&mut self.gfx, &textures)
    }

    /// The collected data holds palettes and color maps, at least one map,
    /// and a complete font; else the message says what is missing.
    fn validate_collected_data(&self) -> (r: Result<(), String>)
        requires
            self.wf(),
        ensures
            match r {
                Ok(()) => self.data_complete(),
                Err(e) => !self.data_complete() && e@ == (if self.spec_palette().palette_count() == 0
                    || self.spec_palette().colormap_count() == 0 {
                    "PLAYPAL or COLORMAP lump not found in WAD"@
                } else if self.spec_maps().len() == 0 {
                    "Maps not found in WAD"@
                } else {
                    "Fonts not found in WAD"@
                }),
            },
    {
        let complete = self.font.is_complete();
        assert(self.spec_font() == self.font);
        assert(complete == forall|i: int| 0 <= i <= 57 ==> !#[trigger] self.font.glyph_empty(i));
        if !(self.pal.is_palette_initialized() && self.pal.is_colormap_initialized()) {
            Err(String::from_str("PLAYPAL or COLORMAP lump not found in WAD"))
        } else if self.maps.len() == 0 {
            Err(String::from_str("Maps not found in WAD"))
        } else if !complete {
            Err(String::from_str("Fonts not found in WAD"))
        } else {
            Ok(())
        }
    }
}

} // verus!
