//! Main game loop: holds the screen buffer and the assets, and reacts to keys.
use super::assetloader::{GameAssets, MapData};
use super::scrbuf::{in_rect, ScreenBuffer};
use vstd::prelude::*;

verus! {

/// The keys the loop reacts to.
#[derive(Clone, Copy, PartialEq, Eq, Debug, Structural)]
pub enum LoopKey {
    Tab,
    Up,
    Down,
    Left,
    Right,
    PageUp,
    PageDown,
    Home,
    End,
    KpPlus,
    KpMinus,
    Other,
}

/// The side of a palette square.
pub const SQSIZE: i32 = 8;

pub struct GameLoop {
    scrbuf: ScreenBuffer,
    assets: GameAssets,
    tmp_idx: usize,
    tmp_x: i32,
    tmp_y: i32,
    tmp_automap: bool,
    tmp_changed: bool,
    tmp_amap_scale: i32,
}

/// The view state: the selected item, the map offset, automap or not,
/// whether the selection changed, and the automap scale.
pub type ViewState = (usize, i32, i32, bool, bool, i32);

/// The view state after a key is pressed: Tab switches the automap, the
/// arrows move the offset (within -10..=53), page up and down select the
/// previous and next of 1000 items, Home resets selection and offset, End
/// resets the offset, keypad plus and minus change the scale (within 6..=40).
pub open spec fn view_after_key(v: ViewState, k: LoopKey) -> ViewState {
    let (idx, x, y, automap, changed, scale) = v;
    match k {
        LoopKey::Tab => (idx, x, y, !automap, changed, scale),
        LoopKey::Up => (idx, x, (if y - 1 > -10 { y - 1 } else { -10 }) as i32, automap, changed, scale),
        LoopKey::Down => (idx, x, (if y + 1 < 53 { y + 1 } else { 53 }) as i32, automap, changed, scale),
        LoopKey::Left => (idx, (if x - 1 > -10 { x - 1 } else { -10 }) as i32, y, automap, changed, scale),
        LoopKey::Right => (idx, (if x + 1 < 53 { x + 1 } else { 53 }) as i32, y, automap, changed, scale),
        LoopKey::PageUp => (((idx + 999) % 1000) as usize, x, y, automap, true, scale),
        LoopKey::PageDown => (((idx + 1) % 1000) as usize, x, y, automap, true, scale),
        LoopKey::Home => (0, -5i32, -5i32, automap, true, scale),
        LoopKey::End => (idx, -5i32, -5i32, automap, changed, scale),
        LoopKey::KpPlus => (idx, x, y, automap, changed, (if scale + 1 < 40 { scale + 1 } else { 40 }) as i32),
        LoopKey::KpMinus => (idx, x, y, automap, changed, (if scale - 1 > 6 { scale - 1 } else { 6 }) as i32),
        LoopKey::Other => v,
    }
}

/// The color of the palette square a pixel lies in: 16 squares of 8 pixels
/// per row, from the top left; 0 outside them.
pub open spec fn palette_pixel(px: int, py: int) -> u8 {
    if px < 128 && py < 128 {
        ((py / 8) * 16 + px / 8) as u8
    } else {
        0
    }
}

impl GameLoop {
    pub closed spec fn spec_view(&self) -> ViewState {
        (self.tmp_idx, self.tmp_x, self.tmp_y, self.tmp_automap, self.tmp_changed, self.tmp_amap_scale)
    }

    pub closed spec fn spec_scrbuf(&self) -> ScreenBuffer {
        self.scrbuf
    }

    pub closed spec fn spec_assets(&self) -> GameAssets {
        self.assets
    }

    /// The selection is one of 1000, the offset and the scale keep within
    /// their ranges, and the screen buffer can be painted.
    pub closed spec fn wf(&self) -> bool {
        &&& self.tmp_idx < 1000
        &&& -10 <= self.tmp_x <= 53
        &&& -10 <= self.tmp_y <= 53
        &&& 6 <= self.tmp_amap_scale <= 40
        &&& self.scrbuf.wf()
        &&& self.scrbuf.spec_width() * self.scrbuf.spec_height() <= i32::MAX
    }

    /// A loop showing the graphics (not the automap), the first item
    /// selected, offset -5, -5, scale 12.
    pub fn new(width: usize, height: usize, assets: GameAssets) -> (g: Self)
        requires
            width * height <= i32::MAX,
        ensures
            g.wf(),
            g.spec_view() == (0usize, -5i32, -5i32, false, true, 12i32),
            g.spec_scrbuf().spec_width() == width,
            g.spec_scrbuf().spec_height() == height,
            g.spec_assets() == assets,
    {
        Self {
            scrbuf: ScreenBuffer::new(width, height),
            assets,
            tmp_idx: 0,
            tmp_x: -5,
            tmp_y: -5,
            tmp_automap: false,
            tmp_changed: true,
            tmp_amap_scale: 12,
        }
    }

    /// Reacts to a pressed key (see `view_after_key`); the loop goes on.
    pub fn handle_key_down(&mut self, key: LoopKey) -> (go_on: bool)
        requires
            old(self).wf(),
        ensures
            go_on,
            final(self).wf(),
            final(self).spec_view() == view_after_key(old(self).spec_view(), key),
            final(self).spec_scrbuf() == old(self).spec_scrbuf(),
    {
        match key {
            LoopKey::Tab => self.tmp_automap = !self.tmp_automap,
            LoopKey::Up => self.tmp_y = max_i32(self.tmp_y - 1, -10),
            LoopKey::Down => self.tmp_y = min_i32(self.tmp_y + 1, 53),
            LoopKey::Left => self.tmp_x = max_i32(self.tmp_x - 1, -10),
            LoopKey::Right => self.tmp_x = min_i32(self.tmp_x + 1, 53),
            LoopKey::PageUp => {
                self.tmp_idx = (self.tmp_idx + 999) % 1000;
                self.tmp_changed = true;
            },
            LoopKey::PageDown => {
                self.tmp_idx = (self.tmp_idx + 1) % 1000;
                self.tmp_changed = true;
            },
            LoopKey::Home => {
                self.tmp_idx = 0;
                self.tmp_x = -5;
                self.tmp_y = -5;
                self.tmp_changed = true;
            },
            LoopKey::End => {
                self.tmp_x = -5;
                self.tmp_y = -5;
            },
            LoopKey::KpPlus => self.tmp_amap_scale = min_i32(self.tmp_amap_scale + 1, 40),
            LoopKey::KpMinus => self.tmp_amap_scale = max_i32(self.tmp_amap_scale - 1, 6),
            LoopKey::Other => {},
        }
        true
    }

    /// Paints the screen: in automap mode the automap of the selected map
    /// (the selection taken modulo the number of maps), otherwise the 256
    /// colors of the palette, as 16 x 16 squares of 8 pixels, on a black
    /// screen; the selection is no longer marked as changed.
    pub fn update_state(&mut self) -> (go_on: bool)
        requires
            old(self).wf(),
            old(self).spec_view().3 ==> old(self).spec_assets().spec_maps().len() > 0,
        ensures
            go_on,
            final(self).wf(),
            final(self).spec_view() == ({
                let (i, x, y, a, c, s) = old(self).spec_view();
                (i, x, y, a, false, s)
            }),
            final(self).spec_assets() == old(self).spec_assets(),
            final(self).spec_scrbuf().spec_width() == old(self).spec_scrbuf().spec_width(),
            final(self).spec_scrbuf().spec_height() == old(self).spec_scrbuf().spec_height(),
            forall|px: int, py: int|
                0 <= px < old(self).spec_scrbuf().spec_width() && 0 <= py < old(self).spec_scrbuf().spec_height()
                    ==> #[trigger] final(self).spec_scrbuf().pixel(px, py) == if old(self).spec_view().3 {
                    let (i, x, y, a, c, s) = old(self).spec_view();
                    let maps = old(self).spec_assets().spec_maps();
                    let m = maps[i as int % maps.len() as int];
                    rects_color(map_rects(m, x as int, y as int, s as int, m.spec_size().1 as int), px, py, 0)
                } else {
                    palette_pixel(px, py)
                },
    {
        if self.tmp_automap {
            self.paint_map();
        } else {
            paint_palette(&mut self.scrbuf);
        }
        self.tmp_changed = false;
        true
    }

    /// Paints the automap of the selected map on a black screen.
    fn paint_map(&mut self)
        requires
            old(self).wf(),
            old(self).spec_assets().spec_maps().len() > 0,
        ensures
            final(self).wf(),
            final(self).spec_view() == old(self).spec_view(),
            final(self).spec_assets() == old(self).spec_assets(),
            final(self).spec_scrbuf().spec_width() == old(self).spec_scrbuf().spec_width(),
            final(self).spec_scrbuf().spec_height() == old(self).spec_scrbuf().spec_height(),
            forall|px: int, py: int|
                0 <= px < old(self).spec_scrbuf().spec_width() && 0 <= py < old(self).spec_scrbuf().spec_height()
                    ==> #[trigger] final(self).spec_scrbuf().pixel(px, py) == {
                    let (i, x, y, a, c, s) = old(self).spec_view();
                    let maps = old(self).spec_assets().spec_maps();
                    let m = maps[i as int % maps.len() as int];
                    rects_color(map_rects(m, x as int, y as int, s as int, m.spec_size().1 as int), px, py, 0)
                },
    {
        let ghost w = self.scrbuf.spec_width();
        let ghost h = self.scrbuf.spec_height();
        let sw0 = self.scrbuf.width();
        let sh0 = self.scrbuf.height();
        if sh0 >= 1 && sw0 >= 1 {
            assert(w <= i32::MAX && h <= i32::MAX) by (nonlinear_arith)
                requires
                    w * h <= i32::MAX,
                    w >= 1,
                    h >= 1,
            ;
        }
        self.scrbuf.fill_rect(0, 0, sw0 as i32, sh0 as i32, 0);
        let mapidx = self.tmp_idx % self.assets.map_count();
        let rects = automap_rects(self.assets.map(mapidx), self.tmp_x, self.tmp_y, self.tmp_amap_scale);
        let ghost before = self.scrbuf;
        paint_rects(&mut self.scrbuf, &rects);
        proof {
            assert forall|px: int, py: int| 0 <= px < w && 0 <= py < h implies before.pixel(px, py) == 0 by {
                assert(in_rect(0, 0, w, h, px, py));
            }
        }
    }

    /// Whether the automap is shown.
    pub fn automap_shown(&self) -> (b: bool)
        ensures
            b == self.spec_view().3,
    {
        self.tmp_automap
    }

    /// The number of maps the loop can show.
    pub fn map_count(&self) -> (n: usize)
        ensures
            n == self.spec_assets().spec_maps().len(),
    {
        self.assets.map_count()
    }

    /// The screen buffer, to be painted.
    pub fn scrbuf(&self) -> (s: &ScreenBuffer)
        ensures
            *s == self.spec_scrbuf(),
    {
        &self.scrbuf
    }
}

fn max_i32(a: i32, b: i32) -> (m: i32)
    ensures
        m == if a > b {
            a
        } else {
            b
        },
{
    if a > b {
        a
    } else {
        b
    }
}

fn min_i32(a: i32, b: i32) -> (m: i32)
    ensures
        m == if a < b {
            a
        } else {
            b
        },
{
    if a < b {
        a
    } else {
        b
    }
}

/// A pixel lies in the palette square at column `x`, row `y` exactly when
/// those are its coordinates divided by 8.
proof fn lemma_square(x: int, y: int, px: int, py: int)
    requires
        px >= 0,
        py >= 0,
        0 <= x < 16,
        0 <= y < 16,
    ensures
        in_rect(x * 8, y * 8, 8, 8, px, py) <==> (px / 8 == x && py / 8 == y),
{
    assert((x * 8 <= px < x * 8 + 8) <==> px / 8 == x) by (nonlinear_arith)
        requires
            px >= 0,
            0 <= x,
    ;
    assert((y * 8 <= py < y * 8 + 8) <==> py / 8 == y) by (nonlinear_arith)
        requires
            py >= 0,
            0 <= y,
    ;
}

/// Paints the palette: the screen black, then 16 x 16 squares of 8 pixels,
/// one per color.
pub fn paint_palette(scrbuf: &mut ScreenBuffer)
    requires
        old(scrbuf).wf(),
        old(scrbuf).spec_width() * old(scrbuf).spec_height() <= i32::MAX,
    ensures
        final(scrbuf).wf(),
        final(scrbuf).spec_width() == old(scrbuf).spec_width(),
        final(scrbuf).spec_height() == old(scrbuf).spec_height(),
        forall|px: int, py: int|
            0 <= px < old(scrbuf).spec_width() && 0 <= py < old(scrbuf).spec_height()
                ==> #[trigger] final(scrbuf).pixel(px, py) == palette_pixel(px, py),
{
    let ghost w = scrbuf.spec_width();
    let ghost h = scrbuf.spec_height();
    let sw0 = scrbuf.width();
    let sh0 = scrbuf.height();
    if sh0 >= 1 && sw0 >= 1 {
        assert(w <= i32::MAX && h <= i32::MAX) by (nonlinear_arith)
            requires
                w * h <= i32::MAX,
                w >= 1,
                h >= 1,
        ;
    }
    let sw = sw0 as i32;
    let sh = sh0 as i32;
    scrbuf.fill_rect(0, 0, sw, sh, 0);
    let mut cidx: i32 = 0;
    let mut y: i32 = 0;
    while y < 16
        invariant
            0 <= y <= 16,
            cidx == y * 16,
            scrbuf.wf(),
            scrbuf.spec_width() == w,
            scrbuf.spec_height() == h,
            w * h <= i32::MAX,
            forall|px: int, py: int|
                0 <= px < w && 0 <= py < h ==> #[trigger] scrbuf.pixel(px, py) == if px < 128 && py < 128
                    && (py / 8) * 16 + px / 8 < cidx {
                    ((py / 8) * 16 + px / 8) as u8
                } else {
                    0
                },
        decreases 16 - y,
    {
        let mut x: i32 = 0;
        while x < 16
            invariant
                0 <= y < 16,
                0 <= x <= 16,
                cidx == y * 16 + x,
                scrbuf.wf(),
                scrbuf.spec_width() == w,
                scrbuf.spec_height() == h,
                w * h <= i32::MAX,
                forall|px: int, py: int|
                    0 <= px < w && 0 <= py < h ==> #[trigger] scrbuf.pixel(px, py) == if px < 128 && py
                        < 128 && (py / 8) * 16 + px / 8 < cidx {
                        ((py / 8) * 16 + px / 8) as u8
                    } else {
                        0
                    },
            decreases 16 - x,
        {
            let c = cidx as u8;
            let ghost before = *scrbuf;
            scrbuf.fill_rect(x * SQSIZE, y * SQSIZE, SQSIZE, SQSIZE, c);
            proof {
                assert forall|px: int, py: int|
                    0 <= px < w && 0 <= py < h implies #[trigger] scrbuf.pixel(px, py) == if px < 128
                        && py < 128 && (py / 8) * 16 + px / 8 < cidx + 1 {
                        ((py / 8) * 16 + px / 8) as u8
                    } else {
                        0
                    } by {
                    lemma_square(x as int, y as int, px, py);
                    assert(before.pixel(px, py) == before.pixel(px, py));
                    if px / 8 == x && py / 8 == y {
                        assert(px < 128 && py < 128) by (nonlinear_arith)
                            requires
                                px >= 0,
                                py >= 0,
                                px / 8 == x,
                                py / 8 == y,
                                x < 16,
                                y < 16,
                        ;
                    } else if px < 128 && py < 128 {
                        assert(0 <= px / 8 < 16 && 0 <= py / 8 < 16) by (nonlinear_arith)
                            requires
                                0 <= px < 128,
                                0 <= py < 128,
                        ;
                        assert((py / 8) * 16 + px / 8 != cidx);
                    }
                }
            }
            cidx = cidx + 1;
            x = x + 1;
        }
        y = y + 1;
    }
    assert forall|px: int, py: int|
        0 <= px < w && 0 <= py < h implies #[trigger] scrbuf.pixel(px, py) == palette_pixel(px, py) by {
        if px < 128 && py < 128 {
            assert((py / 8) * 16 + px / 8 < 256) by (nonlinear_arith)
                requires
                    0 <= px < 128,
                    0 <= py < 128,
            ;
        }
    }
}

/// The first floor (area) tile code; codes below it are solid.
pub const AREATILE: u16 = 107;

/// The tile code that marks an ambush spot.
pub const AMBUSHTILE: u16 = 106;

/// How one map tile shows on the automap.
#[derive(Clone, Copy, PartialEq, Eq, Debug, Structural)]
pub enum TileLook {
    /// Off the map: a square of color 31 inside the grid line.
    OffMap,
    /// A wall or door with a texture: the wall texture of this index.
    Textured(usize),
    /// A wall or door without a texture: a square with a border color and
    /// an inner color.
    Framed(u8, u8),
    /// An ambush spot: border 31, inner color 6.
    Ambush,
    /// A floor of this area color.
    Area(u8),
}

/// The wall texture of a door tile (90 to 101) or of a solid tile.
pub open spec fn wall_texture(tile: u16) -> int {
    if 90 <= tile <= 101 {
        if tile >= 100 {
            24
        } else {
            tile + 8
        }
    } else if tile == 21 {
        41
    } else {
        (tile - 1) * 2
    }
}

/// How a tile shows on the automap, with `walls` wall textures at hand:
/// 0 is off the map; doors (90 to 101) and solid tiles (below 107) show
/// their wall texture where there is one, else a framed square (doors
/// framed in 14 and filled with `tile - 89`, walls framed in 15 and filled
/// with the tile's low byte); 106 is an ambush spot; the rest are floors
/// colored by their area number.
pub open spec fn tile_look_of(tile: u16, walls: int) -> TileLook {
    if tile == 0 {
        TileLook::OffMap
    } else if 90 <= tile <= 101 {
        if wall_texture(tile) < walls {
            TileLook::Textured(wall_texture(tile) as usize)
        } else {
            TileLook::Framed(14, (tile - 89) as u8)
        }
    } else if tile == AMBUSHTILE {
        TileLook::Ambush
    } else if tile < AREATILE {
        if wall_texture(tile) < walls {
            TileLook::Textured(wall_texture(tile) as usize)
        } else {
            TileLook::Framed(15, (tile % 256) as u8)
        }
    } else {
        TileLook::Area(((tile - AREATILE) % 256) as u8)
    }
}

/// How a tile shows on the automap, with `walls` wall textures at hand.
pub fn tile_look(tile: u16, walls: usize) -> (t: TileLook)
    ensures
        t == tile_look_of(tile, walls as int),
{
    if tile == 0 {
        return TileLook::OffMap;
    }
    if tile >= 90 && tile <= 101 {
        let widx: usize = if tile >= 100 {
            24
        } else {
            (tile + 8) as usize
        };
        if widx < walls {
            TileLook::Textured(widx)
        } else {
            TileLook::Framed(14, (tile - 89) as u8)
        }
    } else if tile == AMBUSHTILE {
        TileLook::Ambush
    } else if tile < AREATILE {
        let widx: usize = if tile == 21 {
            41
        } else {
            ((tile - 1) * 2) as usize
        };
        if widx < walls {
            TileLook::Textured(widx)
        } else {
            assert(tile & 0xFF == tile % 256) by (bit_vector);
            TileLook::Framed(15, (tile & 0xFF) as u8)
        }
    } else {
        let area: u16 = tile - AREATILE;
        assert(area & 0xFF == area % 256) by (bit_vector);
        TileLook::Area((area & 0xFF) as u8)
    }
}


/// A rectangle to fill: corner, width, height and palette index.
pub type FillRect = (i32, i32, i32, i32, u8);

/// The color the rectangles `rs`, filled in order over a pixel of color
/// `base`, leave at `(px, py)`: that of the last one that covers it.
pub open spec fn rects_color(rs: Seq<FillRect>, px: int, py: int, base: u8) -> u8
    decreases rs.len(),
{
    if rs.len() == 0 {
        base
    } else {
        let r = rs.last();
        if in_rect(r.0 as int, r.1 as int, r.2 as int, r.3 as int, px, py) {
            r.4
        } else {
            rects_color(rs.drop_last(), px, py, base)
        }
    }
}

/// The marks of a thing on a tile whose corner is `(ix, iy)`: a black
/// square of 4 with a square of 2 of the thing's low byte inside.
pub open spec fn thing_rects(thing: u16, ix: int, iy: int) -> Seq<FillRect> {
    if thing > 0 {
        seq![
            ((ix + 2) as i32, (iy + 2) as i32, 4i32, 4i32, 0u8),
            ((ix + 3) as i32, (iy + 3) as i32, 2i32, 2i32, (thing % 256) as u8),
        ]
    } else {
        Seq::empty()
    }
}

/// The rectangles that show a tile of side `scl` at `(ix, iy)`: an off-map
/// tile a square of 31 inside its grid line (and no thing); a framed wall
/// or door, and an ambush spot, a square of the border color with the inner
/// color inside; a floor a square of its area color inside the grid line;
/// then the thing on it. A wall with a texture has no rectangle of its own.
pub open spec fn tile_rects(look: TileLook, thing: u16, ix: int, iy: int, scl: int) -> Seq<FillRect> {
    let full = (ix as i32, iy as i32, scl as i32, scl as i32);
    let inner = ((ix + 1) as i32, (iy + 1) as i32, (scl - 2) as i32, (scl - 2) as i32);
    match look {
        TileLook::OffMap => seq![((ix + 1) as i32, (iy + 1) as i32, (scl - 1) as i32, (scl - 1) as i32, 31u8)],
        TileLook::Textured(_) => thing_rects(thing, ix, iy),
        TileLook::Framed(border, fill) => seq![
            (full.0, full.1, full.2, full.3, border),
            (inner.0, inner.1, inner.2, inner.3, fill),
        ] + thing_rects(thing, ix, iy),
        TileLook::Ambush => seq![
            (full.0, full.1, full.2, full.3, 31u8),
            (inner.0, inner.1, inner.2, inner.3, 6u8),
        ] + thing_rects(thing, ix, iy),
        TileLook::Area(c) => seq![(inner.0, inner.1, inner.2, inner.3, c)] + thing_rects(thing, ix, iy),
    }
}

/// The rectangles of the automap tile at column `x`, row `y` of the screen:
/// the map tile and thing at the offset `(xo, yo)` from there, without wall
/// textures.
pub open spec fn automap_tile_rects(m: MapData, xo: int, yo: int, scl: int, x: int, y: int) -> Seq<FillRect> {
    tile_rects(tile_look_of(m.tile_at(x + xo, y + yo), 0), m.thing_at(x + xo, y + yo), x * scl, y * scl, scl)
}

/// The rectangles of the first `n` tiles of row `y` of the automap.
pub open spec fn row_rects(m: MapData, xo: int, yo: int, scl: int, y: int, n: int) -> Seq<FillRect>
    decreases n,
{
    if n <= 0 {
        Seq::empty()
    } else {
        row_rects(m, xo, yo, scl, y, n - 1) + automap_tile_rects(m, xo, yo, scl, n - 1, y)
    }
}

/// The rectangles of the first `n` rows of the automap, row by row.
pub open spec fn map_rects(m: MapData, xo: int, yo: int, scl: int, n: int) -> Seq<FillRect>
    decreases n,
{
    if n <= 0 {
        Seq::empty()
    } else {
        map_rects(m, xo, yo, scl, n - 1) + row_rects(m, xo, yo, scl, n - 1, m.spec_size().0 as int)
    }
}

/// Appends the rectangles of a thing.
fn push_thing_rects(v: &mut Vec<FillRect>, thing: u16, ix: i32, iy: i32)
    requires
        0 <= ix <= 3_000_000,
        0 <= iy <= 3_000_000,
    ensures
        final(v)@ == old(v)@ + thing_rects(thing, ix as int, iy as int),
{
    if thing > 0 {
        assert(thing & 0xFF == thing % 256) by (bit_vector);
        v.push((ix + 2, iy + 2, 4, 4, 0));
        v.push((ix + 3, iy + 3, 2, 2, (thing & 0xFF) as u8));
    }
    assert(final(v)@ == old(v)@ + thing_rects(thing, ix as int, iy as int)) by {
        assert(v@ =~= old(v)@ + thing_rects(thing, ix as int, iy as int));
    }
}

/// Appends the rectangles of a tile.
fn push_tile_rects(v: &mut Vec<FillRect>, look: TileLook, thing: u16, ix: i32, iy: i32, scl: i32)
    requires
        0 <= ix <= 3_000_000,
        0 <= iy <= 3_000_000,
        6 <= scl <= 40,
    ensures
        final(v)@ == old(v)@ + tile_rects(look, thing, ix as int, iy as int, scl as int),
{
    let ghost v0 = v@;
    match look {
        TileLook::OffMap => {
            v.push((ix + 1, iy + 1, scl - 1, scl - 1, 31));
            assert(v@ =~= v0 + tile_rects(look, thing, ix as int, iy as int, scl as int));
        },
        TileLook::Textured(_) => {
            push_thing_rects(v, thing, ix, iy);
        },
        TileLook::Framed(border, fill) => {
            v.push((ix, iy, scl, scl, border));
            v.push((ix + 1, iy + 1, scl - 2, scl - 2, fill));
            push_thing_rects(v, thing, ix, iy);
            assert(v@ =~= v0 + tile_rects(look, thing, ix as int, iy as int, scl as int));
        },
        TileLook::Ambush => {
            v.push((ix, iy, scl, scl, 31));
            v.push((ix + 1, iy + 1, scl - 2, scl - 2, 6));
            push_thing_rects(v, thing, ix, iy);
            assert(v@ =~= v0 + tile_rects(look, thing, ix as int, iy as int, scl as int));
        },
        TileLook::Area(c) => {
            v.push((ix + 1, iy + 1, scl - 2, scl - 2, c));
            push_thing_rects(v, thing, ix, iy);
            assert(v@ =~= v0 + tile_rects(look, thing, ix as int, iy as int, scl as int));
        },
    }
}

/// The rectangles that draw the automap of `map`, row by row and tile by
/// tile, with the map offset `(xo, yo)` and tiles of side `scl`.
pub fn automap_rects(map: &MapData, xo: i32, yo: i32, scl: i32) -> (v: Vec<FillRect>)
    requires
        -10 <= xo <= 53,
        -10 <= yo <= 53,
        6 <= scl <= 40,
    ensures
        v@ == map_rects(*map, xo as int, yo as int, scl as int, map.spec_size().1 as int),
{
    let mw = map.width() as i32;
    let mh = map.height() as i32;
    let mut v: Vec<FillRect> = Vec::new();
    let mut y: i32 = 0;
    while y < mh
        invariant
            0 <= y <= mh,
            mw == map.spec_size().0,
            mh == map.spec_size().1,
            -10 <= xo <= 53,
            -10 <= yo <= 53,
            6 <= scl <= 40,
            v@ == map_rects(*map, xo as int, yo as int, scl as int, y as int),
        decreases mh - y,
    {
        let mut x: i32 = 0;
        while x < mw
            invariant
                0 <= y < mh,
                0 <= x <= mw,
                mw == map.spec_size().0,
                mh == map.spec_size().1,
                mw <= 65535,
                mh <= 65535,
                -10 <= xo <= 53,
                -10 <= yo <= 53,
                6 <= scl <= 40,
                v@ == map_rects(*map, xo as int, yo as int, scl as int, y as int) + row_rects(
                    *map,
                    xo as int,
                    yo as int,
                    scl as int,
                    y as int,
                    x as int,
                ),
            decreases mw - x,
        {
            let tile = map.tile(x + xo, y + yo);
            let thing = map.thing(x + xo, y + yo);
            let look = tile_look(tile, 0);
            assert(0 <= x * scl <= 3_000_000 && 0 <= y * scl <= 3_000_000) by (nonlinear_arith)
                requires
                    0 <= x < 65536,
                    0 <= y < 65536,
                    6 <= scl <= 40,
            ;
            let ghost v0 = v@;
            push_tile_rects(&mut v, look, thing, x * scl, y * scl, scl);
            assert(v@ =~= map_rects(*map, xo as int, yo as int, scl as int, y as int) + row_rects(
                *map,
                xo as int,
                yo as int,
                scl as int,
                y as int,
                x + 1,
            ));
            x = x + 1;
        }
        assert(v@ =~= map_rects(*map, xo as int, yo as int, scl as int, y + 1));
        y = y + 1;
    }
    v
}

/// Fills the rectangles in order: each pixel ends with the color of the
/// last rectangle that covers it.
pub fn paint_rects(scrbuf: &mut ScreenBuffer, rects: &Vec<FillRect>)
    requires
        old(scrbuf).wf(),
        old(scrbuf).spec_width() * old(scrbuf).spec_height() <= i32::MAX,
    ensures
        final(scrbuf).wf(),
        final(scrbuf).spec_width() == old(scrbuf).spec_width(),
        final(scrbuf).spec_height() == old(scrbuf).spec_height(),
        forall|px: int, py: int|
            0 <= px < old(scrbuf).spec_width() && 0 <= py < old(scrbuf).spec_height()
                ==> #[trigger] final(scrbuf).pixel(px, py) == rects_color(rects@, px, py, old(scrbuf).pixel(px, py)),
{
    let ghost w = scrbuf.spec_width();
    let ghost h = scrbuf.spec_height();
    let ghost start = *scrbuf;
    let mut k: usize = 0;
    while k < rects.len()
        invariant
            k <= rects@.len(),
            scrbuf.wf(),
            scrbuf.spec_width() == w,
            scrbuf.spec_height() == h,
            w * h <= i32::MAX,
            start.spec_width() == w,
            start.spec_height() == h,
            forall|px: int, py: int|
                0 <= px < w && 0 <= py < h ==> #[trigger] scrbuf.pixel(px, py) == rects_color(
                    rects@.take(k as int),
                    px,
                    py,
                    start.pixel(px, py),
                ),
        decreases rects@.len() - k,
    {
        let r = rects[k];
        scrbuf.fill_rect(r.0, r.1, r.2, r.3, r.4);
        proof {
            assert(rects@.take(k + 1).drop_last() == rects@.take(k as int));
            assert(rects@.take(k + 1).last() == r);
        }
        k = k + 1;
    }
    proof {
        assert(rects@.take(k as int) == rects@);
    }
}

} // verus!
