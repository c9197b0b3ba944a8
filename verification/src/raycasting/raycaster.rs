//! The ray casting demo's map, layout and controls.
use super::painter::RGB;
use crate::text::chars_of;
use vstd::prelude::*;

verus! {

pub const DO_WALK_FWD: u32 = 0x01;
pub const DO_WALK_BACK: u32 = 0x02;
pub const DO_ROT_LEFT: u32 = 0x04;
pub const DO_ROT_RIGHT: u32 = 0x08;
pub const DO_STRAFE_LEFT: u32 = 0x10;
pub const DO_STRAFE_RIGHT: u32 = 0x20;
pub const DO_RUN: u32 = 0x40;

/// What lies beyond the edges of the map.
pub const MAP_EDGE: u8 = 255;

/// The mini map takes this percentage of the screen's width.
pub const MINI_MAP_WIDTH_PERCENT: i32 = 30;

/// The keys the demo reacts to.
#[derive(Clone, Copy, PartialEq, Eq, Debug, Structural)]
pub enum RayKey {
    W,
    S,
    A,
    D,
    Q,
    E,
    LShift,
    X,
    Other,
}

/// A key pressed (with whether left Alt is held) or released.
#[derive(Clone, Copy, PartialEq, Eq, Debug, Structural)]
pub enum RayEvent {
    KeyDown(RayKey, bool),
    KeyUp(RayKey),
    Other,
}

/// The flag a key stands for (0 for keys that stand for none).
pub open spec fn ray_key_flag(k: RayKey) -> u32 {
    match k {
        RayKey::W => DO_WALK_FWD,
        RayKey::S => DO_WALK_BACK,
        RayKey::A => DO_ROT_LEFT,
        RayKey::D => DO_ROT_RIGHT,
        RayKey::Q => DO_STRAFE_LEFT,
        RayKey::E => DO_STRAFE_RIGHT,
        RayKey::LShift => DO_RUN,
        _ => 0,
    }
}

/// A key reads as held from its key-down to its key-up, and pressing or
/// releasing one key leaves the flags of the other keys as they were.
pub proof fn lemma_key_held_between_down_and_up(keys: u32, k: RayKey, other: RayKey)
    requires
        ray_key_flag(other) != ray_key_flag(k),
    ensures
        ray_key_flag(k) != 0 ==> (keys | ray_key_flag(k)) & ray_key_flag(k) != 0,
        (keys & !ray_key_flag(k)) & ray_key_flag(k) == 0,
        (keys | ray_key_flag(k)) & ray_key_flag(other) == keys & ray_key_flag(other),
        (keys & !ray_key_flag(k)) & ray_key_flag(other) == keys & ray_key_flag(other),
{
    let a = ray_key_flag(k);
    let b = ray_key_flag(other);
    assert((a | keys) & a == a && (keys & !a) & a == 0) by (bit_vector);
    assert((keys | a) & a != 0 || a == 0) by (bit_vector);
    assert((keys | a) & b == keys & b && (keys & !a) & b == keys & b) by (bit_vector)
        requires
            a == 0 || a == 1 || a == 2 || a == 4 || a == 8 || a == 16 || a == 32 || a == 64,
            b == 0 || b == 1 || b == 2 || b == 4 || b == 8 || b == 16 || b == 32 || b == 64,
            a != b,
    ;
}

/// A character of a map string that takes a cell: a wall letter, an empty
/// cell (`.`) or the player's start (`@`).
pub open spec fn is_map_char(c: char) -> bool {
    ('A' <= c <= 'Z') || c == '.' || c == '@'
}

/// The characters of a map string that take cells, in order.
pub open spec fn map_cells(s: Seq<char>) -> Seq<char>
    decreases s.len(),
{
    if s.len() == 0 {
        Seq::empty()
    } else if is_map_char(s.last()) {
        map_cells(s.drop_last()).push(s.last())
    } else {
        map_cells(s.drop_last())
    }
}

/// The value of a cell: 1 for `A` up to 26 for `Z`, 0 for the rest.
pub open spec fn cell_value(c: char) -> u8 {
    if 'A' <= c <= 'Z' {
        (c as int - 64) as u8
    } else {
        0
    }
}

/// The last cell of `cells` that holds the player's start.
pub open spec fn last_start(cells: Seq<char>) -> Option<int>
    decreases cells.len(),
{
    if cells.len() == 0 {
        None
    } else if cells.last() == '@' {
        Some(cells.len() - 1)
    } else {
        last_start(cells.drop_last())
    }
}

/// The map a map string gives for `len` cells: the value of each of its first
/// `len` cells, 0 past the cells it holds.
pub open spec fn map_of(s: Seq<char>, len: int) -> Seq<u8> {
    let cells = map_cells(s);
    Seq::new(len as nat, |i: int| if i < cells.len() { cell_value(cells[i]) } else { 0 })
}

/// Where the player starts for a map string: the last `@` among its first
/// `len` cells, as (column, row) in a map `w` cells wide.
pub open spec fn start_of(s: Seq<char>, len: int, w: int) -> Option<(i32, i32)> {
    let cells = map_cells(s);
    let cut = if cells.len() <= len { cells } else { cells.take(len) };
    match last_start(cut) {
        Some(j) => Some(((j % w) as i32, (j / w) as i32)),
        None => None,
    }
}

/// The color of a wall kind, before shading.
pub open spec fn wall_base_color(i: int) -> RGB {
    if i == 0 {
        RGB { r: 160, g: 0, b: 160 }
    } else if i == 1 {
        RGB { r: 160, g: 80, b: 0 }
    } else if i == 2 {
        RGB { r: 0, g: 160, b: 160 }
    } else if i == 3 {
        RGB { r: 160, g: 0, b: 0 }
    } else if i == 4 {
        RGB { r: 0, g: 160, b: 0 }
    } else if i == 5 {
        RGB { r: 160, g: 160, b: 0 }
    } else {
        RGB { r: 0, g: 0, b: 160 }
    }
}

/// The shading, in percent, of a wall facing north, west, south or east.
pub open spec fn wall_shading(i: int) -> int {
    if i == 1 || i == 3 {
        80
    } else if i == 2 {
        60
    } else {
        100
    }
}

/// The color of a wall of the given kind and orientation: black for no wall
/// or the map's edge, else the kind's color (cycling through 7) shaded by
/// the orientation (cycling through 4).
pub open spec fn wall_color(wall: u8, orientation: u8) -> RGB {
    if wall == 0 || wall == MAP_EDGE {
        RGB { r: 0, g: 0, b: 0 }
    } else {
        let c = wall_base_color((wall % 7) as int);
        let s = wall_shading((orientation % 4) as int);
        RGB { r: (c.r * s / 100) as u8, g: (c.g * s / 100) as u8, b: (c.b * s / 100) as u8 }
    }
}

/// The square of the mini map for cell (`x`, `y`).
pub open spec fn mini_map_rect(c: RayCaster, x: int, y: int) -> (i32, i32, i32, i32, RGB) {
    let ms = c.spec_layout().0 as int;
    ((x * ms + 1) as i32, (y * ms + 1) as i32, (ms - 1) as i32, (ms - 1) as i32, wall_color(c.cell(x, y), 0))
}

/// The squares of the first `cols` columns of the mini map, column by column.
pub open spec fn mini_map_rects_of(c: RayCaster, cols: int) -> Seq<(i32, i32, i32, i32, RGB)>
    decreases cols,
{
    if cols <= 0 {
        Seq::empty()
    } else {
        mini_map_rects_of(c, cols - 1) + Seq::new(
            c.spec_map_size().1 as nat,
            |y: int| mini_map_rect(c, cols - 1, y),
        )
    }
}

/// The two horizon lines of row `y`, the sky's then the floor's.
pub open spec fn horizon_pair(c: RayCaster, y: int) -> Seq<(i32, i32, i32, RGB)> {
    let (ms, vx, vy, vw, vh) = c.spec_layout();
    let up = (y * 100 / (vh / 2)) as u8;
    let down = (50 + up / 2) as u8;
    seq![
        (vx, (c.spec_screen().0 - 1) as i32, (y + vy) as i32, RGB { r: up, g: 128, b: 128 }),
        (vx, (c.spec_screen().0 - 1) as i32, (vh - y + vy) as i32, RGB { r: down, g: down, b: down }),
    ]
}

/// The horizon lines of rows `0..rows`.
pub open spec fn horizon_of(c: RayCaster, rows: int) -> Seq<(i32, i32, i32, RGB)>
    decreases rows,
{
    if rows <= 0 {
        Seq::empty()
    } else {
        horizon_of(c, rows - 1) + horizon_pair(c, rows - 1)
    }
}

/// The ray caster's map, layout and held keys (its position and angle are
/// kept by the renderer).
pub struct RayCaster {
    scr_width: i32,
    scr_height: i32,
    map_width: i32,
    map_height: i32,
    map: Vec<u8>,
    start: Option<(i32, i32)>,
    mini_map_side: i32,
    view_x: i32,
    view_y: i32,
    view_width: i32,
    view_height: i32,
    keys: u32,
}

impl RayCaster {
    pub closed spec fn spec_screen(&self) -> (i32, i32) {
        (self.scr_width, self.scr_height)
    }

    pub closed spec fn spec_map_size(&self) -> (i32, i32) {
        (self.map_width, self.map_height)
    }

    pub closed spec fn spec_map(&self) -> Seq<u8> {
        self.map@
    }

    /// The cell the player starts in, where the map names one.
    pub closed spec fn spec_start(&self) -> Option<(i32, i32)> {
        self.start
    }

    /// The side of a mini map cell, and the 3D view's left, top, width and height.
    pub closed spec fn spec_layout(&self) -> (i32, i32, i32, i32, i32) {
        (self.mini_map_side, self.view_x, self.view_y, self.view_width, self.view_height)
    }

    pub closed spec fn spec_keys(&self) -> u32 {
        self.keys
    }

    /// The map holds a cell for each column and row.
    pub closed spec fn wf(&self) -> bool {
        &&& self.map_width > 0
        &&& self.map_height > 0
        &&& self.map_width * self.map_height <= i32::MAX
        &&& self.map@.len() == self.map_width * self.map_height
    }

    /// The cell at column `x`, row `y`: the map's edge outside the map.
    pub open spec fn cell(&self, x: int, y: int) -> u8 {
        if 0 <= x < self.spec_map_size().0 && 0 <= y < self.spec_map_size().1 {
            self.spec_map()[y * self.spec_map_size().0 + x]
        } else {
            MAP_EDGE
        }
    }

    /// The screen's width and height.
    pub fn screen(&self) -> (r: (i32, i32))
        ensures
            r == self.spec_screen(),
    {
        (self.scr_width, self.scr_height)
    }

    /// The map's width and height, in cells.
    pub fn map_size(&self) -> (r: (i32, i32))
        ensures
            r == self.spec_map_size(),
    {
        (self.map_width, self.map_height)
    }

    /// The cell the player starts in, where the map names one.
    pub fn start(&self) -> (r: Option<(i32, i32)>)
        ensures
            r == self.spec_start(),
    {
        self.start
    }

    /// The side of a mini map cell, and the 3D view's left, top, width and height.
    pub fn layout(&self) -> (r: (i32, i32, i32, i32, i32))
        ensures
            r == self.spec_layout(),
    {
        (self.mini_map_side, self.view_x, self.view_y, self.view_width, self.view_height)
    }

    /// The squares of the mini map, as (left, top, width, height, color),
    /// column by column: each cell is a square of the cell side, less a
    /// one pixel grid line, in its wall's color.
    pub fn mini_map_rects(&self) -> (v: Vec<(i32, i32, i32, i32, RGB)>)
        requires
            self.wf(),
            self.spec_layout().0 >= 0,
            self.spec_layout().0 * self.spec_map_size().0 + 1 <= i32::MAX,
            self.spec_layout().0 * self.spec_map_size().1 + 1 <= i32::MAX,
        ensures
            v@ == mini_map_rects_of(*self, self.spec_map_size().0 as int),
    {
        let ms = self.mini_map_side;
        let mut v: Vec<(i32, i32, i32, i32, RGB)> = Vec::new();
        let mut x: i32 = 0;
        while x < self.map_width
            invariant
                self.wf(),
                ms == self.spec_layout().0,
                ms >= 0,
                ms * self.map_width + 1 <= i32::MAX,
                ms * self.map_height + 1 <= i32::MAX,
                0 <= x <= self.map_width,
                v@ == mini_map_rects_of(*self, x as int),
            decreases self.map_width - x,
        {
            let ghost before = v@;
            let mut y: i32 = 0;
            assert(x * ms + 1 <= i32::MAX) by (nonlinear_arith)
                requires
                    0 <= x < self.map_width,
                    ms >= 0,
                    ms * self.map_width + 1 <= i32::MAX,
            ;
            while y < self.map_height
                invariant
                    self.wf(),
                    ms == self.spec_layout().0,
                    ms >= 0,
                    ms * self.map_height + 1 <= i32::MAX,
                    x * ms + 1 <= i32::MAX,
                    0 <= x < self.map_width,
                    0 <= y <= self.map_height,
                    v@ == before + Seq::new(y as nat, |r: int| mini_map_rect(*self, x as int, r)),
                decreases self.map_height - y,
            {
                assert(y * ms + 1 <= i32::MAX) by (nonlinear_arith)
                    requires
                        0 <= y < self.map_height,
                        ms >= 0,
                        ms * self.map_height + 1 <= i32::MAX,
                ;
                let m = self.wall_at(x, y);
                let color = Self::get_wall_color(m, 0);
                v.push((x * ms + 1, y * ms + 1, ms - 1, ms - 1, color));
                assert(v@ == before + Seq::new((y + 1) as nat, |r: int| mini_map_rect(*self, x as int, r)));
                y = y + 1;
            }
            x = x + 1;
        }
        v
    }

    /// The horizon of the 3D view, as (left, right, row, color) lines: for
    /// each row `y` from 0 to half the view's height, the row `y` of the
    /// sky, shaded from 0 to 100, and the row `y` up from the bottom of the
    /// floor, grey from 50 to 100.
    pub fn horizon_lines(&self) -> (v: Vec<(i32, i32, i32, RGB)>)
        requires
            self.spec_layout().4 >= 2,
            self.spec_layout().4 / 2 * 100 <= i32::MAX,
            self.spec_layout().2 >= 0,
            self.spec_layout().2 + self.spec_layout().4 <= i32::MAX,
            self.spec_screen().0 >= 1,
        ensures
            v@ == horizon_of(*self, self.spec_layout().4 / 2 + 1),
    {
        let half_height = self.view_height / 2;
        let mut v: Vec<(i32, i32, i32, RGB)> = Vec::new();
        let mut y: i32 = 0;
        while y <= half_height
            invariant
                half_height == self.spec_layout().4 / 2,
                half_height >= 1,
                half_height * 100 <= i32::MAX,
                self.view_height == self.spec_layout().4,
                self.view_y == self.spec_layout().2,
                self.view_x == self.spec_layout().1,
                self.scr_width == self.spec_screen().0,
                self.view_y >= 0,
                self.view_y + self.view_height <= i32::MAX,
                self.scr_width >= 1,
                0 <= y <= half_height + 1,
                v@ == horizon_of(*self, y as int),
            decreases half_height + 1 - y,
        {
            assert(y * 100 / (half_height as int) <= 100) by (nonlinear_arith)
                requires
                    0 <= y <= half_height,
                    half_height >= 1,
            ;
            let shade_up = (y * 100 / half_height) as u8;
            let shade_down = 50 + (shade_up / 2);
            v.push((self.view_x, self.scr_width - 1, y + self.view_y, RGB::from(shade_up, 128, 128)));
            v.push(
                (
                    self.view_x,
                    self.scr_width - 1,
                    self.view_height - y + self.view_y,
                    RGB::from(shade_down, shade_down, shade_down),
                ),
            );
            y = y + 1;
        }
        v
    }

    /// The cell at column `x`, row `y`: the map's edge outside the map.
    pub fn wall_at(&self, x: i32, y: i32) -> (m: u8)
        requires
            self.wf(),
        ensures
            m == self.cell(x as int, y as int),
    {
        if x < 0 || x >= self.map_width || y < 0 || y >= self.map_height {
            MAP_EDGE
        } else {
            assert(0 <= y * self.map_width <= y * self.map_width + x < self.map_width * self.map_height) by (nonlinear_arith)
                requires
                    0 <= x < self.map_width,
                    0 <= y < self.map_height,
            ;
            self.map[(y * self.map_width + x) as usize]
        }
    }

    pub fn is_key_pressed(&self, flag: u32) -> (b: bool)
        ensures
            b == (self.spec_keys() & flag != 0),
    {
        (self.keys & flag) != 0
    }

    /// A pressed key sets its flag.
    pub fn handle_key_down(&mut self, key: RayKey)
        ensures
            final(self).spec_keys() == old(self).spec_keys() | ray_key_flag(key),
            final(self).spec_map() == old(self).spec_map(),
            final(self).spec_map_size() == old(self).spec_map_size(),
            final(self).wf() == old(self).wf(),
    {
        let f = key_flag_of(key);
        self.keys = self.keys | f;
    }

    /// A released key clears its flag.
    pub fn handle_key_up(&mut self, key: RayKey)
        ensures
            final(self).spec_keys() == old(self).spec_keys() & !ray_key_flag(key),
            final(self).spec_map() == old(self).spec_map(),
            final(self).spec_map_size() == old(self).spec_map_size(),
            final(self).wf() == old(self).wf(),
    {
        let f = key_flag_of(key);
        self.keys = self.keys & !f;
    }

    /// The color a wall is painted in.
    pub fn get_wall_color(wall: u8, orientation: u8) -> (c: RGB)
        ensures
            c == wall_color(wall, orientation),
    {
        if wall == 0 || wall == MAP_EDGE {
            RGB::from(0, 0, 0)
        } else {
            let color = base_color(wall % 7);
            let shading: u32 = match orientation % 4 {
                1 | 3 => 80,
                2 => 60,
                _ => 100,
            };
            RGB {
                r: ((color.r as u32) * shading / 100) as u8,
                g: ((color.g as u32) * shading / 100) as u8,
                b: ((color.b as u32) * shading / 100) as u8,
            }
        }
    }

    /// Handles an event: left Alt and X ends the demo (`false`); other keys
    /// set or clear their flags.
    pub fn handle_event(&mut self, event: RayEvent) -> (go_on: bool)
        ensures
            go_on == !(event matches RayEvent::KeyDown(RayKey::X, true)),
            final(self).spec_keys() == match event {
                RayEvent::KeyDown(RayKey::X, _) => old(self).spec_keys(),
                RayEvent::KeyDown(k, _) => old(self).spec_keys() | ray_key_flag(k),
                RayEvent::KeyUp(k) => old(self).spec_keys() & !ray_key_flag(k),
                RayEvent::Other => old(self).spec_keys(),
            },
            final(self).spec_map() == old(self).spec_map(),
            final(self).spec_map_size() == old(self).spec_map_size(),
            final(self).wf() == old(self).wf(),
    {
        match event {
            RayEvent::KeyDown(RayKey::X, lalt) => {
                if lalt {
                    return false;
                }
            },
            RayEvent::KeyDown(key, _) => {
                self.handle_key_down(key);
            },
            RayEvent::KeyUp(key) => {
                self.handle_key_up(key);
            },
            RayEvent::Other => {},
        }
        true
    }
}

/// The flag a key stands for.
fn key_flag_of(key: RayKey) -> (f: u32)
    ensures
        f == ray_key_flag(key),
{
    match key {
        RayKey::W => DO_WALK_FWD,
        RayKey::S => DO_WALK_BACK,
        RayKey::A => DO_ROT_LEFT,
        RayKey::D => DO_ROT_RIGHT,
        RayKey::Q => DO_STRAFE_LEFT,
        RayKey::E => DO_STRAFE_RIGHT,
        RayKey::LShift => DO_RUN,
        _ => 0,
    }
}

/// The color of wall kind `i` (of 7), before shading.
fn base_color(i: u8) -> (c: RGB)
    requires
        i < 7,
    ensures
        c == wall_base_color(i as int),
{
    match i {
        0 => RGB::from(160, 0, 160),
        1 => RGB::from(160, 80, 0),
        2 => RGB::from(0, 160, 160),
        3 => RGB::from(160, 0, 0),
        4 => RGB::from(0, 160, 0),
        5 => RGB::from(160, 160, 0),
        _ => RGB::from(0, 0, 160),
    }
}

/// Builder for [`RayCaster`].
pub struct RayCasterBuilder(RayCaster);

impl RayCasterBuilder {
    pub closed spec fn spec_caster(&self) -> RayCaster {
        self.0
    }

    /// An empty map and screen, no key held.
    pub fn new() -> (b: Self)
        ensures
            b.spec_caster().spec_screen() == (0i32, 0i32),
            b.spec_caster().spec_map_size() == (0i32, 0i32),
            b.spec_caster().spec_map().len() == 0,
            b.spec_caster().spec_start() is None,
            b.spec_caster().spec_keys() == 0,
            b.spec_caster().spec_layout() == (0i32, 0i32, 0i32, 0i32, 0i32),
    {
        RayCasterBuilder(
            RayCaster {
                scr_width: 0,
                scr_height: 0,
                map_width: 0,
                map_height: 0,
                map: Vec::new(),
                start: None,
                mini_map_side: 0,
                view_x: 0,
                view_y: 0,
                view_width: 0,
                view_height: 0,
                keys: 0,
            },
        )
    }

    /// Sets the map's size in cells.
    pub fn map_size(&mut self, map_width: i32, map_height: i32) -> (r: &mut Self)
        requires
            map_width > 0,
            map_height > 0,
        ensures
            r.spec_caster().spec_map_size() == (map_width, map_height),
            r.spec_caster().spec_screen() == old(self).spec_caster().spec_screen(),
            r.spec_caster().spec_map() == old(self).spec_caster().spec_map(),
            r.spec_caster().spec_start() == old(self).spec_caster().spec_start(),
            r.spec_caster().spec_keys() == old(self).spec_caster().spec_keys(),
            r.spec_caster().spec_layout() == old(self).spec_caster().spec_layout(),
            *final(self) == *final(r),
    {
        self.0.map_width = map_width;
        self.0.map_height = map_height;
        self
    }

    /// Sets the screen's size in pixels.
    pub fn scr_size(&mut self, scr_width: i32, scr_height: i32) -> (r: &mut Self)
        requires
            scr_width > 0,
            scr_height > 0,
        ensures
            r.spec_caster().spec_screen() == (scr_width, scr_height),
            r.spec_caster().spec_map_size() == old(self).spec_caster().spec_map_size(),
            r.spec_caster().spec_map() == old(self).spec_caster().spec_map(),
            r.spec_caster().spec_start() == old(self).spec_caster().spec_start(),
            r.spec_caster().spec_keys() == old(self).spec_caster().spec_keys(),
            r.spec_caster().spec_layout() == old(self).spec_caster().spec_layout(),
            *final(self) == *final(r),
    {
        self.0.scr_width = scr_width;
        self.0.scr_height = scr_height;
        self
    }

    /// Fills the map from a string, row by row: `A` to `Z` are walls, `.` is
    /// empty, `@` is an empty cell where the player starts; other characters
    /// are skipped, and so is what follows the last cell.
    pub fn map_from_str(&mut self, map_data: &str) -> (r: &mut Self)
        requires
            old(self).spec_caster().spec_map_size().0 > 0,
            old(self).spec_caster().spec_map_size().1 > 0,
            old(self).spec_caster().spec_map_size().0 * old(self).spec_caster().spec_map_size().1 <= i32::MAX,
        ensures
            ({
                let (w, h) = old(self).spec_caster().spec_map_size();
                &&& r.spec_caster().spec_map() == map_of(map_data@, w * h)
                &&& r.spec_caster().spec_start() == match start_of(map_data@, w * h, w as int) {
                    Some(p) => Some(p),
                    None => old(self).spec_caster().spec_start(),
                }
                &&& r.spec_caster().spec_map_size() == (w, h)
                &&& r.spec_caster().spec_screen() == old(self).spec_caster().spec_screen()
                &&& r.spec_caster().spec_keys() == old(self).spec_caster().spec_keys()
                &&& r.spec_caster().wf()
                &&& r.spec_caster().spec_layout() == old(self).spec_caster().spec_layout()
            }),
            *final(self) == *final(r),
    {
        let w = self.0.map_width;
        let map_len = self.0.map_width * self.0.map_height;
        assert(map_len > 0) by (nonlinear_arith)
            requires
                map_len == self.0.map_width * self.0.map_height,
                self.0.map_width > 0,
                self.0.map_height > 0,
        ;
        let mut map: Vec<u8> = Vec::new();
        let mut k: i32 = 0;
        while k < map_len
            invariant
                0 <= k <= map_len,
                map@.len() == k,
                forall|i: int| 0 <= i < k ==> map@[i] == 0,
            decreases map_len - k,
        {
            map.push(0);
            k = k + 1;
        }
        let chars = chars_of(map_data);
        let ghost s = chars@;
        let mut start = self.0.start;
        let ghost old_start = self.0.start;
        let mut idx: i32 = 0;
        let mut c: usize = 0;
        while c < chars.len()
            invariant_except_break
                s == chars@,
                w > 0,
                map_len > 0,
                c <= s.len(),
                0 <= idx < map_len,
                idx == map_cells(s.take(c as int)).len(),
                map@.len() == map_len,
                forall|i: int|
                    0 <= i < map_len ==> #[trigger] map@[i] == if i < idx {
                        cell_value(map_cells(s.take(c as int))[i])
                    } else {
                        0
                    },
                start == match last_start(map_cells(s.take(c as int))) {
                    Some(j) => Some(((j % w as int) as i32, (j / w as int) as i32)),
                    None => old_start,
                },
            ensures
                0 <= idx <= map_len,
                map@.len() == map_len,
                c <= s.len(),
                idx == map_cells(s.take(c as int)).len(),
                idx < map_len ==> c == s.len(),
                forall|i: int|
                    0 <= i < map_len ==> #[trigger] map@[i] == if i < idx {
                        cell_value(map_cells(s.take(c as int))[i])
                    } else {
                        0
                    },
                start == match last_start(map_cells(s.take(c as int))) {
                    Some(j) => Some(((j % w as int) as i32, (j / w as int) as i32)),
                    None => old_start,
                },
            decreases s.len() - c,
        {
            let ch = chars[c];
            proof {
                assert(s.take(c as int + 1).drop_last() == s.take(c as int));
                assert(s.take(c as int + 1).last() == ch);
            }
            let ghost before = map_cells(s.take(c as int));
            if 'A' <= ch && ch <= 'Z' {
                assert(map_cells(s.take(c as int + 1)) == before.push(ch));
                assert(before.push(ch).drop_last() == before);
                assert(last_start(before.push(ch)) == last_start(before));
                map.set(idx as usize, ((ch as u32) - 64) as u8);
                idx = idx + 1;
            } else if ch == '.' {
                assert(map_cells(s.take(c as int + 1)) == before.push(ch));
                assert(before.push(ch).drop_last() == before);
                assert(last_start(before.push(ch)) == last_start(before));
                map.set(idx as usize, 0);
                idx = idx + 1;
            } else if ch == '@' {
                assert(map_cells(s.take(c as int + 1)) == before.push(ch));
                let y = idx / w;
                assert(0 <= y * w <= idx) by (nonlinear_arith)
                    requires
                        w > 0,
                        idx >= 0,
                        y == idx / w,
                ;
                let x = idx - y * w;
                assert(x == idx % w && y == idx / w) by (nonlinear_arith)
                    requires
                        w > 0,
                        idx >= 0,
                        y == idx / w,
                        x == idx - y * w,
                ;
                assert(last_start(before.push(ch)) == Some(idx as int));
                assert(((idx as int % w as int) as i32, (idx as int / w as int) as i32) == (x, y));
                start = Some((x, y));
                idx = idx + 1;
            } else {
                assert(map_cells(s.take(c as int + 1)) == before);
            }
            c = c + 1;
            if idx >= map_len {
                break;
            }
        }
        proof {
            lemma_cells_prefix(s, c as int);
            let pre = map_cells(s.take(c as int));
            let all = map_cells(s);
            if idx < map_len {
                assert(s.take(c as int) == s);
            } else {
                assert(all.take(map_len as int) == pre);
                if all.len() == map_len {
                    assert(all.take(map_len as int) == all);
                }
            }
            let cut = if all.len() <= map_len {
                all
            } else {
                all.take(map_len as int)
            };
            assert(cut == pre);
            assert forall|i: int| 0 <= i < idx implies pre[i] == all[i] by {
                assert(all.take(pre.len() as int)[i] == all[i]);
            }
            assert(map@ =~= map_of(s, map_len as int));
        }
        self.0.map = map;
        self.0.start = start;
        self
    }

    /// The ray caster, with the layout of its mini map and 3D view: mini map
    /// cells are square, as large as fit 30% of the screen's width and its
    /// height; the 3D view takes the rest of the screen's width.
    pub fn build(self) -> (c: RayCaster)
        requires
            self.spec_caster().wf(),
            self.spec_caster().spec_screen().0 >= 0,
            self.spec_caster().spec_screen().1 >= 0,
            self.spec_caster().spec_screen().0 * 30 <= i32::MAX,
        ensures
            ({
                let (sw, sh) = self.spec_caster().spec_screen();
                let (mw, mh) = self.spec_caster().spec_map_size();
                let side = if (sw * 30 / 100) / (mw as int) <= (sh as int) / (mh as int) {
                    (sw * 30 / 100) / (mw as int)
                } else {
                    (sh as int) / (mh as int)
                };
                &&& c.wf()
                &&& c.spec_layout() == (side as i32, (side * mw + 2) as i32, self.spec_caster().spec_layout().2, (sw - (side * mw + 2)) as i32, sh)
                &&& c.spec_map() == self.spec_caster().spec_map()
                &&& c.spec_map_size() == (mw, mh)
                &&& c.spec_screen() == (sw, sh)
                &&& c.spec_start() == self.spec_caster().spec_start()
                &&& c.spec_keys() == self.spec_caster().spec_keys()
            }),
    {
        let mut rc = self.0;
        let sw30 = rc.scr_width * MINI_MAP_WIDTH_PERCENT / 100;
        let w = sw30 / rc.map_width;
        let h = rc.scr_height / rc.map_height;
        assert(w == (rc.scr_width * 30 / 100) / (rc.map_width as int));
        assert(h == (rc.scr_height as int) / (rc.map_height as int));
        rc.mini_map_side = if w <= h {
            w
        } else {
            h
        };
        assert(rc.mini_map_side * rc.map_width <= rc.scr_width * 30 / 100) by (nonlinear_arith)
            requires
                rc.mini_map_side <= (rc.scr_width * 30 / 100) / (rc.map_width as int),
                rc.map_width > 0,
                rc.mini_map_side >= 0,
                rc.scr_width >= 0,
        ;
        rc.view_x = rc.mini_map_side * rc.map_width + 2;
        rc.view_width = rc.scr_width - rc.view_x;
        rc.view_height = rc.scr_height;
        assert(rc.wf());
        assert(rc.mini_map_side as int == if w <= h { w as int } else { h as int });
        rc
    }
}

/// The cells of a prefix of a map string are a prefix of its cells.
proof fn lemma_cells_prefix(s: Seq<char>, k: int)
    requires
        0 <= k <= s.len(),
    ensures
        map_cells(s.take(k)).len() <= map_cells(s).len(),
        map_cells(s).take(map_cells(s.take(k)).len() as int) == map_cells(s.take(k)),
    decreases s.len(),
{
    if k < s.len() {
        lemma_cells_prefix(s.drop_last(), k);
        assert(s.drop_last().take(k) == s.take(k));
        let p = map_cells(s.drop_last());
        let n = map_cells(s.take(k)).len() as int;
        if is_map_char(s.last()) {
            assert(p.push(s.last()).take(n) == p.take(n));
        }
    } else {
        assert(s.take(k) == s);
    }
}

} // verus!
