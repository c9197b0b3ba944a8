//! The integer rules of an active level: the colors of the automap, the
//! sides and sectors of a line, the player's start, clamped movement.
use super::actors::Thing;
use super::lump_bytes::{bytes_as_slice, bytes_len};
use super::map::{vertex_at, MapData};
use super::map_items::{i16_at, name_key_at, sub_slice, u16_at, LineDef, Sector, SideDef};
use crate::raycasting::painter::RGB;
use vstd::prelude::*;

verus! {

/// Line flag: the line blocks movement.
pub const LINE_BLOCKS: u16 = 0x0001;

/// Line flag: the line has a sector on both sides.
pub const LINE_TWO_SIDED: u16 = 0x0004;

/// Line flag: the line is a secret.
pub const LINE_SECRET: u16 = 0x0020;

/// Line flag: the line never shows on the automap.
pub const LINE_NEVER_ON_AMAP: u16 = 0x0080;

/// Line flag: the line always shows on the automap.
pub const LINE_ALWAYS_ON_AMAP: u16 = 0x0100;

/// The side index that marks a missing side.
pub const NO_SIDE: u16 = 0xFFFF;

pub open spec fn black() -> RGB {
    RGB { r: 0, g: 0, b: 0 }
}

pub open spec fn white() -> RGB {
    RGB { r: 255, g: 255, b: 255 }
}

pub open spec fn red() -> RGB {
    RGB { r: 160, g: 0, b: 0 }
}

pub open spec fn blue() -> RGB {
    RGB { r: 0, g: 0, b: 160 }
}

pub open spec fn cyan() -> RGB {
    RGB { r: 0, g: 160, b: 160 }
}

pub open spec fn yellow() -> RGB {
    RGB { r: 160, g: 160, b: 0 }
}

pub open spec fn choco() -> RGB {
    RGB { r: 192, g: 128, b: 64 }
}

pub open spec fn pink() -> RGB {
    RGB { r: 255, g: 0, b: 255 }
}

/// Side definition `idx` of a SIDEDEFS lump (30 bytes each).
pub open spec fn sidedef_at(s: Seq<u8>, idx: int) -> SideDef {
    let b = s.subrange(30 * idx, 30 * idx + 30);
    SideDef {
        x_offset: i16_at(b, 0) as i16,
        y_offset: i16_at(b, 2) as i16,
        upper_texture_key: name_key_at(b, 4),
        lower_texture_key: name_key_at(b, 12),
        middle_texture_key: name_key_at(b, 20),
        sector_idx: u16_at(b, 28) as u16,
    }
}

/// Sector `idx` of a SECTORS lump (26 bytes each).
pub open spec fn sector_at(s: Seq<u8>, idx: int) -> Sector {
    let b = s.subrange(26 * idx, 26 * idx + 26);
    Sector {
        floor_height: i16_at(b, 0) as i16,
        ceiling_height: i16_at(b, 2) as i16,
        floor_flat_key: name_key_at(b, 4),
        ceiling_flat_key: name_key_at(b, 12),
        light_level: u16_at(b, 20) as u16,
        special_type: u16_at(b, 22) as u16,
        tag_nr: u16_at(b, 24) as u16,
    }
}

/// Side `idx` of the map, and the sector it faces, are in their lumps.
pub open spec fn side_in_map(map: MapData, idx: int) -> bool {
    &&& 30 * idx + 30 <= map.spec_lump(2).len()
    &&& 26 * sidedef_at(map.spec_lump(2), idx).sector_idx + 26 <= map.spec_lump(7).len()
}

/// The sides of a line are consistent with the map: it has a left side,
/// a right side exactly when it is two-sided, and each is in the map.
pub open spec fn line_sides_ok(map: MapData, line: LineDef) -> bool {
    &&& line.left_sidedef_idx != NO_SIDE
    &&& side_in_map(map, line.left_sidedef_idx as int)
    &&& ((line.flags & LINE_TWO_SIDED) != 0) == (line.right_sidedef_idx != NO_SIDE)
    &&& line.right_sidedef_idx != NO_SIDE ==> side_in_map(map, line.right_sidedef_idx as int)
}

/// The side and sector of side `idx` of the map.
pub open spec fn side_and_sector(map: MapData, idx: int) -> (SideDef, Sector) {
    let side = sidedef_at(map.spec_lump(2), idx);
    (side, sector_at(map.spec_lump(7), side.sector_idx as int))
}

/// The sides of a line and the sectors that they face.
pub struct LineDefDetails {
    pub right_sidedef: Option<SideDef>,
    pub right_sector: Option<Sector>,
    pub left_sidedef: Option<SideDef>,
    pub left_sector: Option<Sector>,
}

/// The color of a line on the automap, where the two sectors of a two-sided
/// line differ in floor (`floors_differ`) or ceiling height.
pub open spec fn automap_color(line: LineDef, floors_differ: bool, ceilings_differ: bool) -> RGB {
    let f = line.flags;
    if f & LINE_SECRET != 0 {
        cyan()
    } else if line.line_type != 0 {
        blue()
    } else if f & LINE_ALWAYS_ON_AMAP != 0 {
        white()
    } else if f & LINE_NEVER_ON_AMAP != 0 {
        black()
    } else if f & LINE_TWO_SIDED != 0 {
        if floors_differ {
            choco()
        } else if ceilings_differ {
            yellow()
        } else {
            black()
        }
    } else if f & LINE_BLOCKS != 0 {
        red()
    } else {
        pink()
    }
}

/// The color decides from the sectors of the line: it is two-sided and
/// none of the flags or the type that come first decide.
pub open spec fn color_needs_sectors(line: LineDef) -> bool {
    &&& line.flags & LINE_SECRET == 0
    &&& line.line_type == 0
    &&& line.flags & LINE_ALWAYS_ON_AMAP == 0
    &&& line.flags & LINE_NEVER_ON_AMAP == 0
    &&& line.flags & LINE_TWO_SIDED != 0
}

/// Side `idx` of the map and the sector it faces.
fn side_and_sector_of(map: &MapData, idx: u16) -> (r: (SideDef, Sector))
    requires
        side_in_map(*map, idx as int),
    ensures
        r == side_and_sector(*map, idx as int),
{
    let sides = bytes_as_slice(map.sidedefs());
    let start: usize = 30 * (idx as usize);
    let side = SideDef::from_lump(sub_slice(sides, start, start + 30));
    let sectors = bytes_as_slice(map.sectors());
    let sstart: usize = 26 * (side.sector_idx as usize);
    let sect = Sector::from_lump(sub_slice(sectors, sstart, sstart + 26));
    (side, sect)
}

/// Whether side `idx` of the map, and the sector it faces, are in their lumps.
fn side_in_map_check(map: &MapData, idx: u16) -> (b: bool)
    ensures
        b == side_in_map(*map, idx as int),
{
    let sides = bytes_as_slice(map.sidedefs());
    let slen: usize = bytes_len(map.sidedefs());
    let start: usize = 30 * (idx as usize);
    if slen < 30 || start > slen - 30 {
        return false;
    }
    let side = SideDef::from_lump(sub_slice(sides, start, start + 30));
    let clen: usize = bytes_len(map.sectors());
    let sstart: usize = 26 * (side.sector_idx as usize);
    clen >= 26 && sstart <= clen - 26
}

/// Whether the sides of a line are consistent with the map (what
/// [`get_line_details`] needs).
pub fn line_sides_valid(map: &MapData, line: &LineDef) -> (b: bool)
    ensures
        b == line_sides_ok(*map, *line),
{
    if line.left_sidedef_idx == NO_SIDE || !side_in_map_check(map, line.left_sidedef_idx) {
        return false;
    }
    if ((line.flags & LINE_TWO_SIDED) != 0) != (line.right_sidedef_idx != NO_SIDE) {
        return false;
    }
    line.right_sidedef_idx == NO_SIDE || side_in_map_check(map, line.right_sidedef_idx)
}

/// Whether picking the automap color of a line needs its sectors.
pub fn color_needs_sectors_check(line: &LineDef) -> (b: bool)
    ensures
        b == color_needs_sectors(*line),
{
    line.flags & LINE_SECRET == 0 && line.line_type == 0 && line.flags & LINE_ALWAYS_ON_AMAP == 0 && line.flags
        & LINE_NEVER_ON_AMAP == 0 && line.flags & LINE_TWO_SIDED != 0
}

/// The sides of a line and the sectors they face; a missing side
/// (`0xFFFF`) has none.
pub fn get_line_details(map: &MapData, linedef: &LineDef) -> (d: LineDefDetails)
    requires
        line_sides_ok(*map, *linedef),
    ensures
        d.left_sidedef == Some(side_and_sector(*map, linedef.left_sidedef_idx as int).0),
        d.left_sector == Some(side_and_sector(*map, linedef.left_sidedef_idx as int).1),
        linedef.right_sidedef_idx == NO_SIDE ==> d.right_sidedef is None && d.right_sector is None,
        linedef.right_sidedef_idx != NO_SIDE ==> d.right_sidedef == Some(
            side_and_sector(*map, linedef.right_sidedef_idx as int).0,
        ) && d.right_sector == Some(side_and_sector(*map, linedef.right_sidedef_idx as int).1),
{
    let (ls, lsec) = side_and_sector_of(map, linedef.left_sidedef_idx);
    let mut details = LineDefDetails {
        left_sidedef: Some(ls),
        left_sector: Some(lsec),
        right_sidedef: None,
        right_sector: None,
    };
    if linedef.right_sidedef_idx != NO_SIDE {
        let (rs, rsec) = side_and_sector_of(map, linedef.right_sidedef_idx);
        details.right_sidedef = Some(rs);
        details.right_sector = Some(rsec);
    }
    details
}

/// The color of a line on the automap (black: the line is not drawn).
pub fn pick_automap_line_color(map: &MapData, line: &LineDef) -> (c: RGB)
    requires
        color_needs_sectors(*line) ==> line_sides_ok(*map, *line),
    ensures
        c == automap_color(
            *line,
            side_and_sector(*map, line.left_sidedef_idx as int).1.floor_height
                != side_and_sector(*map, line.right_sidedef_idx as int).1.floor_height,
            side_and_sector(*map, line.left_sidedef_idx as int).1.ceiling_height
                != side_and_sector(*map, line.right_sidedef_idx as int).1.ceiling_height,
        ),
{
    let f = line.flags;
    if f & LINE_SECRET != 0 {
        return RGB { r: 0, g: 160, b: 160 };
    }
    if line.line_type != 0 {
        return RGB { r: 0, g: 0, b: 160 };
    }
    if f & LINE_ALWAYS_ON_AMAP != 0 {
        return RGB { r: 255, g: 255, b: 255 };
    }
    if f & LINE_NEVER_ON_AMAP != 0 {
        return RGB { r: 0, g: 0, b: 0 };
    }
    if f & LINE_TWO_SIDED != 0 {
        let details = get_line_details(map, line);
        let s1 = details.left_sector.unwrap();
        let s2 = details.right_sector.unwrap();
        return if s1.floor_height != s2.floor_height {
            RGB { r: 192, g: 128, b: 64 }
        } else if s1.ceiling_height != s2.ceiling_height {
            RGB { r: 160, g: 160, b: 0 }
        } else {
            RGB { r: 0, g: 0, b: 0 }
        };
    }
    if f & LINE_BLOCKS != 0 {
        return RGB { r: 160, g: 0, b: 0 };
    }
    RGB { r: 255, g: 0, b: 255 }
}

/// The index of the first thing at or after `i` (of `n`) whose type code
/// is 1, the player's start; `n` if none is.
pub open spec fn player_index_from(things: Seq<u8>, i: int, n: int) -> int
    decreases n - i,
{
    if i >= n {
        n
    } else if u16_at(things, 10 * i + 6) == 1 {
        i
    } else {
        player_index_from(things, i + 1, n)
    }
}

/// The player's start: the first thing of the map whose type code is 1
/// (things are 10 bytes each); `None` if the map has none.
pub fn find_player_thing(map_data: &MapData) -> (t: Option<Thing>)
    ensures
        ({
            let things = map_data.spec_lump(0);
            let n = things.len() / 10;
            let k = player_index_from(things, 0, n as int);
            match t {
                Some(th) => k < n && th.spec_pos() == (i16_at(things, 10 * k), i16_at(things, 10 * k + 2))
                    && th.spec_attrs() == (i16_at(things, 10 * k + 4), 1int, u16_at(things, 10 * k + 8)),
                None => k == n,
            }
        }),
{
    let lump = map_data.things();
    let things = bytes_as_slice(lump);
    let len: usize = bytes_len(lump);
    let n: usize = len / 10;
    let ghost s = things@;
    let mut idx: usize = 0;
    while idx < n
        invariant
            s == things@,
            s == map_data.spec_lump(0),
            len == s.len(),
            n == s.len() / 10,
            idx <= n,
            player_index_from(s, idx as int, n as int) == player_index_from(s, 0, n as int),
        decreases n - idx,
    {
        let th = Thing::new(sub_slice(things, 10 * idx, 10 * idx + 10));
        if th.type_code() == 1 {
            return Some(th);
        }
        idx = idx + 1;
    }
    None
}

/// A value kept between `min` and `max`, and whether it had to be moved.
pub fn clamp_value(val: i32, min: i32, max: i32) -> (r: (i32, bool))
    ensures
        r == if val < min {
            (min, true)
        } else if val > max {
            (max, true)
        } else {
            (val, false)
        },
{
    if val < min {
        (min, true)
    } else if val > max {
        (max, true)
    } else {
        (val, false)
    }
}

/// The extent of the map: the smallest and largest x, then y, of its
/// vertices; `None` for a map without vertices.
pub open spec fn bounds_ok(l: Seq<u8>, b: (i32, i32, i32, i32)) -> bool {
    let n = l.len() / 4;
    &&& forall|i: int|
        0 <= i < n ==> b.0 <= #[trigger] vertex_at(l, i).x <= b.1 && b.2 <= vertex_at(l, i).y <= b.3
    &&& exists|i: int| 0 <= i < n && #[trigger] vertex_at(l, i).x == b.0
    &&& exists|i: int| 0 <= i < n && #[trigger] vertex_at(l, i).x == b.1
    &&& exists|i: int| 0 <= i < n && #[trigger] vertex_at(l, i).y == b.2
    &&& exists|i: int| 0 <= i < n && #[trigger] vertex_at(l, i).y == b.3
}

/// The smallest and largest x and y of the map's vertices.
pub fn vertex_bounds(map: &MapData) -> (r: Option<(i32, i32, i32, i32)>)
    ensures
        match r {
            Some(b) => bounds_ok(map.spec_lump(3), b),
            None => map.spec_lump(3).len() / 4 == 0,
        },
{
    let n = map.vertex_count();
    if n == 0 {
        return None;
    }
    let ghost l = map.spec_lump(3);
    let v0 = map.vertex(0);
    let mut b: (i32, i32, i32, i32) = (v0.x, v0.x, v0.y, v0.y);
    let mut i: usize = 1;
    while i < n
        invariant
            l == map.spec_lump(3),
            n == l.len() / 4,
            1 <= i <= n,
            forall|k: int|
                0 <= k < i ==> b.0 <= #[trigger] vertex_at(l, k).x <= b.1 && b.2 <= vertex_at(l, k).y <= b.3,
            exists|k: int| 0 <= k < i && #[trigger] vertex_at(l, k).x == b.0,
            exists|k: int| 0 <= k < i && #[trigger] vertex_at(l, k).x == b.1,
            exists|k: int| 0 <= k < i && #[trigger] vertex_at(l, k).y == b.2,
            exists|k: int| 0 <= k < i && #[trigger] vertex_at(l, k).y == b.3,
        decreases n - i,
    {
        let v = map.vertex(i);
        assert(v == vertex_at(l, i as int));
        if v.x < b.0 {
            b.0 = v.x;
        }
        if v.x > b.1 {
            b.1 = v.x;
        }
        if v.y < b.2 {
            b.2 = v.y;
        }
        if v.y > b.3 {
            b.3 = v.y;
        }
        assert(b.0 <= vertex_at(l, i as int).x <= b.1 && b.2 <= vertex_at(l, i as int).y <= b.3);
        i = i + 1;
    }
    Some(b)
}


/// The automap colors of lines: a secret line is cyan, a line with a special
/// type blue, then a line always on the automap white and one never on it
/// black. Past these, a two-sided line is colored by the heights of its two
/// sectors only (chocolate where the floors differ, else yellow where the
/// ceilings differ, else black), whether or not it also blocks; a one-sided
/// line is red where it blocks, pink otherwise.
pub proof fn lemma_automap_color_rules(line: LineDef, floors_differ: bool, ceilings_differ: bool)
    ensures
        line.flags & LINE_SECRET != 0 ==> automap_color(line, floors_differ, ceilings_differ) == (RGB {
            r: 0,
            g: 160,
            b: 160,
        }),
        line.flags & LINE_SECRET == 0 && line.line_type != 0 ==> automap_color(line, floors_differ, ceilings_differ)
            == (RGB { r: 0, g: 0, b: 160 }),
        color_needs_sectors(line) ==> automap_color(line, floors_differ, ceilings_differ) == if floors_differ {
            RGB { r: 192, g: 128, b: 64 }
        } else if ceilings_differ {
            RGB { r: 160, g: 160, b: 0 }
        } else {
            RGB { r: 0, g: 0, b: 0 }
        },
        line.flags & LINE_TWO_SIDED != 0 ==> automap_color(line, floors_differ, ceilings_differ) == automap_color(
            LineDef { flags: line.flags ^ LINE_BLOCKS, ..line },
            floors_differ,
            ceilings_differ,
        ),
        line.flags & (LINE_SECRET | LINE_ALWAYS_ON_AMAP | LINE_NEVER_ON_AMAP | LINE_TWO_SIDED) == 0 && line.line_type
            == 0 ==> automap_color(line, floors_differ, ceilings_differ) == if line.flags & LINE_BLOCKS != 0 {
            RGB { r: 160, g: 0, b: 0 }
        } else {
            RGB { r: 255, g: 0, b: 255 }
        },
{
    let f = line.flags;
    let g = f ^ LINE_BLOCKS;
    assert(g & LINE_SECRET == f & LINE_SECRET && g & LINE_ALWAYS_ON_AMAP == f & LINE_ALWAYS_ON_AMAP
        && g & LINE_NEVER_ON_AMAP == f & LINE_NEVER_ON_AMAP && g & LINE_TWO_SIDED == f & LINE_TWO_SIDED
        && (f & (LINE_SECRET | LINE_ALWAYS_ON_AMAP | LINE_NEVER_ON_AMAP | LINE_TWO_SIDED) == 0 ==> f & LINE_SECRET == 0
        && f & LINE_ALWAYS_ON_AMAP == 0 && f & LINE_NEVER_ON_AMAP == 0 && f & LINE_TWO_SIDED == 0)) by (bit_vector)
        requires
            g == f ^ LINE_BLOCKS,
    ;
}

} // verus!
