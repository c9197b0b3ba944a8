use bytes::Bytes;
use rusty_games::raycasting::painter::RGB;
use rusty_games::rustoom::level::{
    clamp_value, color_needs_sectors_check, vertex_bounds, find_player_thing, get_line_details, line_sides_valid,
    pick_automap_line_color, LINE_ALWAYS_ON_AMAP, LINE_BLOCKS,
    LINE_NEVER_ON_AMAP, LINE_SECRET, LINE_TWO_SIDED, NO_SIDE,
};
use rusty_games::rustoom::map::MapData;
use rusty_games::rustoom::map_items::{LineDef, Vertex};

fn side(sector: u16) -> Vec<u8> {
    let mut b = vec![0u8; 28];
    b[4..8].copy_from_slice(b"WALL");
    b.extend_from_slice(&sector.to_le_bytes());
    b
}

fn sector(floor: i16, ceiling: i16) -> Vec<u8> {
    let mut b = Vec::new();
    b.extend_from_slice(&floor.to_le_bytes());
    b.extend_from_slice(&ceiling.to_le_bytes());
    b.extend_from_slice(&[0u8; 22]);
    b
}

fn thing(x: i16, y: i16, angle: i16, kind: u16) -> Vec<u8> {
    let mut b = Vec::new();
    for v in [x, y, angle] {
        b.extend_from_slice(&v.to_le_bytes());
    }
    b.extend_from_slice(&kind.to_le_bytes());
    b.extend_from_slice(&7u16.to_le_bytes());
    b
}

fn level_map(things: Vec<u8>) -> MapData {
    level_map_with(things, vec![0; 8])
}

fn level_map_with(things: Vec<u8>, vertexes: Vec<u8>) -> MapData {
    let mut map = MapData::new("E1M2");
    let sides = [side(0), side(1), side(2)].concat();
    let sectors = [sector(0, 128), sector(0, 96), sector(24, 128)].concat();
    let lumps: Vec<(&str, Vec<u8>)> = vec![
        ("THINGS", things),
        ("LINEDEFS", vec![0; 14]),
        ("SIDEDEFS", sides),
        ("VERTEXES", vertexes),
        ("SEGS", vec![]),
        ("SSECTORS", vec![]),
        ("NODES", vec![]),
        ("SECTORS", sectors),
        ("REJECT", vec![]),
        ("BLOCKMAP", vec![]),
    ];
    for (name, bytes) in lumps {
        assert!(map.add_lump(name, &Bytes::from(bytes)));
    }
    map
}

fn line(flags: u16, line_type: u16, right: u16, left: u16) -> LineDef {
    LineDef {
        v1: Vertex { x: 0, y: 0 },
        v2: Vertex { x: 1, y: 1 },
        flags,
        line_type,
        sector_tag: 0,
        right_sidedef_idx: right,
        left_sidedef_idx: left,
    }
}

#[test]
fn line_details_follow_the_sides() {
    let map = level_map(vec![]);
    let d = get_line_details(&map, &line(LINE_TWO_SIDED, 0, 1, 0));
    assert_eq!(0, d.left_sidedef.as_ref().unwrap().sector_idx);
    assert_eq!(128, d.left_sector.as_ref().unwrap().ceiling_height);
    assert_eq!(1, d.right_sidedef.as_ref().unwrap().sector_idx);
    assert_eq!(96, d.right_sector.as_ref().unwrap().ceiling_height);
    let d = get_line_details(&map, &line(LINE_BLOCKS, 0, NO_SIDE, 2));
    assert_eq!(24, d.left_sector.as_ref().unwrap().floor_height);
    assert!(d.right_sidedef.is_none());
    assert!(d.right_sector.is_none());
}

#[test]
fn automap_colors_follow_flags_and_heights() {
    let map = level_map(vec![]);
    let cyan = RGB { r: 0, g: 160, b: 160 };
    assert_eq!(cyan, pick_automap_line_color(&map, &line(LINE_SECRET | LINE_TWO_SIDED, 9, 1, 0)));
    assert_eq!(RGB { r: 0, g: 0, b: 160 }, pick_automap_line_color(&map, &line(LINE_BLOCKS, 9, NO_SIDE, 0)));
    assert_eq!(RGB { r: 255, g: 255, b: 255 }, pick_automap_line_color(&map, &line(LINE_ALWAYS_ON_AMAP | LINE_NEVER_ON_AMAP, 0, NO_SIDE, 0)));
    assert_eq!(RGB { r: 0, g: 0, b: 0 }, pick_automap_line_color(&map, &line(LINE_NEVER_ON_AMAP, 0, NO_SIDE, 0)));
    assert_eq!(RGB { r: 160, g: 160, b: 0 }, pick_automap_line_color(&map, &line(LINE_TWO_SIDED, 0, 1, 0)));
    assert_eq!(RGB { r: 192, g: 128, b: 64 }, pick_automap_line_color(&map, &line(LINE_TWO_SIDED, 0, 2, 0)));
    assert_eq!(RGB { r: 0, g: 0, b: 0 }, pick_automap_line_color(&map, &line(LINE_TWO_SIDED, 0, 0, 0)));
    assert_eq!(RGB { r: 160, g: 0, b: 0 }, pick_automap_line_color(&map, &line(LINE_BLOCKS, 0, NO_SIDE, 0)));
    assert_eq!(RGB { r: 255, g: 0, b: 255 }, pick_automap_line_color(&map, &line(0, 0, NO_SIDE, 0)));
}

#[test]
fn the_player_starts_at_the_first_type_one_thing() {
    let things = [thing(5, 5, 0, 3004), thing(100, -200, 90, 1), thing(7, 7, 0, 1)].concat();
    let map = level_map(things);
    let p = find_player_thing(&map).unwrap();
    assert_eq!(Vertex { x: 100, y: -200 }, p.pos());
    assert_eq!(90, p.angle);
    assert_eq!(1, p.type_code());
    assert_eq!(7, p.flags);
    let map = level_map(thing(5, 5, 0, 3004));
    assert!(find_player_thing(&map).is_none());
}

#[test]
fn values_are_clamped_and_the_clamp_is_reported() {
    assert_eq!((-10, true), clamp_value(-50, -10, 10));
    assert_eq!((10, true), clamp_value(11, -10, 10));
    assert_eq!((3, false), clamp_value(3, -10, 10));
    assert_eq!((10, false), clamp_value(10, -10, 10));
}

#[test]
fn line_sides_are_checked_against_the_map() {
    let map = level_map(vec![]);
    assert!(line_sides_valid(&map, &line(LINE_TWO_SIDED, 0, 1, 0)));
    assert!(line_sides_valid(&map, &line(LINE_BLOCKS, 0, NO_SIDE, 2)));
    assert!(!line_sides_valid(&map, &line(LINE_BLOCKS, 0, NO_SIDE, NO_SIDE)));
    assert!(!line_sides_valid(&map, &line(LINE_TWO_SIDED, 0, NO_SIDE, 0)));
    assert!(!line_sides_valid(&map, &line(LINE_BLOCKS, 0, 1, 0)));
    assert!(!line_sides_valid(&map, &line(LINE_BLOCKS, 0, NO_SIDE, 3)));
    assert!(color_needs_sectors_check(&line(LINE_TWO_SIDED, 0, 1, 0)));
    assert!(!color_needs_sectors_check(&line(LINE_TWO_SIDED | LINE_SECRET, 0, 1, 0)));
    assert!(!color_needs_sectors_check(&line(LINE_TWO_SIDED, 4, 1, 0)));
    assert!(!color_needs_sectors_check(&line(LINE_BLOCKS, 0, NO_SIDE, 0)));
}

#[test]
fn the_map_extent_spans_its_vertices() {
    let mut v = Vec::new();
    for c in [-5i16, 7, 3, -2, 12, 4] {
        v.extend_from_slice(&c.to_le_bytes());
    }
    assert_eq!(Some((-5, 12, -2, 7)), vertex_bounds(&level_map_with(vec![], v)));
    assert_eq!(Some((0, 0, 0, 0)), vertex_bounds(&level_map(vec![])));
    assert_eq!(None, vertex_bounds(&level_map_with(vec![], vec![1, 2, 3])));
}
