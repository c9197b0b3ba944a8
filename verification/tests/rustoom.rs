use bytes::Bytes;
use rusty_games::raycasting::painter::RGB;
use rusty_games::rustoom::actors::Thing;
use rusty_games::rustoom::bsp::BspTree;
use rusty_games::rustoom::font::{Font, FontColorMapper};
use rusty_games::rustoom::game::{AutomapMove, DoomControls, DoomEvent, DoomKey, KEY_AUTOMAP, KEY_AUTOMAP_ACTED, KEY_MOVE_FWD, KEY_SHOOT, KEY_USE};
use rusty_games::rustoom::game_initializer::{
    is_ascii_digit, is_font_name, is_map_name, is_texture_name, quick_check_if_lump_is_graphic, DoomGameData,
};
use rusty_games::rustoom::gfx::{Color, Gfx};
use rusty_games::rustoom::gfxhandler::{is_texture_lump, GraphicsHandler};
use rusty_games::rustoom::graphics::Graphics;
use rusty_games::rustoom::map::MapData;
use rusty_games::rustoom::map_items::{BspNode, LineDef, Sector, SideDef, Vertex};
use rusty_games::rustoom::palette::{ColorMapper, Palette};
use rusty_games::rustoom::pixmap::PixMap;
use rusty_games::rustoom::texture::TextureSet;
use rusty_games::rustoom::utils::{atoi, buf_to_i16, buf_to_u16, buf_to_u32, hash_lump_name, lump_name_from_hash};
use rusty_games::rustoom::wad::{LumpData, WadData, WadKind};
use std::rc::Rc;

fn name8(name: &str) -> [u8; 8] {
    let mut n = [0u8; 8];
    for (i, b) in name.bytes().enumerate() {
        n[i] = b;
    }
    n
}

/// A WAD file: header, lump data, then the directory.
fn wad_file(kind: &[u8; 4], lumps: &[(&str, Vec<u8>)]) -> Vec<u8> {
    let mut data: Vec<u8> = Vec::new();
    let mut dir: Vec<u8> = Vec::new();
    let mut ofs = 12u32;
    for (name, bytes) in lumps {
        dir.extend_from_slice(&ofs.to_le_bytes());
        dir.extend_from_slice(&(bytes.len() as u32).to_le_bytes());
        dir.extend_from_slice(&name8(name));
        data.extend_from_slice(bytes);
        ofs += bytes.len() as u32;
    }
    let mut file = Vec::new();
    file.extend_from_slice(kind);
    file.extend_from_slice(&(lumps.len() as u32).to_le_bytes());
    file.extend_from_slice(&ofs.to_le_bytes());
    file.extend_from_slice(&data);
    file.extend_from_slice(&dir);
    file
}

/// A 1 x 1 patch whose only column is empty.
fn tiny_patch() -> Vec<u8> {
    vec![1, 0, 1, 0, 0, 0, 0, 0, 12, 0, 0, 0, 0xFF]
}

fn texture_lump(name: &str, width: u16, height: u16, patch_idx: u16) -> Vec<u8> {
    let mut t = Vec::new();
    t.extend_from_slice(&1u32.to_le_bytes());
    t.extend_from_slice(&8u32.to_le_bytes());
    t.extend_from_slice(&name8(name));
    t.extend_from_slice(&[0, 0, 0, 0]);
    t.extend_from_slice(&width.to_le_bytes());
    t.extend_from_slice(&height.to_le_bytes());
    t.extend_from_slice(&[0, 0, 0, 0]);
    t.extend_from_slice(&1u16.to_le_bytes());
    t.extend_from_slice(&3i16.to_le_bytes());
    t.extend_from_slice(&(-2i16).to_le_bytes());
    t.extend_from_slice(&patch_idx.to_le_bytes());
    t.extend_from_slice(&[0, 0, 0, 0]);
    t
}

fn pnames_lump(names: &[&str]) -> Vec<u8> {
    let mut p = Vec::new();
    p.extend_from_slice(&(names.len() as u32).to_le_bytes());
    for n in names {
        p.extend_from_slice(&name8(n));
    }
    p
}

#[test]
fn utils_read_little_endian_numbers() {
    assert_eq!(0x1234, buf_to_u16(&[0x34, 0x12]));
    assert_eq!(-1, buf_to_i16(&[0xFF, 0xFF]));
    assert_eq!(-32768, buf_to_i16(&[0x00, 0x80]));
    assert_eq!(0x12345678, buf_to_u32(&[0x78, 0x56, 0x34, 0x12, 0x99]));
}

#[test]
fn lump_names_hash_and_come_back() {
    let key = hash_lump_name(b"ABC");
    assert_eq!(1 * 4096 + 2 * 64 + 3, key);
    assert_eq!(key, hash_lump_name(b"ABC\0\0\0\0\0"));
    assert_eq!("ABC", lump_name_from_hash(key));
    assert_eq!("E1M1", lump_name_from_hash(hash_lump_name(b"E1M1")));
    assert_eq!("STCFN033", lump_name_from_hash(hash_lump_name(b"STCFN033")));
    assert_eq!("", lump_name_from_hash(0));
}

#[test]
fn atoi_reads_digits_only() {
    assert_eq!(Some(123), atoi("123"));
    assert_eq!(Some(0), atoi(""));
    assert_eq!(None, atoi("12a"));
    assert_eq!(None, atoi("-1"));
}

#[test]
fn vertices_add_subtract_and_scale() {
    let a = Vertex { x: 5, y: -7 };
    let b = Vertex { x: 1, y: 2 };
    assert_eq!(Vertex { x: 6, y: -5 }, a + b);
    assert_eq!(Vertex { x: 4, y: -9 }, a - b);
    assert_eq!(Vertex { x: -7, y: 10 }, a.scale(3, -2));
    assert_eq!(Vertex { x: 2, y: -3 }, a.scale(1, 2));
}

#[test]
fn map_items_read_their_lumps() {
    let mut side = Vec::new();
    side.extend_from_slice(&(-3i16).to_le_bytes());
    side.extend_from_slice(&4i16.to_le_bytes());
    side.extend_from_slice(&name8("UP"));
    side.extend_from_slice(&name8("-"));
    side.extend_from_slice(&name8("MID"));
    side.extend_from_slice(&7u16.to_le_bytes());
    let s = SideDef::from_lump(&side);
    assert_eq!(-3, s.x_offset);
    assert_eq!(4, s.y_offset);
    assert_eq!(hash_lump_name(b"UP"), s.upper_texture_key);
    assert_eq!(hash_lump_name(b"-"), s.lower_texture_key);
    assert_eq!(hash_lump_name(b"MID"), s.middle_texture_key);
    assert_eq!(7, s.sector_idx);

    let mut sect = Vec::new();
    sect.extend_from_slice(&(-16i16).to_le_bytes());
    sect.extend_from_slice(&128i16.to_le_bytes());
    sect.extend_from_slice(&name8("FLOOR"));
    sect.extend_from_slice(&name8("CEIL"));
    sect.extend_from_slice(&160u16.to_le_bytes());
    sect.extend_from_slice(&9u16.to_le_bytes());
    sect.extend_from_slice(&2u16.to_le_bytes());
    let s = Sector::from_lump(&sect);
    assert_eq!(-16, s.floor_height);
    assert_eq!(128, s.ceiling_height);
    assert_eq!(hash_lump_name(b"FLOOR"), s.floor_flat_key);
    assert_eq!(hash_lump_name(b"CEIL"), s.ceiling_flat_key);
    assert_eq!((160, 9, 2), (s.light_level, s.special_type, s.tag_nr));
}

fn node_bytes(orig: (i16, i16), dir: (i16, i16), right: u16, left: u16) -> Vec<u8> {
    let mut n = Vec::new();
    for v in [orig.0, orig.1, dir.0, dir.1, 5, -5, 3, -3, 9, 1, 2, 8] {
        n.extend_from_slice(&v.to_le_bytes());
    }
    n.extend_from_slice(&right.to_le_bytes());
    n.extend_from_slice(&left.to_le_bytes());
    n
}

#[test]
fn bsp_nodes_tell_the_side_of_a_point() {
    let node = BspNode::from_lump(&node_bytes((0, 0), (0, 10), 0x8000, 0x8001));
    assert_eq!(0x8000, node.right_child);
    assert_eq!(0x8001, node.left_child);
    assert!(!node.is_point_on_left(Vertex { x: 5, y: 5 }));
    assert!(node.is_point_on_left(Vertex { x: -5, y: 5 }));
    assert!(node.is_point_on_left(Vertex { x: 0, y: 3 }));
}

fn test_map() -> MapData {
    let mut map = MapData::new("E1M1");
    let mut verts = Vec::new();
    for v in [0i16, 0, 10, 0, 10, 10] {
        verts.extend_from_slice(&v.to_le_bytes());
    }
    let mut segs = Vec::new();
    for (s, e) in [(0i16, 1i16), (1, 2)] {
        segs.extend_from_slice(&s.to_le_bytes());
        segs.extend_from_slice(&e.to_le_bytes());
        segs.extend_from_slice(&[0, 0, 0, 0, 0, 0, 0, 0]);
    }
    let mut ssectors = Vec::new();
    for (cnt, first) in [(1u16, 0u16), (1, 1)] {
        ssectors.extend_from_slice(&cnt.to_le_bytes());
        ssectors.extend_from_slice(&first.to_le_bytes());
    }
    let mut linedef = Vec::new();
    for v in [0u16, 2, 1, 0, 0, 0, 0xFFFF] {
        linedef.extend_from_slice(&v.to_le_bytes());
    }
    let lumps: Vec<(&str, Vec<u8>)> = vec![
        ("THINGS", vec![1; 10]),
        ("LINEDEFS", linedef),
        ("SIDEDEFS", vec![0; 30]),
        ("VERTEXES", verts),
        ("SEGS", segs),
        ("SSECTORS", ssectors),
        ("NODES", node_bytes((0, 0), (0, 10), 0x8000, 0x8001)),
        ("SECTORS", vec![0; 26]),
        ("REJECT", vec![0; 1]),
        ("BLOCKMAP", vec![0; 8]),
    ];
    for (name, bytes) in lumps {
        assert!(!map.is_complete());
        assert!(map.add_lump(name, &Bytes::from(bytes)));
    }
    map
}

#[test]
fn map_data_collects_its_lumps() {
    let mut map = test_map();
    assert!(map.is_complete());
    assert_eq!("E1M1", map.name());
    assert_eq!(3, map.vertex_count());
    assert_eq!(Vertex { x: 10, y: 10 }, map.vertex(2));
    assert!(!map.add_lump("TEXTURE1", &Bytes::from(vec![1, 2])));
    assert_eq!(10, map.things().len());
    assert_eq!(28, map.nodes().len());
    assert_eq!(1, map.reject().len());
    let copy = map.clone();
    assert_eq!("E1M1", copy.name());
    assert_eq!(8, copy.blockmap().len());
    let line = LineDef::from_lump(map.linedefs(), &map);
    assert_eq!(Vertex { x: 0, y: 0 }, line.v1);
    assert_eq!(Vertex { x: 10, y: 10 }, line.v2);
    assert_eq!(1, line.flags);
    assert_eq!(0xFFFF, line.left_sidedef_idx);
}

#[test]
fn bsp_walk_visits_the_near_side_first() {
    let tree = BspTree::new(&test_map());
    assert_eq!(1, tree.get_node_count());
    let right_first = tree.locate_player(&Vertex { x: 5, y: 5 });
    assert_eq!(2, right_first.len());
    assert_eq!(Vertex { x: 0, y: 0 }, right_first[0].0[0].start);
    assert_eq!(Vertex { x: 10, y: 0 }, right_first[1].0[0].start);
    let left_first = tree.locate_player(&Vertex { x: -5, y: 5 });
    assert_eq!(Vertex { x: 10, y: 0 }, left_first[0].0[0].start);
    assert_eq!(Vertex { x: 10, y: 10 }, left_first[0].0[0].end);
    let node = tree.get_node(0);
    assert_eq!(Vertex { x: 3, y: 5 }, node.right_box_tr);
    assert_eq!(Vertex { x: -3, y: -5 }, node.right_box_bl);
}

#[test]
fn wad_header_is_checked() {
    let file = wad_file(b"IWAD", &[("PLAYPAL", vec![1, 2, 3])]);
    let wad = WadData::from_file_bytes("doom.wad", file.clone(), WadKind::IWAD).unwrap();
    assert_eq!(1, wad.get_lump_count());
    assert!(wad.directory_in_bounds());
    match WadData::from_file_bytes("doom.wad", file, WadKind::PWAD) {
        Err(e) => assert_eq!("Invalid WAD type: expected PWAD, was IWAD", e),
        Ok(_) => panic!("kind not checked"),
    }
    match WadData::from_file_bytes("tiny.wad", vec![0; 12], WadKind::IWAD) {
        Err(e) => assert_eq!("WAD file tiny.wad is too small", e),
        Ok(_) => panic!("size not checked"),
    }
    let mut bad = vec![0xFF; 4];
    bad.extend_from_slice(&[0; 9]);
    match WadData::from_file_bytes("bad.wad", bad, WadKind::IWAD) {
        Err(e) => assert_eq!("Invalid WAD header", e),
        Ok(_) => panic!("header not checked"),
    }
}

#[test]
fn wad_lumps_are_read_through_the_directory() {
    let file = wad_file(b"PWAD", &[("PLAYPAL", vec![1, 2, 3]), ("E1M1", vec![]), ("BAD NAME", vec![4])]);
    let wad = WadData::from_file_bytes("x.wad", file, WadKind::PWAD).unwrap();
    let l = wad.get_lump(0).unwrap();
    assert_eq!("PLAYPAL", l.name);
    assert_eq!(&[1u8, 2, 3][..], &l.bytes[..]);
    let l = wad.get_lump(1).unwrap();
    assert_eq!("E1M1", l.name);
    assert!(l.bytes.is_empty());
    match wad.get_lump(2) {
        Err(e) => assert_eq!("Invalid lump name at index 2", e),
        Ok(_) => panic!("name not checked"),
    }
    match wad.get_lump(3) {
        Err(e) => assert_eq!("Invalid lump index: 3 >= count 3 ", e),
        Ok(_) => panic!("index not checked"),
    }
    match LumpData::new(b"OK\0\0\0\0\0\0", Bytes::from(vec![9]), 0) {
        Ok(l) => assert_eq!("OK", l.name),
        Err(_) => panic!("good name refused"),
    }
}

#[test]
fn wad_lump_past_the_end_is_refused() {
    let mut file = wad_file(b"IWAD", &[("A", vec![1, 2])]);
    let len = file.len();
    let dir = len - 16;
    file[dir + 4..dir + 8].copy_from_slice(&(len as u32).to_le_bytes());
    let wad = WadData::from_file_bytes("x.wad", file, WadKind::IWAD).unwrap();
    match wad.get_lump(0) {
        Err(e) => assert_eq!(format!("Lump too big: offs 12 + size {len} >= wad len {len} "), e),
        Ok(_) => panic!("size not checked"),
    }
}

#[test]
fn lump_kinds_are_recognized_by_name() {
    assert!(is_map_name("E1M1"));
    assert!(is_map_name("MAP07"));
    assert!(!is_map_name("E1M"));
    assert!(!is_map_name("EXM1"));
    assert!(is_texture_name("TEXTURE1"));
    assert!(!is_texture_name("TEXTURES"));
    assert!(is_font_name("STCFN033"));
    assert!(is_font_name("FONTA59"));
    assert!(!is_font_name("STCFN"));
    assert!(is_ascii_digit(b'7'));
    assert!(!is_ascii_digit(b'a'));
    assert!(is_texture_lump("TEXTURE2"));
    assert!(!is_texture_lump("TEXTUREX"));
}

#[test]
fn graphic_lumps_are_checked_quickly() {
    assert!(quick_check_if_lump_is_graphic(&tiny_patch()));
    assert!(!quick_check_if_lump_is_graphic(&[1, 0, 1, 0]));
    let mut p = tiny_patch();
    p[12] = 0;
    assert!(!quick_check_if_lump_is_graphic(&p));
    let post = vec![1, 0, 1, 0, 0, 0, 0, 0, 12, 0, 0, 0, 0, 1, 0, 7, 0, 0xFF];
    assert!(quick_check_if_lump_is_graphic(&post));
}

#[test]
fn palette_maps_bytes_to_colors() {
    let mut pal = Palette::new();
    assert_eq!(RGB { r: 7, g: 7, b: 7 }, pal.byte2rgb(7));
    let mut pals = vec![0u8; 2 * 768];
    pals[768 + 3 * 5] = 10;
    pals[768 + 3 * 5 + 1] = 20;
    pals[768 + 3 * 5 + 2] = 30;
    pal.init_palettes(&pals);
    let mut cmaps = vec![0u8; 256];
    cmaps[7] = 5;
    pal.init_colormaps(&cmaps);
    assert!(pal.is_palette_initialized());
    assert!(pal.is_colormap_initialized());
    assert_eq!(RGB { r: 0, g: 0, b: 0 }, pal.byte2rgb(7));
    assert_eq!(Ok(()), pal.select_palette(1));
    assert_eq!(RGB { r: 10, g: 20, b: 30 }, pal.byte2rgb(7));
    assert_eq!(Err("Invalid palette index: 2 >= 2".to_string()), pal.select_palette(2));
    assert_eq!(Err("Invalid colormap index: 1 >= 1".to_string()), pal.select_colormap(1));
}

#[test]
fn font_colors_scale_the_font_color() {
    let m = FontColorMapper(RGB { r: 255, g: 100, b: 0 });
    assert_eq!(RGB { r: 128, g: 50, b: 0 }, m.byte2rgb(128));
    assert_eq!(RGB { r: 255, g: 100, b: 0 }, m.byte2rgb(255));
}

#[test]
fn gfx_keeps_a_palette() {
    let mut g = Gfx::new(320, 200, 2);
    assert_eq!(320, g.width());
    assert_eq!(200, g.height());
    g.set_palette_color(3, 1, 2, 3);
    g.put_pixel(3);
    let mut c = Color::from(1, 2, 3);
    assert_eq!(Color::from(1, 2, 3), c);
    c.set(4, 5, 6);
    assert_eq!(Color::from(4, 5, 6), c);
}

#[test]
fn things_are_read_from_their_lump() {
    let mut bytes = Vec::new();
    for v in [100i16, -200, 90, 1, 7] {
        bytes.extend_from_slice(&v.to_le_bytes());
    }
    let t = Thing::new(&bytes);
    assert_eq!(Vertex { x: 100, y: -200 }, t.pos());
    assert_eq!(90, t.angle);
    assert_eq!(1, t.type_code);
    assert_eq!(7, t.flags);
}

#[test]
fn pixmaps_keep_their_size() {
    assert!(PixMap::new_empty().is_empty());
    let p = PixMap::new_placeholder(70000, 3);
    assert_eq!(70000 % 65536, p.width() as usize);
    let f = PixMap::from_flat(Bytes::from(vec![0; 64 * 3 + 5]));
    assert_eq!((64, 3), (f.width(), f.height()));
    let p = PixMap::from_patch(Bytes::from(tiny_patch()));
    assert_eq!((1, 1), (p.width(), p.height()));
    assert!(!p.clone().is_empty());
}

#[test]
fn graphics_store_patches_flats_and_textures() {
    let mut g = Graphics::new();
    g.add_patch("WALL", &Bytes::from(tiny_patch()));
    g.add_flat("FLOOR", &Bytes::from(vec![0; 64]));
    assert_eq!(&vec![hash_lump_name(b"WALL")], g.dbg_patch_keys());
    assert_eq!(&vec![hash_lump_name(b"FLOOR")], g.dbg_flat_keys());
    assert_eq!((1, 1), g.get_patch(hash_lump_name(b"WALL")).map(|p| (p.width(), p.height())).unwrap());
    assert_eq!(1, g.get_flat(hash_lump_name(b"FLOOR")).unwrap().height());
    assert!(g.get_patch(hash_lump_name(b"NONE")).is_none());
    assert_eq!(Err("PNAMES lump size too small".to_string()), g.set_patch_names(&Bytes::from(vec![2, 0, 0, 0, 1])));
    assert_eq!(Ok(()), g.set_patch_names(&Bytes::from(pnames_lump(&["WALL"]))));
    assert_eq!(
        Err("TEXTUREx lump size too small: 8".to_string()),
        g.add_textures(&Bytes::from(vec![0; 8]))
    );
    assert_eq!(Ok(()), g.add_textures(&Bytes::from(texture_lump("BRICK", 64, 128, 0))));
    assert_eq!(&vec![hash_lump_name(b"BRICK")], g.dbg_texture_keys());
    assert!(g.texture_is_readable(hash_lump_name(b"BRICK")));
    assert!(g.texture_is_readable(hash_lump_name(b"NONE")));
    let t = g.get_texture(hash_lump_name(b"BRICK")).unwrap();
    assert_eq!((64, 128), (t.width(), t.height()));
    assert_eq!(1, t.patch_count());
    assert_eq!((3, -2), (t.patch_at(0).0, t.patch_at(0).1));
    assert_eq!((1, 1), (t.patch_at(0).2.width(), t.patch_at(0).2.height()));
    assert_eq!(Ok(()), g.add_textures(&Bytes::from(texture_lump("BAD", 8, 8, 5))));
    assert!(!g.texture_is_readable(hash_lump_name(b"BAD")));
    let mut short = texture_lump("BRICK", 64, 128, 0);
    short.truncate(37);
    assert_eq!(
        Err("TEXTUREx entry #0 out of bounds: len=37 < ofs=8".to_string()),
        g.add_textures(&Bytes::from(short))
    );
}

#[test]
fn texture_sets_decode_textures() {
    let mut ts = TextureSet::new();
    assert!(!ts.is_initialized());
    assert_eq!(Err("PNAMES lump size too small".to_string()), ts.parse_patch_names(&[1, 0, 0, 0]));
    assert_eq!(Ok(()), ts.parse_patch_names(&pnames_lump(&["P1", "P2"])));
    assert_eq!(Ok(()), ts.parse_textures(&texture_lump("T1", 8, 8, 1)));
    assert!(ts.is_initialized());
    assert_eq!(
        Err("TEXTUREx lump size too small: 5".to_string()),
        ts.parse_textures(&[1, 0, 0, 0, 0])
    );
}

#[test]
fn fonts_collect_characters_and_lay_out_text() {
    let mut f = Font::new();
    assert!(!f.is_complete());
    let mut wide = tiny_patch();
    wide[0] = 3;
    wide[2] = 5;
    f.add_font_lump("STCFN065", &Bytes::from(wide.clone()));
    f.add_font_lump("STCFN072", &Bytes::from(tiny_patch()));
    f.add_font_lump("FONTA01", &Bytes::from(tiny_patch()));
    f.add_font_lump("OTHER99", &Bytes::from(tiny_patch()));
    assert_eq!(3, f.glyph(32).width());
    assert_eq!(1, f.glyph(0).width());
    assert_eq!(vec![(0, 32), (4, 32)], f.text_layout("A a"));
    for code in 33..=90 {
        f.add_font_lump(&format!("STCFN{code:03}"), &Bytes::from(tiny_patch()));
    }
    assert!(f.is_complete());
}

#[test]
fn doom_controls_follow_the_keys() {
    let mut c = DoomControls::new();
    assert!(c.is_automap());
    assert_eq!(None, c.handle_event(DoomEvent::KeyDown(DoomKey::W), 3));
    assert_eq!(Some(AutomapMove { dx: 0, dy: 1, zoom: 0 }), c.update_state());
    assert_eq!(None, c.handle_event(DoomEvent::KeyDown(DoomKey::Tab), 3));
    assert_eq!(None, c.update_state());
    assert!(!c.is_automap());
    assert_eq!(None, c.update_state());
    assert_eq!(None, c.handle_event(DoomEvent::KeyUp(DoomKey::Tab), 3));
    assert_eq!(Some(1), c.handle_event(DoomEvent::KeyDown(DoomKey::PageDown), 3));
    assert_eq!(Some(2), c.handle_event(DoomEvent::KeyDown(DoomKey::PageDown), 3));
    assert_eq!(None, c.handle_event(DoomEvent::KeyDown(DoomKey::PageDown), 3));
    assert_eq!(Some(1), c.handle_event(DoomEvent::KeyDown(DoomKey::PageUp), 3));
    assert_eq!(1, c.map_idx());
    assert!(c.load_map(0, 3));
    assert!(!c.load_map(0, 3));
    assert!(!c.load_map(5, 3));
    let _ = (KEY_AUTOMAP, KEY_AUTOMAP_ACTED, KEY_MOVE_FWD, KEY_SHOOT, KEY_USE);
}

fn full_wad() -> Vec<u8> {
    let mut lumps: Vec<(String, Vec<u8>)> = vec![
        ("PLAYPAL".to_string(), vec![0; 768]),
        ("COLORMAP".to_string(), vec![0; 256]),
        ("E1M1".to_string(), vec![]),
    ];
    for name in ["THINGS", "LINEDEFS", "SIDEDEFS", "VERTEXES", "SEGS", "SSECTORS", "NODES", "SECTORS", "REJECT", "BLOCKMAP"] {
        lumps.push((name.to_string(), vec![1; 4]));
    }
    lumps.push(("PNAMES".to_string(), pnames_lump(&["WALL"])));
    lumps.push(("TEXTURE1".to_string(), texture_lump("BRICK", 64, 64, 0)));
    lumps.push(("WALL".to_string(), tiny_patch()));
    for code in 33..=90 {
        lumps.push((format!("STCFN{code:03}"), tiny_patch()));
    }
    lumps.push(("F_START".to_string(), vec![]));
    lumps.push(("FLAT1".to_string(), vec![3; 64]));
    lumps.push(("F_END".to_string(), vec![]));
    let refs: Vec<(&str, Vec<u8>)> = lumps.iter().map(|(n, b)| (n.as_str(), b.clone())).collect();
    wad_file(b"IWAD", &refs)
}

#[test]
fn game_data_is_gathered_from_a_wad() {
    let wad = WadData::from_file_bytes("doom.wad", full_wad(), WadKind::IWAD).unwrap();
    let data = match DoomGameData::build(wad) {
        Ok(d) => d,
        Err(e) => panic!("{e}"),
    };
    assert_eq!(1, data.map_count());
    assert_eq!("E1M1", data.map(0).name());
    assert!(data.map(0).is_complete());
    assert!(data.palette().is_palette_initialized());
    assert!(data.font().is_complete());
    assert!(data.graphics().get_texture(hash_lump_name(b"BRICK")).is_some());
    assert!(data.graphics().get_flat(hash_lump_name(b"FLAT1")).is_some());
}

#[test]
fn game_data_needs_palettes_maps_and_fonts() {
    let file = wad_file(b"IWAD", &[("PNAMES", pnames_lump(&["W"])), ("TEXTURE1", texture_lump("T", 1, 1, 0))]);
    let wad = WadData::from_file_bytes("doom.wad", file, WadKind::IWAD).unwrap();
    match DoomGameData::build(wad) {
        Err(e) => assert_eq!("PLAYPAL or COLORMAP lump not found in WAD", e),
        Ok(_) => panic!("missing palette accepted"),
    }
    let file = wad_file(b"IWAD", &[("PLAYPAL", vec![0; 768])]);
    let wad = WadData::from_file_bytes("doom.wad", file, WadKind::IWAD).unwrap();
    match DoomGameData::build(wad) {
        Err(e) => assert_eq!("PNAMES lump not found in WAD", e),
        Ok(_) => panic!("missing pnames accepted"),
    }
    let file = wad_file(b"IWAD", &[("E1M1", vec![]), ("THINGS", vec![1]), ("PLAYPAL", vec![0; 768])]);
    let wad = WadData::from_file_bytes("doom.wad", file, WadKind::IWAD).unwrap();
    match DoomGameData::build(wad) {
        Err(e) => assert_eq!("Incomplete map in WAD: E1M1", e),
        Ok(_) => panic!("incomplete map accepted"),
    }
}

#[test]
fn graphics_handler_indexes_wad_graphics() {
    let mut lumps: Vec<(String, Vec<u8>)> = vec![
        ("PLAYPAL".to_string(), vec![0; 768]),
        ("COLORMAP".to_string(), vec![0; 256]),
        ("S_START".to_string(), vec![]),
        ("TROOA1".to_string(), tiny_patch()),
        ("S_END".to_string(), vec![]),
        ("P_START".to_string(), vec![]),
        ("WALL".to_string(), tiny_patch()),
        ("P_END".to_string(), vec![]),
        ("F_START".to_string(), vec![]),
        ("FLAT1".to_string(), vec![3; 128]),
        ("F_END".to_string(), vec![]),
    ];
    for code in 33..=90 {
        lumps.push((format!("STCFN{code:03}"), tiny_patch()));
    }
    let refs: Vec<(&str, Vec<u8>)> = lumps.iter().map(|(n, b)| (n.as_str(), b.clone())).collect();
    let wad = WadData::from_file_bytes("doom.wad", wad_file(b"IWAD", &refs), WadKind::IWAD).unwrap();
    let g = match GraphicsHandler::new(Rc::new(wad)) {
        Ok(g) => g,
        Err(e) => panic!("{e}"),
    };
    assert_eq!(2, g.get_flat("FLAT1").unwrap().height());
    assert!(g.get_flat("NOPE").is_none());
    assert!(g.get_patch("WALL").is_none());
    assert!(g.get_sprite("TROOA1").is_none());

    let wad = WadData::from_file_bytes("doom.wad", wad_file(b"IWAD", &[("PLAYPAL", vec![0; 768])]), WadKind::IWAD).unwrap();
    match GraphicsHandler::new(Rc::new(wad)) {
        Err(e) => assert_eq!("Colormap lump not found in WAD", e),
        Ok(_) => panic!("missing colormap accepted"),
    }
}

fn two_column_patch() -> Vec<u8> {
    let mut p = vec![2, 0, 3, 0, 1, 0, 2, 0, 16, 0, 0, 0, 23, 0, 0, 0];
    p.extend_from_slice(&[0, 2, 0, 10, 11, 0, 0xFF]);
    p.extend_from_slice(&[1, 1, 0, 20, 0, 0xFF]);
    p
}

#[test]
fn patches_decode_their_posts_column_by_column() {
    let patch = PixMap::from_patch(Bytes::from(two_column_patch()));
    assert_eq!(Some(vec![(-1, -2, 10), (-1, -1, 11), (0, -1, 20)]), patch.patch_pixels());
    let mut cut = two_column_patch();
    cut.pop();
    let patch = PixMap::from_patch(Bytes::from(cut));
    assert_eq!(None, patch.patch_pixels());
    let patch = PixMap::from_patch(Bytes::from(vec![0, 0, 1, 0, 0, 0]));
    assert_eq!(None, patch.patch_pixels());
    let patch = PixMap::from_patch(Bytes::from(vec![0, 0, 1, 0, 0, 0, 0, 0]));
    assert_eq!(Some(vec![]), patch.patch_pixels());
}

#[test]
fn flats_are_painted_row_by_row() {
    let bytes: Vec<u8> = (0..130u32).map(|i| (i % 251) as u8).collect();
    let flat = PixMap::from_flat(Bytes::from(bytes));
    let px = flat.flat_pixels();
    assert_eq!(128, px.len());
    assert_eq!((0, 0, 0), px[0]);
    assert_eq!((63, 0, 63), px[63]);
    assert_eq!((1, 1, 65), px[65]);
    assert_eq!((63, 1, 127), px[127]);
}

#[test]
fn automap_key_toggles_once_per_press() {
    let mut c = DoomControls::new();
    assert!(c.is_automap());
    c.handle_event(DoomEvent::KeyDown(DoomKey::Tab), 1);
    assert_eq!(None, c.update_state());
    assert!(!c.is_automap());
    // held down, repeated by the keyboard: nothing more
    c.handle_event(DoomEvent::KeyDown(DoomKey::Tab), 1);
    c.update_state();
    c.update_state();
    assert!(!c.is_automap());
    // released and pressed again: back to the automap
    c.handle_event(DoomEvent::KeyUp(DoomKey::Tab), 1);
    c.update_state();
    assert!(!c.is_automap());
    c.handle_event(DoomEvent::KeyDown(DoomKey::Tab), 1);
    assert_eq!(Some(AutomapMove { dx: 0, dy: 0, zoom: 0 }), c.update_state());
    assert!(c.is_automap());
}

#[test]
fn releasing_a_key_clears_only_that_key() {
    let mut c = DoomControls::new();
    c.handle_event(DoomEvent::KeyDown(DoomKey::Up), 1);
    c.handle_event(DoomEvent::KeyDown(DoomKey::Left), 1);
    c.handle_event(DoomEvent::KeyDown(DoomKey::Space), 1);
    c.handle_event(DoomEvent::KeyUp(DoomKey::Space), 1);
    c.handle_event(DoomEvent::KeyDown(DoomKey::RCtrl), 1);
    c.handle_event(DoomEvent::KeyUp(DoomKey::RCtrl), 1);
    assert_eq!(Some(AutomapMove { dx: -1, dy: 1, zoom: 0 }), c.update_state());
    c.handle_event(DoomEvent::KeyUp(DoomKey::Up), 1);
    assert_eq!(Some(AutomapMove { dx: -1, dy: 0, zoom: 0 }), c.update_state());
    // with no maps, only page down is out of reach
    assert_eq!(None, c.handle_event(DoomEvent::KeyDown(DoomKey::PageUp), 0));
    assert_eq!(None, c.handle_event(DoomEvent::KeyUp(DoomKey::PageDown), 0));
}
