use rusty_games::rolf3d::assetloader::{
    asset_file_name, buf_to_ascii, buf_to_i32, decompress_map_plane, detect_game_type, load_maps_from, load_one_map,
    map_entries_listed, maps_are_decodable, plane_decodes,
    GameAssets,
};
use rusty_games::rolf3d::assets::{FontData, GfxData, GfxType, MapData};
use rusty_games::rolf3d::gameloop::{automap_rects, tile_look, GameLoop, LoopKey, TileLook, AMBUSHTILE, AREATILE};
use rusty_games::rolf3d::input::{InputManager, KeyBtnTiming};
use rusty_games::raycasting::painter::RGB;
use rusty_games::rolf3d::scrbuf::{palette_to_rgb, ScreenBuffer};

#[test]
fn planes_decompress_words_runs_and_back_references() {
    // plain words
    assert_eq!(vec![0x0201, 0x0403], decompress_map_plane(&[1, 2, 3, 4]));
    // RLEW: 3 times 0x0507
    assert_eq!(vec![0x0507, 0x0507, 0x0507], decompress_map_plane(&[0xCD, 0xAB, 3, 0, 7, 5]));
    // Carmack escape: a literal word with 0xA7 as its high byte
    assert_eq!(vec![0xA709], decompress_map_plane(&[0, 0xA7, 9]));
    // near pointer: copy 2 words from 2 words back
    assert_eq!(vec![1, 2, 1, 2], decompress_map_plane(&[1, 0, 2, 0, 2, 0xA7, 2]));
    // far pointer: copy 3 words from word 0 (reading what it writes)
    assert_eq!(vec![7, 7, 7, 7], decompress_map_plane(&[7, 0, 3, 0xA8, 0, 0]));
    // a trailing odd byte is ignored
    assert_eq!(vec![0x0201], decompress_map_plane(&[1, 2, 3]));
}

#[test]
fn little_endian_i32_and_ascii_names() {
    assert_eq!(-2, buf_to_i32(&[0xFE, 0xFF, 0xFF, 0xFF]));
    assert_eq!(0x01020304, buf_to_i32(&[4, 3, 2, 1]));
    assert_eq!("Wolf 1", buf_to_ascii(b"Wolf 1\0junk", 16));
    assert_eq!("Wol", buf_to_ascii(b"Wolf 1", 3));
    assert_eq!("AB", buf_to_ascii(b"AB", 16));
}

/// GAMEMAPS with one map header at offset 8, its planes after it.
fn gamemaps() -> Vec<u8> {
    let mut g = b"TED5v1.0".to_vec();
    let planes_at = 8 + 38;
    let plane0: Vec<u8> = vec![0xCD, 0xAB, 4, 0, 1, 0];
    let plane1: Vec<u8> = vec![2, 0, 3, 0];
    for (ofs, _) in [(planes_at, 0), (planes_at + plane0.len(), 0)] {
        g.extend_from_slice(&(ofs as i32).to_le_bytes());
    }
    g.extend_from_slice(&0i32.to_le_bytes());
    g.extend_from_slice(&(plane0.len() as u16).to_le_bytes());
    g.extend_from_slice(&(plane1.len() as u16).to_le_bytes());
    g.extend_from_slice(&0u16.to_le_bytes());
    g.extend_from_slice(&2u16.to_le_bytes());
    g.extend_from_slice(&2u16.to_le_bytes());
    let mut name = b"Tiny map".to_vec();
    name.resize(16, 0);
    g.extend_from_slice(&name);
    g.extend_from_slice(&plane0);
    g.extend_from_slice(&plane1);
    g
}

#[test]
fn maps_load_from_their_headers() {
    let g = gamemaps();
    assert!(load_one_map(8, &g).is_ok());
    match load_one_map(g.len() - 20, &g) {
        Err(e) => assert_eq!(format!("Invalid map header index: {}", g.len() - 20), e),
        Ok(_) => panic!("short header accepted"),
    }
    let mut bad = g.clone();
    bad[8 + 12] = 200;
    match load_one_map(8, &bad) {
        Err(e) => assert_eq!("Invalid map plane 0 for Tiny map", e),
        Ok(_) => panic!("plane past the end accepted"),
    }
    let mut maphead = vec![0xCD, 0xAB];
    maphead.extend_from_slice(&8i32.to_le_bytes());
    maphead.extend_from_slice(&0i32.to_le_bytes());
    assert_eq!(1, load_maps_from(&maphead, &g).map(|m| m.len()).unwrap_or(0));
    match load_maps_from(&[0, 0, 0, 0, 0, 0], &g) {
        Err(e) => assert_eq!("Unexpected magic number in ", e),
        Ok(_) => panic!("magic not checked"),
    }
    let assets = GameAssets::load_from("WL1", &maphead, &g).map_err(|e| e).unwrap();
    assert_eq!("WL1", assets.game_type());
}

#[test]
fn the_game_is_detected_from_its_files() {
    let mut files: Vec<String> = Vec::new();
    match detect_game_type(&files) {
        Err(e) => assert_eq!("Game asset files not found", e),
        Ok(_) => panic!("no files accepted"),
    }
    for base in ["MAPHEAD", "GAMEMAPS", "VGADICT", "VGAHEAD", "VGAGRAPH", "VSWAP"] {
        files.push(format!("{base}.SOD"));
        files.push(format!("{base}.WL6"));
    }
    files.pop();
    assert_eq!(Ok("SOD"), detect_game_type(&files));
    files.push("VSWAP.WL6".to_string());
    assert_eq!(Ok("WL6"), detect_game_type(&files));
    assert_eq!("GAMEMAPS.WL1", asset_file_name(1, "WL1"));
}

#[test]
fn assets_hold_graphics_fonts_and_maps() {
    let wall = GfxData::new_wall(vec![1; 4096]);
    assert_eq!((GfxType::WALL, 64, 64), (wall.gtype, wall.width, wall.height));
    let empty = GfxData::new_sprite(vec![]);
    assert_eq!((GfxType::SPRITE, 0, 0), (empty.gtype, empty.width, empty.height));
    let pic = GfxData::new_pic(2, 3, vec![0; 6]);
    assert_eq!((GfxType::PIC, 2, 3), (pic.gtype, pic.width, pic.height));

    let mut font = FontData::new(2, 5);
    font.add_char_data(vec![0; 6]);
    assert_eq!(5, font.char_width(32));
    assert_eq!(3, font.char_width(33));
    assert_eq!(0, font.char_width(34));
    assert_eq!(0, font.char_width(10));

    let mut walls = vec![0u16; 4096];
    walls[64 + 2] = 9;
    let map = MapData::new("E1L1".to_string(), 64, 64, walls, vec![1; 4096]);
    assert_eq!(("E1L1", 64, 64), (map.name(), map.width(), map.height()));
    assert_eq!(9, map.wall(2, 1));
    assert_eq!(0, map.wall(-1, 1));
    assert_eq!(0, map.thing(64, 0));
    assert_eq!(1, map.thing(63, 63));
}

#[test]
fn screen_buffer_paints_pixels_and_rectangles() {
    let mut s = ScreenBuffer::new(4, 3);
    assert_eq!((4, 3), (s.width(), s.height()));
    s.put_pixel(1, 1, 7);
    s.put_pixel(1, 2, 0xFF);
    s.put_pixel(-1, 2, 9);
    assert_eq!(7, s.get_pixel(1, 1));
    assert_eq!(0, s.get_pixel(1, 2));
    s.fill_rect(-2, 1, 4, 9, 5);
    assert_eq!(5, s.get_pixel(0, 2));
    assert_eq!(5, s.get_pixel(1, 1));
    assert_eq!(0, s.get_pixel(2, 1));
    assert_eq!(0, s.get_pixel(0, 0));
}

#[test]
fn the_game_loop_follows_the_keys_and_paints_the_palette() {
    let assets = GameAssets::load_from("WL1", &[0xCD, 0xAB, 0, 0, 0, 0], &[]).unwrap();
    let mut gl = GameLoop::new(200, 150, assets);
    assert!(gl.handle_key_down(LoopKey::PageUp));
    assert!(gl.handle_key_down(LoopKey::Up));
    assert!(gl.handle_key_down(LoopKey::KpMinus));
    assert!(gl.update_state());
    let s = gl.scrbuf();
    assert_eq!(0, s.get_pixel(0, 0));
    assert_eq!(17, s.get_pixel(9, 8));
    assert_eq!(255, s.get_pixel(127, 127));
    assert_eq!(0, s.get_pixel(128, 5));
    assert_eq!(0, s.get_pixel(199, 149));
}

#[test]
fn automap_tiles_show_by_their_code() {
    assert_eq!(TileLook::OffMap, tile_look(0, 100));
    assert_eq!(TileLook::Textured(98), tile_look(90, 100));
    assert_eq!(TileLook::Framed(14, 1), tile_look(90, 98));
    assert_eq!(TileLook::Textured(24), tile_look(101, 25));
    assert_eq!(TileLook::Framed(14, 12), tile_look(101, 24));
    assert_eq!(TileLook::Ambush, tile_look(AMBUSHTILE, 1000));
    assert_eq!(TileLook::Textured(0), tile_look(1, 1));
    assert_eq!(TileLook::Framed(15, 1), tile_look(1, 0));
    assert_eq!(TileLook::Textured(41), tile_look(21, 42));
    assert_eq!(TileLook::Framed(15, 21), tile_look(21, 41));
    assert_eq!(TileLook::Area(0), tile_look(AREATILE, 1000));
    assert_eq!(TileLook::Area(36), tile_look(143, 0));
    assert_eq!(TileLook::Area(0), tile_look(107 + 256, 0));
}

#[test]
fn a_new_input_manager_starts_empty() {
    let _input = InputManager::new();
}

#[test]
fn palette_bytes_show_as_greys() {
    assert_eq!(RGB { r: 7, g: 7, b: 7 }, palette_to_rgb(7));
    assert_eq!(RGB { r: 255, g: 255, b: 255 }, palette_to_rgb(255));
}

#[test]
fn malformed_planes_and_headers_are_detected() {
    assert!(plane_decodes(&[1, 2, 3, 4]));
    assert!(plane_decodes(&[0xCD, 0xAB, 3, 0, 7, 5]));
    assert!(plane_decodes(&[1, 0, 2, 0, 2, 0xA7, 2]));
    assert!(plane_decodes(&[7, 0, 3, 0xA8, 0, 0]));
    assert!(!plane_decodes(&[5, 0xA7, 1]));
    assert!(!plane_decodes(&[0, 0xA7]));
    assert!(!plane_decodes(&[2, 0xA8, 0, 0]));
    assert!(!plane_decodes(&[0xCD, 0xAB, 3, 0, 7]));
    let mut maphead = vec![0xCD, 0xAB];
    maphead.extend_from_slice(&8i32.to_le_bytes());
    assert!(!map_entries_listed(&maphead));
    maphead.extend_from_slice(&0i32.to_le_bytes());
    assert!(map_entries_listed(&maphead));
    let g = gamemaps();
    assert!(maps_are_decodable(&maphead, &g));
    let mut bad = g.clone();
    let p0 = 8 + 38;
    bad[p0..p0 + 6].copy_from_slice(&[5, 0xA7, 1, 0, 0, 0]);
    assert!(!maps_are_decodable(&maphead, &bad));
    let mut far = vec![0xCD, 0xAB];
    far.extend_from_slice(&100000i32.to_le_bytes());
    far.extend_from_slice(&0i32.to_le_bytes());
    assert!(maps_are_decodable(&far, &g));
}

#[test]
fn single_shot_key_fires_once_per_press() {
    let mut k = KeyBtnTiming::new(0);
    assert!(!k.consume_pressed());
    k.set_pressed(true);
    assert!(!k.counts_time());
    assert!(k.consume_pressed());
    assert!(!k.consume_pressed());
    k.set_pressed(true);
    assert!(!k.consume_pressed());
    k.set_pressed(false);
    k.set_pressed(true);
    assert!(k.consume_pressed());
}

#[test]
fn repeating_key_fires_per_delay_waited() {
    let mut k = KeyBtnTiming::new(100);
    k.set_pressed(true);
    assert!(k.counts_time());
    assert!(!k.consume_pressed());
    k.add_waiting_ms(250);
    assert!(k.consume_pressed());
    assert!(k.consume_pressed());
    assert!(!k.consume_pressed());
    k.add_waiting_ms(50);
    assert!(k.consume_pressed());
    k.set_pressed(false);
    assert!(!k.counts_time());
    assert!(!k.consume_pressed());
}

#[test]
fn the_automap_shows_the_selected_map() {
    let g = gamemaps();
    let mut maphead = vec![0xCD, 0xAB];
    maphead.extend_from_slice(&8i32.to_le_bytes());
    maphead.extend_from_slice(&0i32.to_le_bytes());
    let assets = GameAssets::load_from("WL1", &maphead, &g).unwrap();
    assert_eq!(1, assets.map_count());
    let map = assets.map(0);
    assert_eq!((2, 2), (map.width(), map.height()));
    assert_eq!(1, map.tile(1, 1));
    assert_eq!(0, map.tile(2, 0));
    assert_eq!(0, map.tile(-1, 0));
    assert_eq!(3, map.thing(1, 0));
    assert_eq!(0, map.thing(0, 1));
    assert_eq!(
        vec![(0, 0, 12, 12, 15), (1, 1, 10, 10, 1), (2, 2, 4, 4, 0), (3, 3, 2, 2, 2)],
        automap_rects(map, 0, 0, 12)[0..4].to_vec()
    );
    // with the offset, the first tile is off the map
    assert_eq!((1, 1, 11, 11, 31), automap_rects(map, -1, 0, 12)[0]);
    let mut gl = GameLoop::new(60, 40, assets);
    for key in [LoopKey::Tab, LoopKey::Right, LoopKey::Right, LoopKey::Right, LoopKey::Right, LoopKey::Right] {
        assert!(gl.handle_key_down(key));
    }
    for _ in 0..5 {
        gl.handle_key_down(LoopKey::Down);
    }
    assert!(gl.automap_shown());
    assert!(gl.update_state());
    let s = gl.scrbuf();
    assert_eq!(15, s.get_pixel(0, 0));
    assert_eq!(1, s.get_pixel(1, 1));
    assert_eq!(0, s.get_pixel(2, 2));
    assert_eq!(2, s.get_pixel(3, 3));
    assert_eq!(15, s.get_pixel(11, 11));
    assert_eq!(3, s.get_pixel(15, 3));
    assert_eq!(1, s.get_pixel(2, 14));
    assert_eq!(0, s.get_pixel(30, 30));
}
