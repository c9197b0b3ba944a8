use rusty_games::raycasting::painter::{fill_rect, horiz_line, rect_outline, vert_line, RGB};
use rusty_games::raycasting::raycaster::{
    RayCaster, RayCasterBuilder, RayEvent, RayKey, DO_ROT_LEFT, DO_RUN, DO_WALK_FWD, MAP_EDGE,
};
use rusty_games::raycasting::sdl_wrapper::SdlConfiguration;

const MAP: &[&str] = &[
    "CACACACACAC",
    "A.........A",
    "C....FEF..C",
    "A..FEF.F..A",
    "C..F...EE.C",
    "A....@..F.A",
    "C.........C",
    "A..GB.....A",
    "C..B...D..C",
    "A.........A",
    "CACACACACAC",
];

fn demo() -> RayCaster {
    let mut builder = RayCasterBuilder::new();
    builder.scr_size(1200, 600).map_size(11, 11).map_from_str(&MAP.concat());
    builder.build()
}

#[test]
fn the_map_string_fills_the_map() {
    let rc = demo();
    assert_eq!(3, rc.wall_at(0, 0));
    assert_eq!(1, rc.wall_at(1, 0));
    assert_eq!(0, rc.wall_at(1, 1));
    assert_eq!(6, rc.wall_at(5, 2));
    assert_eq!(0, rc.wall_at(5, 5));
    assert_eq!(MAP_EDGE, rc.wall_at(-1, 3));
    assert_eq!(MAP_EDGE, rc.wall_at(3, 11));
}

#[test]
fn short_and_long_map_strings() {
    let mut b = RayCasterBuilder::new();
    b.map_size(2, 2).map_from_str("A x@");
    let rc = b.build();
    assert_eq!(1, rc.wall_at(0, 0));
    assert_eq!(0, rc.wall_at(1, 0));
    assert_eq!(0, rc.wall_at(0, 1));
    let mut b = RayCasterBuilder::new();
    b.map_size(1, 1).map_from_str("BZ@");
    assert_eq!(2, b.build().wall_at(0, 0));
}

#[test]
fn keys_set_and_clear_flags() {
    let mut rc = demo();
    assert!(rc.handle_event(RayEvent::KeyDown(RayKey::W, false)));
    assert!(rc.handle_event(RayEvent::KeyDown(RayKey::LShift, false)));
    assert!(rc.is_key_pressed(DO_WALK_FWD));
    assert!(rc.is_key_pressed(DO_RUN));
    assert!(rc.handle_event(RayEvent::KeyUp(RayKey::W)));
    assert!(!rc.is_key_pressed(DO_WALK_FWD));
    assert!(rc.handle_event(RayEvent::KeyDown(RayKey::X, false)));
    assert!(!rc.handle_event(RayEvent::KeyDown(RayKey::X, true)));
}

#[test]
fn walls_are_colored_by_kind_and_shaded_by_orientation() {
    assert_eq!(RGB::from(0, 0, 0), RayCaster::get_wall_color(0, 1));
    assert_eq!(RGB::from(0, 0, 0), RayCaster::get_wall_color(MAP_EDGE, 1));
    assert_eq!(RGB::from(128, 64, 0), RayCaster::get_wall_color(1, 1));
    assert_eq!(RGB::from(0, 96, 96), RayCaster::get_wall_color(2, 2));
    assert_eq!(RGB::from(160, 0, 160), RayCaster::get_wall_color(7, 0));
}

#[test]
fn sdl_configuration_keeps_its_values() {
    let c = SdlConfiguration::new("Demo", 320, 200, 2, 0);
    assert_eq!("Demo", c.title());
    assert_eq!((320, 200, 2), (c.width(), c.height(), c.pixel_size()));
    assert!(!c.should_sleep());
    let c = SdlConfiguration::new("Demo", 320, 200, 2, 5);
    assert!(c.should_sleep());
    assert_eq!(5, c.sleep_ms());
}

#[test]
fn lines_cover_their_pixels_in_order() {
    assert_eq!(vec![(2, 5), (3, 5), (4, 5)], horiz_line(4, 2, 5));
    assert_eq!(vec![(7, 1)], horiz_line(7, 7, 1));
    assert_eq!(vec![(0, -1), (0, 0), (0, 1)], vert_line(0, -1, 1));
    assert_eq!(vec![(3, 9)], vert_line(3, 9, 9));
}

#[test]
fn rectangles_cover_their_pixels_in_order() {
    assert_eq!(vec![(1, 1), (2, 1), (1, 2), (2, 2), (1, 3), (2, 3)], fill_rect(1, 1, 2, 3));
    assert!(fill_rect(1, 1, 0, 3).is_empty());
    assert!(fill_rect(1, 1, 3, -1).is_empty());
    assert_eq!(
        vec![(0, 0), (0, 3), (1, 0), (1, 3), (2, 0), (2, 3), (0, 1), (2, 1), (0, 2), (2, 2)],
        rect_outline(0, 0, 3, 4)
    );
    assert_eq!(vec![(5, 5), (5, 5)], rect_outline(5, 5, 1, 1));
    assert!(rect_outline(5, 5, 0, 1).is_empty());
}

#[test]
fn the_layout_and_start_follow_the_map() {
    let rc = demo();
    assert_eq!((1200, 600), rc.screen());
    assert_eq!((11, 11), rc.map_size());
    assert_eq!((32, 354, 0, 846, 600), rc.layout());
    assert_eq!(Some((5, 5)), rc.start());
}

#[test]
fn the_mini_map_and_horizon_are_laid_out() {
    let rc = demo();
    let rects = rc.mini_map_rects();
    assert_eq!(121, rects.len());
    assert_eq!((1, 1, 31, 31, RGB::from(160, 0, 0)), rects[0]);
    assert_eq!((1, 33, 31, 31, RGB::from(160, 80, 0)), rects[1]);
    assert_eq!((33, 33, 31, 31, RGB::from(0, 0, 0)), rects[12]);
    let lines = rc.horizon_lines();
    assert_eq!(602, lines.len());
    assert_eq!((354, 1199, 0, RGB::from(0, 128, 128)), lines[0]);
    assert_eq!((354, 1199, 600, RGB::from(50, 50, 50)), lines[1]);
    assert_eq!((354, 1199, 300, RGB::from(100, 128, 128)), lines[600]);
    assert_eq!((354, 1199, 300, RGB::from(100, 100, 100)), lines[601]);
}

#[test]
fn a_key_is_held_until_released_and_leaves_the_others() {
    let mut rc = demo();
    rc.handle_key_down(RayKey::A);
    rc.handle_key_down(RayKey::W);
    assert!(rc.is_key_pressed(DO_ROT_LEFT));
    assert!(rc.is_key_pressed(DO_WALK_FWD));
    rc.handle_key_up(RayKey::A);
    assert!(!rc.is_key_pressed(DO_ROT_LEFT));
    assert!(rc.is_key_pressed(DO_WALK_FWD));
    assert!(!rc.is_key_pressed(DO_RUN));
}
