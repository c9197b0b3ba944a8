//! Building blocks of a Doom-like engine: WAD parsing, map items, palettes.

pub mod gfxhandler;
pub mod graphics;
pub mod lump_bytes;
pub mod actors;
pub mod bsp;
pub mod font;
pub mod game;
pub mod game_initializer;
pub mod gfx;
pub mod level;
pub mod map;
pub mod map_items;
pub mod palette;
pub mod pixmap;
pub mod texture;
pub mod utils;
pub mod wad;
