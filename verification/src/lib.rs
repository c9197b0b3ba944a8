//! A small collection of games and game-engine building blocks:
//! a hide-and-seek simulation, tic-tac-toe, tetriminoes, a text searcher,
//! and the data/asset handling of two retro 3D engines.

pub mod guessing_game;
pub mod hide_and_seek;
pub mod hello_rust;
pub mod minigrep;
pub mod raycasting;
pub mod rolf3d;
pub mod rustoom;
pub mod tetrust;
pub mod text;
pub mod tic_tac_toe;
