//! Building blocks of a Wolfenstein 3D-like engine: assets, map planes, screen buffer.

pub mod assetloader;
pub mod assets;
pub mod gameloop;
pub mod input;
pub mod scrbuf;
