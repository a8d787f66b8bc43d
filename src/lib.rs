use vstd::prelude::*;

pub mod animation;
pub mod color;
pub mod constants;
pub mod cursor;
pub mod font;
pub mod geometry;
pub mod input;
pub mod level;
pub mod menu;
pub mod rendercontext;
pub mod scene;
pub mod sprite;
pub mod stagemanager;
pub mod tilemap;
pub mod tileset;
pub mod uibutton;
pub mod utils;
