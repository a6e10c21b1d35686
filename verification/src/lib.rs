//! A minimal roguelike core: a procedurally generated dungeon of rooms and
//! corridors on a fixed 80x50 tile grid, a small entity/component registry,
//! and a character-grid renderer, with the grid addressing, carving,
//! movement and rendering logic verified.

pub mod components;
pub mod display;
pub mod map;
pub mod rect;
pub mod player;
pub mod rng;
pub mod state;
pub mod world;
