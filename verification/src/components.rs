//! The data components an entity may carry: a grid position, an appearance,
//! and the player tag.

use vstd::prelude::*;

verus! {

/// Grid position of an entity, in cells.
#[derive(Clone, Copy, PartialEq, Eq, Structural, Debug)]
pub struct Position {
    pub x: i32,
    pub y: i32,
}

/// An RGB color with 8-bit channels.
#[derive(Clone, Copy, PartialEq, Eq, Structural, Debug)]
pub struct Color {
    pub r: u8,
    pub g: u8,
    pub b: u8,
}

/// How to draw an entity: a character-set glyph plus foreground and
/// background colors.
#[derive(Clone, Copy, PartialEq, Eq, Structural, Debug)]
pub struct Renderable {
    pub glyph: u16,
    pub fg: Color,
    pub bg: Color,
}

/// Tag component marking an entity as player-controlled; carries no data.
#[derive(Clone, Copy, PartialEq, Eq, Structural, Debug)]
pub struct Player {}

} // verus!
