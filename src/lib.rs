//! Simulation core of a small side-scrolling action game drawn with text
//! glyphs: sprites and figures, animated entities, corner-containment
//! collision, rooms with a scrolling view, and the game that ties them
//! together and rasterizes a character grid.

pub mod atoms;
pub mod entities;
pub mod ascii_art;
pub mod special_key_codes;
pub mod game_objects;
pub mod render;
pub mod game;
