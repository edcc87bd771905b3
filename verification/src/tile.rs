//! Paths over the integer lattice, and the tiles that lay the items of a
//! generator out along them.

pub mod choice;
pub mod hexagon_spiral;
pub mod square_spiral;
pub mod square_zigzag;
pub mod tile;
pub mod types;
