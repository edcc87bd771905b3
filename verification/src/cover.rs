//! Covers: tiles that fill the marked cells and write nothing on them.

pub mod square_spiral;
