//! What all tiles have in common: the order to draw one cell, and the
//! interface through which a renderer pulls such orders.

use vstd::prelude::*;
use crate::error::ConfigError;
use crate::text::chars_of;
use crate::text::first_field;
use crate::text::number;
use crate::text::parse_number;
use crate::text::split_field;
use crate::tile::types::LabelMode;

verus! {

/// The width in pixels of the band that is kept free around a drawing.
pub const MARGIN: usize = 80;

/// What is to be drawn for one item of a generator: the cell as a
/// rectangle between two corners on the lattice, whether it is filled, and
/// whether the index is written on it.
#[derive(Clone, Copy, Debug, PartialEq, Eq, Structural)]
pub struct DrawOrder {
    pub index: usize,
    pub x: isize,
    pub y: isize,
    pub far_x: isize,
    pub far_y: isize,
    pub fill: bool,
    pub label: bool,
}

/// A tile lays the items of a generator out along a path and says for each
/// what is to be drawn. It draws nothing itself: a renderer pulls the
/// orders one by one and stops at the first that it cannot carry out.
pub trait Tile {
    /// Whether the tile's state is one that its constructors and
    /// `draw_next` can have led to.
    spec fn wf(&self) -> bool;

    /// The number of items laid out so far.
    spec fn steps(&self) -> nat;

    /// The index of the item that is laid out next, if there is one.
    spec fn cursor(&self) -> nat;

    /// The index of the last item.
    spec fn last(&self) -> nat;

    /// Whether the item with the given index is marked.
    spec fn marks(&self, index: nat) -> bool;

    /// The cell of the `k`-th item laid out, by its lower left corner on
    /// the lattice.
    spec fn cell(&self, k: nat) -> (int, int);

    /// The number of lattice columns that a cell covers.
    spec fn width(&self) -> int;

    /// Whether the index is written on a cell, given whether it is marked.
    spec fn labels(&self, marked: bool) -> bool;

    /// The text that describes the tile.
    spec fn info(&self) -> Seq<char>;

    /// Lays out the next item and says what is to be drawn for it; yields
    /// `None`, and lays nothing out, once the generator is exhausted.
    fn draw_next(&mut self) -> (order: Option<DrawOrder>)
        requires
            old(self).wf(),
        ensures
            final(self).wf(),
            final(self).last() == old(self).last(),
            final(self).width() == old(self).width(),
            final(self).info() == old(self).info(),
            forall|i: nat| final(self).marks(i) == old(self).marks(i),
            forall|k: nat| final(self).cell(k) == old(self).cell(k),
            forall|b: bool| final(self).labels(b) == old(self).labels(b),
            match order {
                Some(o) => {
                    &&& old(self).cursor() <= old(self).last()
                    &&& o.index == old(self).cursor()
                    &&& o.fill == old(self).marks(old(self).cursor())
                    &&& o.label == old(self).labels(o.fill)
                    &&& (o.x as int, o.y as int) == old(self).cell(old(self).steps())
                    &&& o.far_x == o.x + old(self).width()
                    &&& o.far_y == o.y + 1
                    &&& final(self).cursor() == old(self).cursor() + 1
                    &&& final(self).steps() == old(self).steps() + 1
                },
                None => {
                    &&& old(self).cursor() > old(self).last()
                    &&& final(self).cursor() == old(self).cursor()
                    &&& final(self).steps() == old(self).steps()
                },
            },
    ;

    /// A line that names the tile.
    fn tile_info(&self) -> (info: String)
        requires
            self.wf(),
        ensures
            info@ == self.info(),
    ;
}

/// The number that the first field of a tile's parameter string stands
/// for; further fields are not looked at.
pub open spec fn tile_parameter(tp: Seq<char>) -> Option<usize> {
    number(first_field(tp, ':'))
}

/// What the first field of a tile's parameter string asks for: the label
/// mode that its number stands for.
pub open spec fn label_mode_parameter(tp: Seq<char>) -> Result<LabelMode, ConfigError> {
    match tile_parameter(tp) {
        None => Err(ConfigError::InvalidParameter),
        Some(value) => match LabelMode::of(value as nat) {
            None => Err(ConfigError::UnknownLabelMode),
            Some(mode) => Ok(mode),
        },
    }
}

/// Reads the number in the first field of a tile's parameter string.
pub fn parse_tile_parameter(tp: &str) -> (value: Result<usize, ConfigError>)
    ensures
        match value {
            Ok(v) => tile_parameter(tp@) == Some(v),
            Err(e) => tile_parameter(tp@) is None && e == ConfigError::InvalidParameter,
        },
{
    let chars = chars_of(tp);
    let (field, _) = split_field(chars.as_slice(), ':');
    match parse_number(field) {
        Some(v) => Ok(v),
        None => Err(ConfigError::InvalidParameter),
    }
}

} // verus!
