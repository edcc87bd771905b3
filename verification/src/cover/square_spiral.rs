//! The cover along the square spiral.

use vstd::prelude::*;
use crate::generator::Generator;
use crate::generator::distance;
use crate::numbers::lemma_root_of_word;
use crate::tile::square_spiral::SquareSpiralTile;
use crate::tile::square_spiral::lemma_square_cell_bounds;
use crate::tile::square_spiral::square_ring;
use crate::tile::square_spiral::square_spiral_cell;
use crate::tile::tile::DrawOrder;

verus! {

/// Lays the items of a generator out along the square spiral.
pub struct SquareSpiralCover<G: Generator> {
    tile: SquareSpiralTile<G>,
}

impl<G: Generator> SquareSpiralCover<G> {
    /// The generator is well formed, and no more items were laid out than
    /// it has yielded.
    pub closed spec fn wf(&self) -> bool {
        self.tile.wf()
    }

    /// The generator that the cover draws its items from.
    pub closed spec fn source(&self) -> G {
        self.tile.source()
    }

    /// The number of items laid out so far.
    pub closed spec fn steps(&self) -> nat {
        self.tile.steps()
    }

    /// A cover that lays the first item of `gen` on the origin.
    pub fn new(gen: G) -> (cover: Self)
        requires
            gen.wf(),
        ensures
            cover.wf(),
            cover.source() == gen,
            cover.steps() == 0,
    {
        SquareSpiralCover { tile: SquareSpiralTile::new(gen) }
    }

    /// Pulls one item from the generator and pairs it with the next cell of
    /// the spiral; yields `None`, and lays nothing out, once the generator
    /// is exhausted.
    pub fn next(&mut self) -> (item: Option<(usize, isize, isize, bool)>)
        requires
            old(self).wf(),
        ensures
            final(self).wf(),
            final(self).source().first() == old(self).source().first(),
            final(self).source().last() == old(self).source().last(),
            forall|i: nat| final(self).source().marks(i) == old(self).source().marks(i),
            match item {
                Some((index, x, y, marked)) => {
                    &&& old(self).source().cursor() <= old(self).source().last()
                    &&& index == old(self).source().cursor()
                    &&& old(self).steps() <= index
                    &&& marked == old(self).source().marks(old(self).source().cursor())
                    &&& (x as int, y as int) == square_spiral_cell(old(self).steps())
                    &&& final(self).source().cursor() == old(self).source().cursor() + 1
                    &&& final(self).steps() == old(self).steps() + 1
                },
                None => {
                    &&& old(self).source().cursor() > old(self).source().last()
                    &&& final(self).source().cursor() == old(self).source().cursor()
                    &&& final(self).steps() == old(self).steps()
                },
            },
    {
        self.tile.next()
    }
}

/// Says what is to be drawn for each item of a generator laid out along
/// the square spiral: a filled unit square for a marked item, and nothing
/// for any other.
pub struct SquareSpiral<G: Generator> {
    cover: SquareSpiralCover<G>,
    cells: usize,
}

impl<G: Generator> SquareSpiral<G> {
    /// The cover under the drawing is well formed.
    pub closed spec fn wf(&self) -> bool {
        self.cover.wf()
    }

    /// The generator that the cover draws its items from.
    pub closed spec fn source(&self) -> G {
        self.cover.source()
    }

    /// The number of items laid out so far.
    pub closed spec fn steps(&self) -> nat {
        self.cover.steps()
    }

    /// The number of indices that the drawing was sized for.
    pub closed spec fn sized_for(&self) -> nat {
        self.cells as nat
    }

    /// A cover over `gen`.
    pub fn new(gen: G) -> (made: Self)
        requires
            gen.wf(),
        ensures
            made.wf(),
            made.source() == gen,
            made.steps() == 0,
            made.sized_for() == distance(gen.first(), gen.last()),
    {
        let cells = gen.data_num();
        SquareSpiral { cover: SquareSpiralCover::new(gen), cells }
    }

    /// The number of indices that the drawing is to be sized for: what the
    /// generator gave as `data_num` before its first item was pulled.
    pub fn data_num(&self) -> (n: usize)
        ensures
            n == self.sized_for(),
    {
        self.cells
    }

    /// Lays out the next item and says what is to be drawn for it; yields
    /// `None`, and lays nothing out, once the generator is exhausted.
    pub fn draw_next(&mut self) -> (order: Option<DrawOrder>)
        requires
            old(self).wf(),
        ensures
            final(self).wf(),
            final(self).sized_for() == old(self).sized_for(),
            final(self).source().first() == old(self).source().first(),
            final(self).source().last() == old(self).source().last(),
            forall|i: nat| final(self).source().marks(i) == old(self).source().marks(i),
            match order {
                Some(o) => {
                    &&& old(self).source().cursor() <= old(self).source().last()
                    &&& o.index == old(self).source().cursor()
                    &&& o.fill == old(self).source().marks(old(self).source().cursor())
                    &&& !o.label
                    &&& (o.x as int, o.y as int) == square_spiral_cell(old(self).steps())
                    &&& o.far_x == o.x + 1
                    &&& o.far_y == o.y + 1
                    &&& final(self).source().cursor() == old(self).source().cursor() + 1
                    &&& final(self).steps() == old(self).steps() + 1
                },
                None => {
                    &&& old(self).source().cursor() > old(self).source().last()
                    &&& final(self).source().cursor() == old(self).source().cursor()
                    &&& final(self).steps() == old(self).steps()
                },
            },
    {
        match self.cover.next() {
            Some((index, x, y, marked)) => {
                proof {
                    let k = old(self).cover.steps();
                    lemma_square_cell_bounds(k);
                    lemma_root_of_word(square_ring(k), k);
                }
                Some(
                    DrawOrder {
                        index,
                        x,
                        y,
                        far_x: x + 1,
                        far_y: y + 1,
                        fill: marked,
                        label: false,
                    },
                )
            },
            None => None,
        }
    }
}

} // verus!
