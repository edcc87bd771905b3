//! The square spiral: runs of length 1, 1, 2, 2, 3, 3, ... that turn to the
//! left after each run, so that ring after ring closes around the origin.

use vstd::prelude::*;
use vstd::string::StringExecFns;
use crate::error::ConfigError;
use crate::generator::Generator;
use crate::generator::distance;
use crate::numbers::lemma_root_of_word;
use crate::tile::tile::DrawOrder;
use crate::tile::tile::Tile;
use crate::tile::tile::label_mode_parameter;
use crate::tile::tile::parse_tile_parameter;
use crate::tile::types::LabelMode;

verus! {

/// The index of the first cell of ring `r`, for `r >= 1`. Ring `r` holds
/// the `8 * r` cells from this index on: those at distance `r` from the
/// origin, where the distance is the larger of the two coordinates' sizes.
pub open spec fn square_ring_start(r: nat) -> nat {
    ((2 * r - 1) * (2 * r - 1)) as nat
}

/// The ring that cell `k` lies on. The origin is ring 0.
pub open spec fn square_ring(k: nat) -> nat
    decreases k,
{
    if k == 0 {
        0
    } else {
        let r = square_ring((k - 1) as nat);
        if k < square_ring_start(r + 1) {
            r
        } else {
            r + 1
        }
    }
}

/// The cell at offset `t` of ring `r`, for `r >= 1` and `0 <= t < 8 * r`.
///
/// The ring starts one step above its lower right corner and runs against
/// the clock: up the right side, left along the top, down the left side and
/// right along the bottom.
pub open spec fn square_ring_cell(r: int, t: int) -> (int, int) {
    if t < 2 * r {
        (r, t + 1 - r)
    } else if t < 4 * r {
        (3 * r - 1 - t, r)
    } else if t < 6 * r {
        (-r, 5 * r - 1 - t)
    } else {
        (t + 1 - 7 * r, -r)
    }
}

/// The lattice coordinates of the `k`-th cell of the square spiral.
pub open spec fn square_spiral_cell(k: nat) -> (int, int) {
    if k == 0 {
        (0, 0)
    } else {
        let r = square_ring(k);
        square_ring_cell(r as int, k - square_ring_start(r))
    }
}

/// The four directions of a step on the square lattice.
#[derive(Clone, Copy, Debug, PartialEq, Eq, Structural)]
pub enum SquareHeading {
    Up,
    Left,
    Down,
    Right,
}

/// What one step in a direction adds to the coordinates.
pub open spec fn square_offset(heading: SquareHeading) -> (int, int) {
    match heading {
        SquareHeading::Up => (0, 1),
        SquareHeading::Left => (-1, 0),
        SquareHeading::Down => (0, -1),
        SquareHeading::Right => (1, 0),
    }
}

/// The run that follows a finished run of length `step`: its direction, its
/// length, and that length once more as the length to carry on.
///
/// The runs to the left and to the right are one cell longer than the run
/// before them.
pub open spec fn square_turn(heading: SquareHeading, step: nat) -> (SquareHeading, nat, nat) {
    match heading {
        SquareHeading::Up => (SquareHeading::Left, step + 1, step + 1),
        SquareHeading::Left => (SquareHeading::Down, step, step),
        SquareHeading::Down => (SquareHeading::Right, step + 1, step + 1),
        SquareHeading::Right => (SquareHeading::Up, step, step),
    }
}

/// The run in which the step into cell `k` is taken: its direction, the
/// number of steps of the run that are still to take, that step included,
/// and the length of the run.
pub open spec fn square_run(k: nat) -> (SquareHeading, nat, nat) {
    if k == 0 {
        (SquareHeading::Right, 2, 1)
    } else {
        let r = square_ring(k);
        let t = (k - square_ring_start(r)) as nat;
        if t == 0 {
            (SquareHeading::Right, 1, (2 * r - 1) as nat)
        } else if t < 2 * r {
            (SquareHeading::Up, (2 * r - t) as nat, (2 * r - 1) as nat)
        } else if t < 4 * r {
            (SquareHeading::Left, (4 * r - t) as nat, 2 * r)
        } else if t < 6 * r {
            (SquareHeading::Down, (6 * r - t) as nat, 2 * r)
        } else {
            (SquareHeading::Right, (8 * r + 1 - t) as nat, 2 * r + 1)
        }
    }
}

/// The cell from which the step into cell `k` starts. Before the first step
/// the walk stands one step to the left of the origin.
pub open spec fn square_before(k: nat) -> (int, int) {
    if k == 0 {
        (-1, 0)
    } else {
        square_spiral_cell((k - 1) as nat)
    }
}

/// The first ring starts at cell 1.
pub proof fn lemma_square_ring_start_first()
    ensures
        square_ring_start(1) == 1,
{
    assert((2 * 1 - 1) * (2 * 1 - 1) == 1) by (nonlinear_arith);
}

/// Each ring starts where the ring before it ends.
pub proof fn lemma_square_ring_start_next(r: nat)
    requires
        r >= 1,
    ensures
        square_ring_start(r + 1) == square_ring_start(r) + 8 * r,
{
    assert((2 * (r + 1) - 1) * (2 * (r + 1) - 1) == (2 * r - 1) * (2 * r - 1) + 8 * r)
        by (nonlinear_arith);
    assert((2 * r - 1) * (2 * r - 1) >= 0) by (nonlinear_arith);
}

/// Every cell but the origin lies on the ring between whose first cell and
/// whose successor's first cell its index falls.
pub proof fn lemma_square_ring_bounds(k: nat)
    requires
        k >= 1,
    ensures
        square_ring(k) >= 1,
        square_ring_start(square_ring(k)) <= k < square_ring_start(square_ring(k) + 1),
    decreases k,
{
    if k == 1 {
        assert(square_ring(0) == 0);
        lemma_square_ring_start_first();
        assert(square_ring_start(2) == 9) by (nonlinear_arith);
    } else {
        lemma_square_ring_bounds((k - 1) as nat);
        let r = square_ring((k - 1) as nat);
        lemma_square_ring_start_next(r);
        lemma_square_ring_start_next(r + 1);
    }
}

/// The ring of a cell is the only one between whose first cell and whose
/// successor's first cell the index of the cell falls.
pub proof fn lemma_square_ring_unique(k: nat, r: nat)
    requires
        r >= 1,
        square_ring_start(r) <= k < square_ring_start(r + 1),
    ensures
        square_ring(k) == r,
{
    assert(square_ring_start(r) >= 1) by (nonlinear_arith)
        requires
            r >= 1,
    ;
    lemma_square_ring_bounds(k);
    let q = square_ring(k);
    if q < r {
        assert(square_ring_start(q + 1) <= square_ring_start(r)) by (nonlinear_arith)
            requires
                1 <= q + 1 <= r,
        ;
    } else if q > r {
        assert(square_ring_start(r + 1) <= square_ring_start(q)) by (nonlinear_arith)
            requires
                1 <= r + 1 <= q,
        ;
    }
}

/// Ring `r` holds the `8 * r` cells from its first index on, at the places
/// that the offsets from that index say.
pub proof fn lemma_square_cell_at(r: nat, t: nat)
    requires
        r >= 1,
        t < 8 * r,
    ensures
        square_ring(square_ring_start(r) + t) == r,
        square_spiral_cell(square_ring_start(r) + t) == square_ring_cell(r as int, t as int),
{
    lemma_square_ring_start_next(r);
    lemma_square_ring_unique(square_ring_start(r) + t, r);
    assert(square_ring_start(r) >= 1) by (nonlinear_arith)
        requires
            r >= 1,
    ;
}

/// The step into cell `k` starts at the cell before it and goes in the
/// direction of its run, and the run of the next step is the same run with
/// one step less to take, or the run that follows it.
pub proof fn lemma_square_step(k: nat)
    ensures
        square_spiral_cell(k) == (
            square_before(k).0 + square_offset(square_run(k).0).0,
            square_before(k).1 + square_offset(square_run(k).0).1,
        ),
        square_run(k).1 >= 1,
        square_run(k).1 > 1 ==> square_run(k + 1) == (
            square_run(k).0,
            (square_run(k).1 - 1) as nat,
            square_run(k).2,
        ),
        square_run(k).1 == 1 ==> square_run(k + 1) == square_turn(square_run(k).0, square_run(k).2),
{
    if k == 0 {
        assert(square_ring(0) == 0);
        lemma_square_ring_start_first();
        assert(square_ring(1) == 1);
    } else {
        let r = square_ring(k);
        lemma_square_ring_bounds(k);
        lemma_square_ring_start_next(r);
        lemma_square_ring_start_next(r + 1);
        assert(square_ring(k + 1) == if k + 1 < square_ring_start(r + 1) {
            r
        } else {
            r + 1
        });
        if k >= 2 {
            let b = square_ring((k - 1) as nat);
            lemma_square_ring_bounds((k - 1) as nat);
            lemma_square_ring_start_next(b);
        } else {
            assert(square_ring(0) == 0);
            lemma_square_ring_start_first();
        }
    }
}

/// No coordinate of a cell is larger than its ring, no run is longer than
/// two rings and a step, and the ring is small against the index.
pub proof fn lemma_square_cell_bounds(k: nat)
    ensures
        -square_ring(k) <= square_spiral_cell(k).0 <= square_ring(k),
        -square_ring(k) <= square_spiral_cell(k).1 <= square_ring(k),
        square_run(k).1 <= 2 * square_ring(k) + 2,
        1 <= square_run(k).2 <= 2 * square_ring(k) + 1,
        square_ring(k) * square_ring(k) <= k,
{
    if k >= 1 {
        let r = square_ring(k);
        lemma_square_ring_bounds(k);
        lemma_square_ring_start_next(r);
        assert(r * r <= (2 * r - 1) * (2 * r - 1)) by (nonlinear_arith)
            requires
                r >= 1,
        ;
    } else {
        assert(square_ring(0) == 0);
        assert(0 * 0 == 0nat) by (nonlinear_arith);
    }
}

/// The larger of the sizes of its two coordinates is the ring of a cell.
pub open spec fn square_distance(cell: (int, int)) -> int {
    let ax = if cell.0 < 0 {
        -cell.0
    } else {
        cell.0
    };
    let ay = if cell.1 < 0 {
        -cell.1
    } else {
        cell.1
    };
    if ax < ay {
        ay
    } else {
        ax
    }
}

/// Every cell of the spiral lies at the distance of its ring from the
/// origin.
pub proof fn lemma_square_cell_distance(k: nat)
    ensures
        square_distance(square_spiral_cell(k)) == square_ring(k),
{
    if k >= 1 {
        lemma_square_ring_bounds(k);
        lemma_square_ring_start_next(square_ring(k));
    } else {
        assert(square_ring(0) == 0);
    }
}

/// The spiral never comes back to a cell: two indices with the same cell
/// are the same index.
pub proof fn lemma_square_spiral_never_returns(i: nat, j: nat)
    requires
        square_spiral_cell(i) == square_spiral_cell(j),
    ensures
        i == j,
{
    lemma_square_cell_distance(i);
    lemma_square_cell_distance(j);
    if i >= 1 {
        lemma_square_ring_bounds(i);
        lemma_square_ring_start_next(square_ring(i));
    } else {
        assert(square_ring(0) == 0);
    }
    if j >= 1 {
        lemma_square_ring_bounds(j);
        lemma_square_ring_start_next(square_ring(j));
    } else {
        assert(square_ring(0) == 0);
    }
}

/// The walk along the square spiral: where it stands, and the run it is in.
pub struct SquareSpiralWalk {
    heading: SquareHeading,
    rest: usize,
    step: usize,
    x: isize,
    y: isize,
    taken: Ghost<nat>,
}

impl SquareSpiralWalk {
    #[verifier::type_invariant]
    spec fn valid(self) -> bool {
        &&& self.taken@ <= usize::MAX + 1
        &&& (self.heading, self.rest as nat, self.step as nat) == square_run(self.taken@)
        &&& (self.x as int, self.y as int) == square_before(self.taken@)
    }

    /// The number of steps taken so far.
    pub closed spec fn steps(&self) -> nat {
        self.taken@
    }

    /// A walk that has not taken a step yet.
    pub fn new() -> (walk: SquareSpiralWalk)
        ensures
            walk.steps() == 0,
    {
        SquareSpiralWalk {
            heading: SquareHeading::Right,
            rest: 2,
            step: 1,
            x: -1,
            y: 0,
            taken: Ghost(0),
        }
    }

    /// Takes one step and returns the cell that it leads to.
    pub fn advance(&mut self) -> (cell: (isize, isize))
        requires
            old(self).steps() <= usize::MAX,
        ensures
            (cell.0 as int, cell.1 as int) == square_spiral_cell(old(self).steps()),
            final(self).steps() == old(self).steps() + 1,
    {
        proof {
            use_type_invariant(&*self);
            let k = self.taken@;
            lemma_square_step(k);
            lemma_square_cell_bounds(k);
            lemma_square_cell_bounds(k + 1);
            if k >= 1 {
                lemma_square_cell_bounds((k - 1) as nat);
            }
            lemma_root_of_word(square_ring(k), k);
        }
        let (dx, dy) = square_delta(self.heading);
        let x = self.x + dx;
        let y = self.y + dy;
        let (heading, rest, step) = if self.rest > 1 {
            (self.heading, self.rest - 1, self.step)
        } else {
            square_next_run(self.heading, self.step)
        };
        *self = SquareSpiralWalk { heading, rest, step, x, y, taken: Ghost((self.taken@ + 1) as nat) };
        (x, y)
    }
}

/// What one step in a direction adds to the coordinates.
pub fn square_delta(heading: SquareHeading) -> (d: (isize, isize))
    ensures
        (d.0 as int, d.1 as int) == square_offset(heading),
{
    match heading {
        SquareHeading::Up => (0, 1),
        SquareHeading::Left => (-1, 0),
        SquareHeading::Down => (0, -1),
        SquareHeading::Right => (1, 0),
    }
}

/// The run that follows a finished run of length `step` in direction
/// `heading`.
pub fn square_next_run(heading: SquareHeading, step: usize) -> (run: (SquareHeading, usize, usize))
    requires
        step < usize::MAX,
    ensures
        (run.0, run.1 as nat, run.2 as nat) == square_turn(heading, step as nat),
{
    match heading {
        SquareHeading::Up => (SquareHeading::Left, step + 1, step + 1),
        SquareHeading::Left => (SquareHeading::Down, step, step),
        SquareHeading::Down => (SquareHeading::Right, step + 1, step + 1),
        SquareHeading::Right => (SquareHeading::Up, step, step),
    }
}

/// Lays the items of a generator out along the square spiral.
pub struct SquareSpiralTile<G: Generator> {
    gen: G,
    walk: SquareSpiralWalk,
}

impl<G: Generator> SquareSpiralTile<G> {
    /// The generator is well formed, and no more items were laid out than
    /// it has yielded.
    pub closed spec fn wf(&self) -> bool {
        &&& self.gen.wf()
        &&& self.walk.steps() == 0 || self.walk.steps() <= self.gen.cursor() <= usize::MAX + 1
    }

    /// The generator that the tile draws its items from.
    pub closed spec fn source(&self) -> G {
        self.gen
    }

    /// The number of items laid out so far.
    pub closed spec fn steps(&self) -> nat {
        self.walk.steps()
    }

    /// A tile that lays the first item of `gen` on the origin.
    pub fn new(gen: G) -> (tile: Self)
        requires
            gen.wf(),
        ensures
            tile.wf(),
            tile.source() == gen,
            tile.steps() == 0,
    {
        SquareSpiralTile { gen, walk: SquareSpiralWalk::new() }
    }

    /// Pulls one item from the generator and pairs it with the next cell of
    /// the spiral; yields `None`, and lays nothing out, once the generator
    /// is exhausted.
    pub fn next(&mut self) -> (item: Option<(usize, isize, isize, bool)>)
        requires
            old(self).wf(),
        ensures
            final(self).wf(),
            final(self).source().first() == old(self).source().first(),
            final(self).source().last() == old(self).source().last(),
            forall|i: nat| final(self).source().marks(i) == old(self).source().marks(i),
            match item {
                Some((index, x, y, marked)) => {
                    &&& old(self).source().cursor() <= old(self).source().last()
                    &&& index == old(self).source().cursor()
                    &&& old(self).steps() <= index
                    &&& marked == old(self).source().marks(old(self).source().cursor())
                    &&& (x as int, y as int) == square_spiral_cell(old(self).steps())
                    &&& final(self).source().cursor() == old(self).source().cursor() + 1
                    &&& final(self).steps() == old(self).steps() + 1
                },
                None => {
                    &&& old(self).source().cursor() > old(self).source().last()
                    &&& final(self).source().cursor() == old(self).source().cursor()
                    &&& final(self).steps() == old(self).steps()
                },
            },
    {
        match self.gen.next() {
            Some((n, b)) => {
                let (x, y) = self.walk.advance();
                Some((n, x, y, b))
            },
            None => None,
        }
    }
}

/// Says what is to be drawn for each item of a generator laid out along
/// the square spiral: a filled unit square for a marked item, and the index where
/// the label mode asks for it.
pub struct SquareSpiral<G: Generator> {
    tile: SquareSpiralTile<G>,
    cells: usize,
    label_mode: LabelMode,
}

impl<G: Generator> SquareSpiral<G> {
    /// The generator that the tile draws its items from.
    pub closed spec fn source(&self) -> G {
        self.tile.source()
    }

    /// On which cells the index is written.
    pub closed spec fn mode(&self) -> LabelMode {
        self.label_mode
    }

    /// The number of indices that the drawing was sized for.
    pub closed spec fn sized_for(&self) -> nat {
        self.cells as nat
    }

    /// A tile over `gen` that writes no index.
    pub fn new(gen: G) -> (made: Self)
        requires
            gen.wf(),
        ensures
            made.wf(),
            made.source() == gen,
            made.steps() == 0,
            made.mode() == LabelMode::Off,
            made.sized_for() == distance(gen.first(), gen.last()),
    {
        let cells = gen.data_num();
        SquareSpiral { tile: SquareSpiralTile::new(gen), cells, label_mode: LabelMode::Off }
    }

    /// A tile over `gen` with the label mode that the parameter string
    /// `tp` gives as a number from 0 to 3.
    pub fn from_tp(tp: &str, gen: G) -> (made: Result<Self, ConfigError>)
        requires
            gen.wf(),
        ensures
            match made {
                Ok(tile) => {
                    &&& label_mode_parameter(tp@) == Ok::<LabelMode, ConfigError>(tile.mode())
                    &&& tile.wf()
                    &&& tile.source() == gen
                    &&& tile.steps() == 0
                    &&& tile.sized_for() == distance(gen.first(), gen.last())
                },
                Err(e) => label_mode_parameter(tp@) == Err::<LabelMode, ConfigError>(e),
            },
    {
        let mut tile = Self::new(gen);
        let value = match parse_tile_parameter(tp) {
            Ok(value) => value,
            Err(e) => {
                return Err(e);
            },
        };
        match LabelMode::checked_from(value) {
            Some(mode) => {
                tile.label_mode = mode;
                Ok(tile)
            },
            None => Err(ConfigError::UnknownLabelMode),
        }
    }

    /// The number of indices that the drawing is to be sized for: what the
    /// generator gave as `data_num` before its first item was pulled.
    pub fn data_num(&self) -> (n: usize)
        ensures
            n == self.sized_for(),
    {
        self.cells
    }

    /// On which cells the index is written.
    pub fn label_mode(&self) -> (mode: LabelMode)
        ensures
            mode == self.mode(),
    {
        self.label_mode
    }
}

impl<G: Generator> Tile for SquareSpiral<G> {
    closed spec fn wf(&self) -> bool {
        self.tile.wf()
    }

    closed spec fn steps(&self) -> nat {
        self.tile.steps()
    }

    open spec fn cursor(&self) -> nat {
        self.source().cursor()
    }

    open spec fn last(&self) -> nat {
        self.source().last()
    }

    open spec fn marks(&self, index: nat) -> bool {
        self.source().marks(index)
    }

    open spec fn cell(&self, k: nat) -> (int, int) {
        square_spiral_cell(k)
    }

    open spec fn width(&self) -> int {
        1
    }

    open spec fn labels(&self, marked: bool) -> bool {
        self.mode().shows(marked)
    }

    open spec fn info(&self) -> Seq<char> {
        "tile = spiral4"@
    }

    fn draw_next(&mut self) -> (order: Option<DrawOrder>)
        ensures
            final(self).mode() == old(self).mode(),
            final(self).sized_for() == old(self).sized_for(),
            final(self).source().first() == old(self).source().first(),
    {
        match self.tile.next() {
            Some((index, x, y, marked)) => {
                proof {
                    let k = old(self).tile.steps();
                    lemma_square_cell_bounds(k);
                    lemma_root_of_word(square_ring(k), k);
                }
                Some(
                    DrawOrder {
                        index,
                        x,
                        y,
                        far_x: x + 1,
                        far_y: y + 1,
                        fill: marked,
                        label: self.label_mode.labels(marked),
                    },
                )
            },
            None => None,
        }
    }

    fn tile_info(&self) -> (info: String) {
        String::from_str("tile = spiral4")
    }
}

} // verus!
