//! The hexagon spiral: rings of six legs around the origin, on a lattice in
//! which a step to the right or left moves by two columns and a diagonal
//! step by one column and one row.

use vstd::prelude::*;
use vstd::string::StringExecFns;
use crate::error::ConfigError;
use crate::generator::Generator;
use crate::generator::distance;
use crate::numbers::lemma_root_of_word;
use crate::tile::tile::DrawOrder;
use crate::tile::tile::Tile;
use crate::tile::tile::parse_tile_parameter;
use crate::tile::tile::tile_parameter;

verus! {

/// The index of the first cell of ring `c`, for `c >= 1`. Ring `c` holds
/// the `6 * c` cells from this index on.
pub open spec fn hexagon_ring_start(c: nat) -> nat {
    (1 + 3 * c * (c - 1)) as nat
}

/// The ring that cell `k` lies on. The origin is ring 0.
pub open spec fn hexagon_ring(k: nat) -> nat
    decreases k,
{
    if k == 0 {
        0
    } else {
        let c = hexagon_ring((k - 1) as nat);
        if k < hexagon_ring_start(c + 1) {
            c
        } else {
            c + 1
        }
    }
}

/// The cell at offset `t` of ring `c`, for `c >= 1` and `0 <= t < 6 * c`.
///
/// The ring starts one step above its lower right corner and runs against
/// the clock: up to the right, up to the left, left, down to the left, down
/// to the right, and right along the bottom.
pub open spec fn hexagon_ring_cell(c: int, t: int) -> (int, int) {
    if t < c {
        (c + 1 + t, t + 1 - c)
    } else if t < 2 * c {
        (3 * c - 1 - t, 1 + t - c)
    } else if t < 3 * c {
        (5 * c - 2 - 2 * t, c)
    } else if t < 4 * c {
        (2 * c - 1 - t, 4 * c - 1 - t)
    } else if t < 5 * c {
        (t + 1 - 6 * c, 4 * c - 1 - t)
    } else {
        (2 * t + 2 - 11 * c, -c)
    }
}

/// The lattice coordinates of the `k`-th cell of the hexagon spiral.
pub open spec fn hexagon_spiral_cell(k: nat) -> (int, int) {
    if k == 0 {
        (0, 0)
    } else {
        let c = hexagon_ring(k);
        hexagon_ring_cell(c as int, k - hexagon_ring_start(c))
    }
}

/// The six directions of a step on the hexagon lattice.
#[derive(Clone, Copy, Debug, PartialEq, Eq, Structural)]
pub enum HexagonHeading {
    Right,
    UpRight,
    UpLeft,
    Left,
    DownLeft,
    DownRight,
}

/// What one step in a direction adds to the coordinates.
pub open spec fn hexagon_offset(heading: HexagonHeading) -> (int, int) {
    match heading {
        HexagonHeading::Right => (2, 0),
        HexagonHeading::UpRight => (1, 1),
        HexagonHeading::UpLeft => (-1, 1),
        HexagonHeading::Left => (-2, 0),
        HexagonHeading::DownLeft => (-1, -1),
        HexagonHeading::DownRight => (1, -1),
    }
}

/// The run that follows a finished run: its direction, its length and the
/// ring size that it carries on.
///
/// The run to the right closes a ring with `step` cells and opens the next
/// with one more; the run up to the right is one cell shorter than the ring
/// size, and is left out on the first ring.
pub open spec fn hexagon_turn(heading: HexagonHeading, step: nat) -> (HexagonHeading, nat, nat) {
    match heading {
        HexagonHeading::Right => if step == 1 {
            (HexagonHeading::UpLeft, step, step)
        } else {
            (HexagonHeading::UpRight, (step - 1) as nat, step)
        },
        HexagonHeading::UpRight => (HexagonHeading::UpLeft, step, step),
        HexagonHeading::UpLeft => (HexagonHeading::Left, step, step),
        HexagonHeading::Left => (HexagonHeading::DownLeft, step, step),
        HexagonHeading::DownLeft => (HexagonHeading::DownRight, step, step),
        HexagonHeading::DownRight => (HexagonHeading::Right, step + 1, step + 1),
    }
}

/// The run in which the step into cell `k` is taken: its direction, the
/// number of steps of the run that are still to take, that step included,
/// and the ring size.
pub open spec fn hexagon_run(k: nat) -> (HexagonHeading, nat, nat) {
    if k == 0 {
        (HexagonHeading::Right, 2, 1)
    } else {
        let c = hexagon_ring(k);
        let t = (k - hexagon_ring_start(c)) as nat;
        if t == 0 {
            (HexagonHeading::Right, 1, c)
        } else if t < c {
            (HexagonHeading::UpRight, (c - t) as nat, c)
        } else if t < 2 * c {
            (HexagonHeading::UpLeft, (2 * c - t) as nat, c)
        } else if t < 3 * c {
            (HexagonHeading::Left, (3 * c - t) as nat, c)
        } else if t < 4 * c {
            (HexagonHeading::DownLeft, (4 * c - t) as nat, c)
        } else if t < 5 * c {
            (HexagonHeading::DownRight, (5 * c - t) as nat, c)
        } else {
            (HexagonHeading::Right, (6 * c + 1 - t) as nat, c + 1)
        }
    }
}

/// The cell from which the step into cell `k` starts. Before the first step
/// the walk stands one step to the left of the origin.
pub open spec fn hexagon_before(k: nat) -> (int, int) {
    if k == 0 {
        (-2, 0)
    } else {
        hexagon_spiral_cell((k - 1) as nat)
    }
}

/// The first ring starts at cell 1.
pub proof fn lemma_hexagon_ring_start_first()
    ensures
        hexagon_ring_start(1) == 1,
{
    assert(3 * 1 * (1 - 1) == 0) by (nonlinear_arith);
}

/// Each ring starts where the ring before it ends.
pub proof fn lemma_hexagon_ring_start_next(c: nat)
    requires
        c >= 1,
    ensures
        hexagon_ring_start(c + 1) == hexagon_ring_start(c) + 6 * c,
{
    assert(3 * (c + 1) * c == 3 * c * (c - 1) + 6 * c) by (nonlinear_arith);
    assert(3 * c * (c - 1) >= 0) by (nonlinear_arith)
        requires
            c >= 1,
    ;
}

/// Every cell but the origin lies on the ring between whose first cell and
/// whose successor's first cell its index falls.
pub proof fn lemma_hexagon_ring_bounds(k: nat)
    requires
        k >= 1,
    ensures
        hexagon_ring(k) >= 1,
        hexagon_ring_start(hexagon_ring(k)) <= k < hexagon_ring_start(hexagon_ring(k) + 1),
    decreases k,
{
    if k == 1 {
        assert(hexagon_ring(0) == 0);
        lemma_hexagon_ring_start_first();
        assert(hexagon_ring_start(2) == 7) by (nonlinear_arith);
    } else {
        lemma_hexagon_ring_bounds((k - 1) as nat);
        let c = hexagon_ring((k - 1) as nat);
        lemma_hexagon_ring_start_next(c);
        lemma_hexagon_ring_start_next(c + 1);
    }
}

/// The ring of a cell is the only one between whose first cell and whose
/// successor's first cell the index of the cell falls.
pub proof fn lemma_hexagon_ring_unique(k: nat, c: nat)
    requires
        c >= 1,
        hexagon_ring_start(c) <= k < hexagon_ring_start(c + 1),
    ensures
        hexagon_ring(k) == c,
{
    assert(hexagon_ring_start(c) >= 1) by (nonlinear_arith)
        requires
            c >= 1,
    ;
    lemma_hexagon_ring_bounds(k);
    let q = hexagon_ring(k);
    if q < c {
        assert(hexagon_ring_start(q + 1) <= hexagon_ring_start(c)) by (nonlinear_arith)
            requires
                1 <= q + 1 <= c,
        ;
    } else if q > c {
        assert(hexagon_ring_start(c + 1) <= hexagon_ring_start(q)) by (nonlinear_arith)
            requires
                1 <= c + 1 <= q,
        ;
    }
}

/// Ring `c` holds the `6 * c` cells from its first index on, at the places
/// that the offsets from that index say.
pub proof fn lemma_hexagon_cell_at(c: nat, t: nat)
    requires
        c >= 1,
        t < 6 * c,
    ensures
        hexagon_ring(hexagon_ring_start(c) + t) == c,
        hexagon_spiral_cell(hexagon_ring_start(c) + t) == hexagon_ring_cell(c as int, t as int),
{
    lemma_hexagon_ring_start_next(c);
    lemma_hexagon_ring_unique(hexagon_ring_start(c) + t, c);
    assert(hexagon_ring_start(c) >= 1) by (nonlinear_arith)
        requires
            c >= 1,
    ;
}

/// The step into cell `k` starts at the cell before it and goes in the
/// direction of its run, and the run of the next step is the same run with
/// one step less to take, or the run that follows it.
pub proof fn lemma_hexagon_step(k: nat)
    ensures
        hexagon_spiral_cell(k) == (
            hexagon_before(k).0 + hexagon_offset(hexagon_run(k).0).0,
            hexagon_before(k).1 + hexagon_offset(hexagon_run(k).0).1,
        ),
        hexagon_run(k).1 >= 1,
        hexagon_run(k).1 > 1 ==> hexagon_run(k + 1) == (
            hexagon_run(k).0,
            (hexagon_run(k).1 - 1) as nat,
            hexagon_run(k).2,
        ),
        hexagon_run(k).1 == 1 ==> hexagon_run(k + 1) == hexagon_turn(
            hexagon_run(k).0,
            hexagon_run(k).2,
        ),
{
    if k == 0 {
        assert(hexagon_ring(0) == 0);
        lemma_hexagon_ring_start_first();
        assert(hexagon_ring(1) == 1);
    } else {
        let c = hexagon_ring(k);
        lemma_hexagon_ring_bounds(k);
        lemma_hexagon_ring_start_next(c);
        lemma_hexagon_ring_start_next(c + 1);
        assert(hexagon_ring(k + 1) == if k + 1 < hexagon_ring_start(c + 1) {
            c
        } else {
            c + 1
        });
        if k >= 2 {
            let b = hexagon_ring((k - 1) as nat);
            lemma_hexagon_ring_bounds((k - 1) as nat);
            lemma_hexagon_ring_start_next(b);
        } else {
            assert(hexagon_ring(0) == 0);
            lemma_hexagon_ring_start_first();
        }
    }
}

/// No cell of the spiral lies further from the axes than its ring allows,
/// and the ring is small against the index.
pub proof fn lemma_hexagon_cell_bounds(k: nat)
    ensures
        -2 * hexagon_ring(k) <= hexagon_spiral_cell(k).0 <= 2 * hexagon_ring(k),
        -hexagon_ring(k) <= hexagon_spiral_cell(k).1 <= hexagon_ring(k),
        hexagon_run(k).1 <= hexagon_ring(k) + 2,
        hexagon_run(k).2 <= hexagon_ring(k) + 1,
        hexagon_run(k).2 >= 1,
        k >= 1 ==> (hexagon_ring(k) - 1) * (hexagon_ring(k) - 1) <= k,
{
    if k >= 1 {
        let c = hexagon_ring(k);
        lemma_hexagon_ring_bounds(k);
        lemma_hexagon_ring_start_next(c);
        assert((c - 1) * (c - 1) <= 3 * c * (c - 1)) by (nonlinear_arith)
            requires
                c >= 1,
        ;
    } else {
        assert(hexagon_ring(0) == 0);
    }
}

/// The number of steps on the hexagon lattice from the origin to a cell.
pub open spec fn hexagon_distance(cell: (int, int)) -> int {
    let ax = if cell.0 < 0 {
        -cell.0
    } else {
        cell.0
    };
    let ay = if cell.1 < 0 {
        -cell.1
    } else {
        cell.1
    };
    if ax < ay {
        ay
    } else {
        (ax + ay) / 2
    }
}

/// Every cell of the spiral lies as many steps from the origin as its ring
/// says.
pub proof fn lemma_hexagon_cell_distance(k: nat)
    ensures
        hexagon_distance(hexagon_spiral_cell(k)) == hexagon_ring(k),
{
    if k >= 1 {
        lemma_hexagon_ring_bounds(k);
        lemma_hexagon_ring_start_next(hexagon_ring(k));
    } else {
        assert(hexagon_ring(0) == 0);
    }
}

/// The spiral never comes back to a cell: two indices with the same cell
/// are the same index.
pub proof fn lemma_hexagon_spiral_never_returns(i: nat, j: nat)
    requires
        hexagon_spiral_cell(i) == hexagon_spiral_cell(j),
    ensures
        i == j,
{
    lemma_hexagon_cell_distance(i);
    lemma_hexagon_cell_distance(j);
    if i >= 1 {
        lemma_hexagon_ring_bounds(i);
        lemma_hexagon_ring_start_next(hexagon_ring(i));
    } else {
        assert(hexagon_ring(0) == 0);
    }
    if j >= 1 {
        lemma_hexagon_ring_bounds(j);
        lemma_hexagon_ring_start_next(hexagon_ring(j));
    } else {
        assert(hexagon_ring(0) == 0);
    }
}

/// The walk along the hexagon spiral: where it stands, and the run it is in.
pub struct HexagonWalk {
    heading: HexagonHeading,
    rest: usize,
    step: usize,
    x: isize,
    y: isize,
    taken: Ghost<nat>,
}

impl HexagonWalk {
    #[verifier::type_invariant]
    spec fn valid(self) -> bool {
        &&& self.taken@ <= usize::MAX + 1
        &&& (self.heading, self.rest as nat, self.step as nat) == hexagon_run(self.taken@)
        &&& (self.x as int, self.y as int) == hexagon_before(self.taken@)
    }

    /// The number of steps taken so far.
    pub closed spec fn steps(&self) -> nat {
        self.taken@
    }

    /// A walk that has not taken a step yet.
    pub fn new() -> (walk: HexagonWalk)
        ensures
            walk.steps() == 0,
    {
        HexagonWalk {
            heading: HexagonHeading::Right,
            rest: 2,
            step: 1,
            x: -2,
            y: 0,
            taken: Ghost(0),
        }
    }

    /// Takes one step and returns the cell that it leads to.
    pub fn advance(&mut self) -> (cell: (isize, isize))
        requires
            old(self).steps() <= usize::MAX,
        ensures
            (cell.0 as int, cell.1 as int) == hexagon_spiral_cell(old(self).steps()),
            final(self).steps() == old(self).steps() + 1,
    {
        proof {
            use_type_invariant(&*self);
            let k = self.taken@;
            lemma_hexagon_step(k);
            lemma_hexagon_cell_bounds(k);
            lemma_hexagon_cell_bounds(k + 1);
            if k >= 1 {
                lemma_hexagon_cell_bounds((k - 1) as nat);
                let c = hexagon_ring(k);
                lemma_hexagon_ring_bounds(k);
                lemma_root_of_word((c - 1) as nat, k);
            } else {
                assert(hexagon_ring(0) == 0);
            }
        }
        let (dx, dy) = hexagon_delta(self.heading);
        let x = self.x + dx;
        let y = self.y + dy;
        let (heading, rest, step) = if self.rest > 1 {
            (self.heading, self.rest - 1, self.step)
        } else {
            hexagon_next_run(self.heading, self.step)
        };
        *self = HexagonWalk { heading, rest, step, x, y, taken: Ghost((self.taken@ + 1) as nat) };
        (x, y)
    }
}

/// What one step in a direction adds to the coordinates.
pub fn hexagon_delta(heading: HexagonHeading) -> (d: (isize, isize))
    ensures
        (d.0 as int, d.1 as int) == hexagon_offset(heading),
{
    match heading {
        HexagonHeading::Right => (2, 0),
        HexagonHeading::UpRight => (1, 1),
        HexagonHeading::UpLeft => (-1, 1),
        HexagonHeading::Left => (-2, 0),
        HexagonHeading::DownLeft => (-1, -1),
        HexagonHeading::DownRight => (1, -1),
    }
}

/// The run that follows a finished run in direction `heading` on a ring of
/// size `step`.
pub fn hexagon_next_run(heading: HexagonHeading, step: usize) -> (run: (
    HexagonHeading,
    usize,
    usize,
))
    requires
        1 <= step < usize::MAX,
    ensures
        (run.0, run.1 as nat, run.2 as nat) == hexagon_turn(heading, step as nat),
{
    match heading {
        HexagonHeading::Right => if step == 1 {
            (HexagonHeading::UpLeft, step, step)
        } else {
            (HexagonHeading::UpRight, step - 1, step)
        },
        HexagonHeading::UpRight => (HexagonHeading::UpLeft, step, step),
        HexagonHeading::UpLeft => (HexagonHeading::Left, step, step),
        HexagonHeading::Left => (HexagonHeading::DownLeft, step, step),
        HexagonHeading::DownLeft => (HexagonHeading::DownRight, step, step),
        HexagonHeading::DownRight => (HexagonHeading::Right, step + 1, step + 1),
    }
}

/// Lays the items of a generator out along the hexagon spiral.
pub struct HexagonSpiralTile<G: Generator> {
    gen: G,
    walk: HexagonWalk,
}

impl<G: Generator> HexagonSpiralTile<G> {
    /// The generator is well formed, and no more items were laid out than it has yielded.
    pub closed spec fn wf(&self) -> bool {
        &&& self.gen.wf()
        &&& self.walk.steps() == 0 || self.walk.steps() <= self.gen.cursor() <= usize::MAX + 1
    }

    /// The generator that the tile draws its items from.
    pub closed spec fn source(&self) -> G {
        self.gen
    }

    /// The number of items laid out so far.
    pub closed spec fn steps(&self) -> nat {
        self.walk.steps()
    }

    /// A tile that lays the first item of `gen` on the origin.
    pub fn new(gen: G) -> (tile: Self)
        requires
            gen.wf(),
        ensures
            tile.wf(),
            tile.source() == gen,
            tile.steps() == 0,
    {
        HexagonSpiralTile { gen, walk: HexagonWalk::new() }
    }

    /// Pulls one item from the generator and pairs it with the next cell of
    /// the spiral; yields `None`, and lays nothing out, once the generator
    /// is exhausted.
    pub fn next(&mut self) -> (item: Option<(usize, isize, isize, bool)>)
        requires
            old(self).wf(),
        ensures
            final(self).wf(),
            final(self).source().first() == old(self).source().first(),
            final(self).source().last() == old(self).source().last(),
            forall|i: nat| final(self).source().marks(i) == old(self).source().marks(i),
            match item {
                Some((index, x, y, marked)) => {
                    &&& old(self).source().cursor() <= old(self).source().last()
                    &&& index == old(self).source().cursor()
                    &&& old(self).steps() <= index
                    &&& marked == old(self).source().marks(old(self).source().cursor())
                    &&& (x as int, y as int) == hexagon_spiral_cell(old(self).steps())
                    &&& final(self).source().cursor() == old(self).source().cursor() + 1
                    &&& final(self).steps() == old(self).steps() + 1
                },
                None => {
                    &&& old(self).source().cursor() > old(self).source().last()
                    &&& final(self).source().cursor() == old(self).source().cursor()
                    &&& final(self).steps() == old(self).steps()
                },
            },
    {
        match self.gen.next() {
            Some((n, b)) => {
                let (x, y) = self.walk.advance();
                Some((n, x, y, b))
            },
            None => None,
        }
    }
}

/// The number of rings that a drawing of `n` cells is sized for, the
/// origin counted as a ring: the least `c >= 1` whose first `c` rings hold
/// `n` cells or more, where ring `j` holds `6 * j` cells.
pub open spec fn is_hexagon_cycle(n: nat, c: nat) -> bool {
    &&& c >= 1
    &&& n <= 3 * c * (c - 1)
    &&& c >= 2 ==> 3 * (c - 1) * (c - 2) < n
}

/// A drawing is sized for the rings up to the ring of the cell whose index
/// is the number of cells.
pub proof fn lemma_hexagon_cycle_is_ring(n: nat, c: nat)
    requires
        is_hexagon_cycle(n, c),
    ensures
        c == hexagon_ring(n) + 1,
{
    if c == 1 {
        assert(3 * 1 * (1 - 1) == 0) by (nonlinear_arith);
        assert(hexagon_ring(0) == 0);
    } else {
        let b = (c - 1) as nat;
        assert(hexagon_ring_start(b) == 1 + 3 * (c - 1) * (c - 2));
        assert(hexagon_ring_start(b + 1) == 1 + 3 * c * (c - 1));
        lemma_hexagon_ring_unique(n, b);
    }
}

/// Counts the rings that a drawing of `n` cells is sized for, the origin
/// counted as a ring.
pub fn hexagon_cycles(n: usize) -> (cycle: usize)
    ensures
        is_hexagon_cycle(n as nat, cycle as nat),
{
    let mut m: usize = 0;
    let mut cycle: usize = 1;
    assert(3 * 1 * (1 - 1) == 0) by (nonlinear_arith);
    while m < n
        invariant
            cycle >= 1,
            m == 3 * cycle * (cycle - 1),
            cycle >= 2 ==> 3 * (cycle - 1) * (cycle - 2) < n,
        decreases
                (if m < n {
                    n - m
                } else {
                    0
                }),
    {
        proof {
            assert((cycle - 1) * (cycle - 1) <= 3 * cycle * (cycle - 1)) by (nonlinear_arith)
                requires
                    cycle >= 1,
            ;
            lemma_root_of_word((cycle - 1) as nat, m as nat);
            assert(3 * (cycle + 1) * cycle == 3 * cycle * (cycle - 1) + 6 * cycle)
                by (nonlinear_arith);
        }
        let ring = 6 * cycle;
        cycle = cycle + 1;
        match m.checked_add(ring) {
            Some(sum) => {
                m = sum;
            },
            None => {
                return cycle;
            },
        }
    }
    cycle
}

/// What the first field of a hexagon tile's parameter string asks for:
/// labels on the marked cells if its number is not zero.
pub open spec fn show_label_parameter(tp: Seq<char>) -> Result<bool, ConfigError> {
    match tile_parameter(tp) {
        None => Err(ConfigError::InvalidParameter),
        Some(value) => Ok(value > 0),
    }
}

/// Says what is to be drawn for each item of a generator laid out along
/// the hexagon spiral: a filled cell two columns wide for a marked item,
/// with the index on it where labels are asked for.
pub struct HexagonSpiral<G: Generator> {
    tile: HexagonSpiralTile<G>,
    cycle: usize,
    show_label: bool,
}

impl<G: Generator> HexagonSpiral<G> {
    /// The generator that the tile draws its items from.
    pub closed spec fn source(&self) -> G {
        self.tile.source()
    }

    /// Whether the index is written on the marked cells.
    pub closed spec fn shows_label(&self) -> bool {
        self.show_label
    }

    /// The number of rings that the drawing was sized for.
    pub closed spec fn sized_for(&self) -> nat {
        self.cycle as nat
    }

    /// A tile over `gen` that writes no index.
    pub fn new(gen: G) -> (made: Self)
        requires
            gen.wf(),
        ensures
            made.wf(),
            made.source() == gen,
            made.steps() == 0,
            !made.shows_label(),
            is_hexagon_cycle(distance(gen.first(), gen.last()), made.sized_for()),
    {
        let cycle = hexagon_cycles(gen.data_num());
        HexagonSpiral { tile: HexagonSpiralTile::new(gen), cycle, show_label: false }
    }

    /// A tile over `gen` that writes the index on the marked cells if the
    /// parameter string `tp` gives a number other than zero.
    pub fn from_tp(tp: &str, gen: G) -> (made: Result<Self, ConfigError>)
        requires
            gen.wf(),
        ensures
            match made {
                Ok(tile) => {
                    &&& show_label_parameter(tp@) == Ok::<bool, ConfigError>(tile.shows_label())
                    &&& tile.wf()
                    &&& tile.source() == gen
                    &&& tile.steps() == 0
                    &&& is_hexagon_cycle(distance(gen.first(), gen.last()), tile.sized_for())
                },
                Err(e) => show_label_parameter(tp@) == Err::<bool, ConfigError>(e),
            },
    {
        let mut tile = Self::new(gen);
        match parse_tile_parameter(tp) {
            Ok(value) => {
                tile.show_label = value > 0;
                Ok(tile)
            },
            Err(e) => Err(e),
        }
    }

    /// The number of rings that the drawing is to be sized for, the origin
    /// counted as a ring.
    pub fn cycles(&self) -> (n: usize)
        ensures
            n == self.sized_for(),
    {
        self.cycle
    }

    /// Whether the index is written on the marked cells.
    pub fn show_label(&self) -> (shown: bool)
        ensures
            shown == self.shows_label(),
    {
        self.show_label
    }
}

impl<G: Generator> Tile for HexagonSpiral<G> {
    closed spec fn wf(&self) -> bool {
        self.tile.wf()
    }

    closed spec fn steps(&self) -> nat {
        self.tile.steps()
    }

    open spec fn cursor(&self) -> nat {
        self.source().cursor()
    }

    open spec fn last(&self) -> nat {
        self.source().last()
    }

    open spec fn marks(&self, index: nat) -> bool {
        self.source().marks(index)
    }

    open spec fn cell(&self, k: nat) -> (int, int) {
        hexagon_spiral_cell(k)
    }

    open spec fn width(&self) -> int {
        2
    }

    open spec fn labels(&self, marked: bool) -> bool {
        marked && self.shows_label()
    }

    open spec fn info(&self) -> Seq<char> {
        "tile = spiral6"@
    }

    fn draw_next(&mut self) -> (order: Option<DrawOrder>)
        ensures
            final(self).shows_label() == old(self).shows_label(),
            final(self).sized_for() == old(self).sized_for(),
            final(self).source().first() == old(self).source().first(),
    {
        match self.tile.next() {
            Some((index, x, y, marked)) => {
                proof {
                    let k = old(self).tile.steps();
                    lemma_hexagon_cell_bounds(k);
                    if k >= 1 {
                        lemma_root_of_word((hexagon_ring(k) - 1) as nat, k);
                    } else {
                        assert(hexagon_ring(0) == 0);
                    }
                }
                Some(
                    DrawOrder {
                        index,
                        x,
                        y,
                        far_x: x + 2,
                        far_y: y + 1,
                        fill: marked,
                        label: marked && self.show_label,
                    },
                )
            },
            None => None,
        }
    }

    fn tile_info(&self) -> (info: String) {
        String::from_str("tile = spiral6")
    }
}

} // verus!
