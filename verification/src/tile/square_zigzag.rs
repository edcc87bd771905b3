//! The square zigzag: shell after shell is laid around a growing square in
//! the first quadrant, the odd shells up and then to the left, the even
//! shells to the right and then down.

use vstd::prelude::*;
use vstd::string::StringExecFns;
use crate::error::ConfigError;
use crate::generator::Generator;
use crate::generator::distance;
use crate::numbers::isqrt;
use crate::numbers::lemma_isqrt_bounds;
use crate::numbers::lemma_isqrt_unique;
use crate::numbers::lemma_root_of_word;
use crate::tile::tile::DrawOrder;
use crate::tile::tile::Tile;
use crate::tile::tile::label_mode_parameter;
use crate::tile::tile::parse_tile_parameter;
use crate::tile::types::LabelMode;

verus! {

/// The shell that cell `k` lies on: shell `m` holds the `2 * m + 1` cells
/// from index `m * m` on, which are those whose larger coordinate is `m`.
pub open spec fn zigzag_shell(k: nat) -> nat {
    isqrt(k)
}

/// The cell at offset `t` of shell `m`, for `0 <= t <= 2 * m`.
///
/// An odd shell starts on the horizontal axis, goes up to the diagonal and
/// from there to the left; an even shell starts on the vertical axis, goes
/// right to the diagonal and from there down.
pub open spec fn zigzag_shell_cell(m: int, t: int) -> (int, int) {
    if m % 2 == 1 {
        if t <= m {
            (m, t)
        } else {
            (2 * m - t, m)
        }
    } else {
        if t <= m {
            (t, m)
        } else {
            (m, 2 * m - t)
        }
    }
}

/// The lattice coordinates of the `k`-th cell of the square zigzag.
pub open spec fn square_zigzag_cell(k: nat) -> (int, int) {
    let m = zigzag_shell(k);
    zigzag_shell_cell(m as int, k - m * m)
}

/// The six legs of one cycle of the zigzag: a single step to the right
/// onto an odd shell, up and left along it, a single step up onto an even
/// shell, right and down along it.
#[derive(Clone, Copy, Debug, PartialEq, Eq, Structural)]
pub enum ZigzagLeg {
    StepRight,
    Up,
    Left,
    StepUp,
    Right,
    Down,
}

/// What one step on a leg adds to the coordinates.
pub open spec fn zigzag_offset(leg: ZigzagLeg) -> (int, int) {
    match leg {
        ZigzagLeg::StepRight => (1, 0),
        ZigzagLeg::Up => (0, 1),
        ZigzagLeg::Left => (-1, 0),
        ZigzagLeg::StepUp => (0, 1),
        ZigzagLeg::Right => (1, 0),
        ZigzagLeg::Down => (0, -1),
    }
}

/// The leg that follows a finished leg in cycle `cycle`: the leg, its
/// length, and the cycle that it belongs to.
pub open spec fn zigzag_turn(leg: ZigzagLeg, cycle: nat) -> (ZigzagLeg, nat, nat) {
    match leg {
        ZigzagLeg::StepRight => (ZigzagLeg::Up, 2 * cycle + 1, cycle),
        ZigzagLeg::Up => (ZigzagLeg::Left, 2 * cycle + 1, cycle),
        ZigzagLeg::Left => (ZigzagLeg::StepUp, 1, cycle),
        ZigzagLeg::StepUp => (ZigzagLeg::Right, 2 * (cycle + 1), cycle),
        ZigzagLeg::Right => (ZigzagLeg::Down, 2 * (cycle + 1), cycle),
        ZigzagLeg::Down => (ZigzagLeg::StepRight, 1, cycle + 1),
    }
}

/// The leg on which the step into cell `k` is taken, the number of steps
/// of the leg that are still to take, that step included, and the cycle.
/// Cycle `c` lays the shells `2 * c + 1` and `2 * c + 2`.
pub open spec fn zigzag_run(k: nat) -> (ZigzagLeg, nat, nat) {
    if k == 0 {
        (ZigzagLeg::StepRight, 2, 0)
    } else {
        let m = zigzag_shell(k);
        let t = (k - m * m) as nat;
        let c = ((m - 1) / 2) as nat;
        if m % 2 == 1 {
            if t == 0 {
                (ZigzagLeg::StepRight, 1, c)
            } else if t <= m {
                (ZigzagLeg::Up, (m + 1 - t) as nat, c)
            } else {
                (ZigzagLeg::Left, (2 * m + 1 - t) as nat, c)
            }
        } else {
            if t == 0 {
                (ZigzagLeg::StepUp, 1, c)
            } else if t <= m {
                (ZigzagLeg::Right, (m + 1 - t) as nat, c)
            } else {
                (ZigzagLeg::Down, (2 * m + 1 - t) as nat, c)
            }
        }
    }
}

/// The cell from which the step into cell `k` starts. Before the first step
/// the walk stands one step to the left of the origin.
pub open spec fn zigzag_before(k: nat) -> (int, int) {
    if k == 0 {
        (-1, 0)
    } else {
        square_zigzag_cell((k - 1) as nat)
    }
}

/// Cell `k` lies on its shell: from the shell's first index on, and before
/// the next shell's.
pub proof fn lemma_zigzag_shell_bounds(k: nat)
    ensures
        zigzag_shell(k) * zigzag_shell(k) <= k <= zigzag_shell(k) * zigzag_shell(k) + 2
            * zigzag_shell(k),
        k >= 1 ==> zigzag_shell(k) >= 1,
{
    lemma_isqrt_bounds(k);
    let m = isqrt(k);
    assert((m + 1) * (m + 1) == m * m + 2 * m + 1) by (nonlinear_arith);
    if k >= 1 && m == 0 {
        assert((0 + 1) * (0 + 1) == 1nat) by (nonlinear_arith);
    }
}

/// Shell `m` holds the `2 * m + 1` cells from index `m * m` on, at the
/// places that the offsets from that index say.
pub proof fn lemma_zigzag_cell_at(m: nat, t: nat)
    requires
        t <= 2 * m,
    ensures
        zigzag_shell(m * m + t) == m,
        square_zigzag_cell(m * m + t) == zigzag_shell_cell(m as int, t as int),
{
    assert((m + 1) * (m + 1) == m * m + 2 * m + 1) by (nonlinear_arith);
    lemma_isqrt_unique(m * m + t, m);
}

/// The shell of the cell after cell `k` is the same shell, or the next one
/// where cell `k` is the last of its shell.
proof fn lemma_zigzag_shell_next(k: nat)
    ensures
        zigzag_shell(k + 1) == if k + 1 <= zigzag_shell(k) * zigzag_shell(k) + 2 * zigzag_shell(k) {
            zigzag_shell(k)
        } else {
            zigzag_shell(k) + 1
        },
        (zigzag_shell(k) + 1) * (zigzag_shell(k) + 1) == zigzag_shell(k) * zigzag_shell(k) + 2
            * zigzag_shell(k) + 1,
{
    lemma_isqrt_bounds(k);
    let m = isqrt(k);
    assert((m + 1) * (m + 1) == m * m + 2 * m + 1) by (nonlinear_arith);
    assert((m + 2) * (m + 2) == m * m + 4 * m + 4) by (nonlinear_arith);
    if k + 1 <= m * m + 2 * m {
        lemma_isqrt_unique(k + 1, m);
    } else {
        assert((m + 1 + 1) * (m + 1 + 1) == (m + 2) * (m + 2));
        lemma_isqrt_unique(k + 1, m + 1);
    }
}

/// The step into cell `k` starts at the cell before it and goes along its
/// leg, and the leg of the next step is the same leg with one step less to
/// take, or the leg that follows it.
pub proof fn lemma_zigzag_step(k: nat)
    ensures
        square_zigzag_cell(k) == (
            zigzag_before(k).0 + zigzag_offset(zigzag_run(k).0).0,
            zigzag_before(k).1 + zigzag_offset(zigzag_run(k).0).1,
        ),
        zigzag_run(k).1 >= 1,
        zigzag_run(k).1 > 1 ==> zigzag_run(k + 1) == (
            zigzag_run(k).0,
            (zigzag_run(k).1 - 1) as nat,
            zigzag_run(k).2,
        ),
        zigzag_run(k).1 == 1 ==> zigzag_run(k + 1) == zigzag_turn(zigzag_run(k).0, zigzag_run(k).2),
{
    lemma_zigzag_shell_bounds(k);
    lemma_zigzag_shell_next(k);
    if k >= 1 {
        lemma_zigzag_shell_bounds((k - 1) as nat);
        lemma_zigzag_shell_next((k - 1) as nat);
    }
}

/// No coordinate of a cell is negative or larger than its shell, and no leg
/// is longer than the shell and two steps.
pub proof fn lemma_zigzag_cell_bounds(k: nat)
    ensures
        0 <= square_zigzag_cell(k).0 <= zigzag_shell(k),
        0 <= square_zigzag_cell(k).1 <= zigzag_shell(k),
        zigzag_run(k).1 <= zigzag_shell(k) + 2,
        2 * zigzag_run(k).2 <= zigzag_shell(k),
        zigzag_shell(k) * zigzag_shell(k) <= k,
{
    lemma_zigzag_shell_bounds(k);
}

/// The zigzag never comes back to a cell: two indices with the same cell
/// are the same index.
pub proof fn lemma_square_zigzag_never_returns(i: nat, j: nat)
    requires
        square_zigzag_cell(i) == square_zigzag_cell(j),
    ensures
        i == j,
{
    lemma_zigzag_shell_bounds(i);
    lemma_zigzag_shell_bounds(j);
    let m = zigzag_shell(i);
    let n = zigzag_shell(j);
    let ci = square_zigzag_cell(i);
    let cj = square_zigzag_cell(j);
    assert(m == if ci.0 < ci.1 {
        ci.1
    } else {
        ci.0
    });
    assert(n == if cj.0 < cj.1 {
        cj.1
    } else {
        cj.0
    });
}

/// The walk along the square zigzag: where it stands, and the leg it is on.
pub struct SquareZigzagWalk {
    leg: ZigzagLeg,
    rest: usize,
    cycle: usize,
    x: isize,
    y: isize,
    taken: Ghost<nat>,
}

impl SquareZigzagWalk {
    #[verifier::type_invariant]
    spec fn valid(self) -> bool {
        &&& self.taken@ <= usize::MAX + 1
        &&& (self.leg, self.rest as nat, self.cycle as nat) == zigzag_run(self.taken@)
        &&& (self.x as int, self.y as int) == zigzag_before(self.taken@)
    }

    /// The number of steps taken so far.
    pub closed spec fn steps(&self) -> nat {
        self.taken@
    }

    /// A walk that has not taken a step yet.
    pub fn new() -> (walk: SquareZigzagWalk)
        ensures
            walk.steps() == 0,
    {
        SquareZigzagWalk {
            leg: ZigzagLeg::StepRight,
            rest: 2,
            cycle: 0,
            x: -1,
            y: 0,
            taken: Ghost(0),
        }
    }

    /// Takes one step and returns the cell that it leads to.
    pub fn advance(&mut self) -> (cell: (isize, isize))
        requires
            old(self).steps() <= usize::MAX,
        ensures
            (cell.0 as int, cell.1 as int) == square_zigzag_cell(old(self).steps()),
            final(self).steps() == old(self).steps() + 1,
    {
        proof {
            use_type_invariant(&*self);
            let k = self.taken@;
            lemma_zigzag_step(k);
            lemma_zigzag_cell_bounds(k);
            lemma_zigzag_cell_bounds(k + 1);
            if k >= 1 {
                lemma_zigzag_cell_bounds((k - 1) as nat);
            }
            lemma_root_of_word(zigzag_shell(k), k);
        }
        let (dx, dy) = zigzag_delta(self.leg);
        let x = self.x + dx;
        let y = self.y + dy;
        let (leg, rest, cycle) = if self.rest > 1 {
            (self.leg, self.rest - 1, self.cycle)
        } else {
            zigzag_next_run(self.leg, self.cycle)
        };
        *self = SquareZigzagWalk { leg, rest, cycle, x, y, taken: Ghost((self.taken@ + 1) as nat) };
        (x, y)
    }
}

/// What one step on a leg adds to the coordinates.
pub fn zigzag_delta(leg: ZigzagLeg) -> (d: (isize, isize))
    ensures
        (d.0 as int, d.1 as int) == zigzag_offset(leg),
{
    match leg {
        ZigzagLeg::StepRight => (1, 0),
        ZigzagLeg::Up => (0, 1),
        ZigzagLeg::Left => (-1, 0),
        ZigzagLeg::StepUp => (0, 1),
        ZigzagLeg::Right => (1, 0),
        ZigzagLeg::Down => (0, -1),
    }
}

/// The leg that follows a finished leg in cycle `cycle`.
pub fn zigzag_next_run(leg: ZigzagLeg, cycle: usize) -> (run: (ZigzagLeg, usize, usize))
    requires
        2 * cycle + 2 <= usize::MAX,
    ensures
        (run.0, run.1 as nat, run.2 as nat) == zigzag_turn(leg, cycle as nat),
{
    match leg {
        ZigzagLeg::StepRight => (ZigzagLeg::Up, 2 * cycle + 1, cycle),
        ZigzagLeg::Up => (ZigzagLeg::Left, 2 * cycle + 1, cycle),
        ZigzagLeg::Left => (ZigzagLeg::StepUp, 1, cycle),
        ZigzagLeg::StepUp => (ZigzagLeg::Right, 2 * (cycle + 1), cycle),
        ZigzagLeg::Right => (ZigzagLeg::Down, 2 * (cycle + 1), cycle),
        ZigzagLeg::Down => (ZigzagLeg::StepRight, 1, cycle + 1),
    }
}

/// Lays the items of a generator out along the square zigzag.
pub struct SquareZigzagTile<G: Generator> {
    gen: G,
    walk: SquareZigzagWalk,
}

impl<G: Generator> SquareZigzagTile<G> {
    /// The generator is well formed, and no more items were laid out than
    /// it has yielded.
    pub closed spec fn wf(&self) -> bool {
        &&& self.gen.wf()
        &&& self.walk.steps() == 0 || self.walk.steps() <= self.gen.cursor() <= usize::MAX + 1
    }

    /// The generator that the tile draws its items from.
    pub closed spec fn source(&self) -> G {
        self.gen
    }

    /// The number of items laid out so far.
    pub closed spec fn steps(&self) -> nat {
        self.walk.steps()
    }

    /// A tile that lays the first item of `gen` on the origin.
    pub fn new(gen: G) -> (tile: Self)
        requires
            gen.wf(),
        ensures
            tile.wf(),
            tile.source() == gen,
            tile.steps() == 0,
    {
        SquareZigzagTile { gen, walk: SquareZigzagWalk::new() }
    }

    /// Pulls one item from the generator and pairs it with the next cell of
    /// the zigzag; yields `None`, and lays nothing out, once the generator
    /// is exhausted.
    pub fn next(&mut self) -> (item: Option<(usize, isize, isize, bool)>)
        requires
            old(self).wf(),
        ensures
            final(self).wf(),
            final(self).source().first() == old(self).source().first(),
            final(self).source().last() == old(self).source().last(),
            forall|i: nat| final(self).source().marks(i) == old(self).source().marks(i),
            match item {
                Some((index, x, y, marked)) => {
                    &&& old(self).source().cursor() <= old(self).source().last()
                    &&& index == old(self).source().cursor()
                    &&& old(self).steps() <= index
                    &&& marked == old(self).source().marks(old(self).source().cursor())
                    &&& (x as int, y as int) == square_zigzag_cell(old(self).steps())
                    &&& final(self).source().cursor() == old(self).source().cursor() + 1
                    &&& final(self).steps() == old(self).steps() + 1
                },
                None => {
                    &&& old(self).source().cursor() > old(self).source().last()
                    &&& final(self).source().cursor() == old(self).source().cursor()
                    &&& final(self).steps() == old(self).steps()
                },
            },
    {
        match self.gen.next() {
            Some((n, b)) => {
                let (x, y) = self.walk.advance();
                Some((n, x, y, b))
            },
            None => None,
        }
    }
}

/// Says what is to be drawn for each item of a generator laid out along
/// the square zigzag: a filled unit square for a marked item, and the index where
/// the label mode asks for it.
pub struct SquareZigzag<G: Generator> {
    tile: SquareZigzagTile<G>,
    cells: usize,
    label_mode: LabelMode,
}

impl<G: Generator> SquareZigzag<G> {
    /// The generator that the tile draws its items from.
    pub closed spec fn source(&self) -> G {
        self.tile.source()
    }

    /// On which cells the index is written.
    pub closed spec fn mode(&self) -> LabelMode {
        self.label_mode
    }

    /// The number of indices that the drawing was sized for.
    pub closed spec fn sized_for(&self) -> nat {
        self.cells as nat
    }

    /// A tile over `gen` that writes no index.
    pub fn new(gen: G) -> (made: Self)
        requires
            gen.wf(),
        ensures
            made.wf(),
            made.source() == gen,
            made.steps() == 0,
            made.mode() == LabelMode::Off,
            made.sized_for() == distance(gen.first(), gen.last()),
    {
        let cells = gen.data_num();
        SquareZigzag { tile: SquareZigzagTile::new(gen), cells, label_mode: LabelMode::Off }
    }

    /// A tile over `gen` with the label mode that the parameter string
    /// `tp` gives as a number from 0 to 3.
    pub fn from_tp(tp: &str, gen: G) -> (made: Result<Self, ConfigError>)
        requires
            gen.wf(),
        ensures
            match made {
                Ok(tile) => {
                    &&& label_mode_parameter(tp@) == Ok::<LabelMode, ConfigError>(tile.mode())
                    &&& tile.wf()
                    &&& tile.source() == gen
                    &&& tile.steps() == 0
                    &&& tile.sized_for() == distance(gen.first(), gen.last())
                },
                Err(e) => label_mode_parameter(tp@) == Err::<LabelMode, ConfigError>(e),
            },
    {
        let mut tile = Self::new(gen);
        let value = match parse_tile_parameter(tp) {
            Ok(value) => value,
            Err(e) => {
                return Err(e);
            },
        };
        match LabelMode::checked_from(value) {
            Some(mode) => {
                tile.label_mode = mode;
                Ok(tile)
            },
            None => Err(ConfigError::UnknownLabelMode),
        }
    }

    /// The number of indices that the drawing is to be sized for: what the
    /// generator gave as `data_num` before its first item was pulled.
    pub fn data_num(&self) -> (n: usize)
        ensures
            n == self.sized_for(),
    {
        self.cells
    }

    /// On which cells the index is written.
    pub fn label_mode(&self) -> (mode: LabelMode)
        ensures
            mode == self.mode(),
    {
        self.label_mode
    }
}

impl<G: Generator> Tile for SquareZigzag<G> {
    closed spec fn wf(&self) -> bool {
        self.tile.wf()
    }

    closed spec fn steps(&self) -> nat {
        self.tile.steps()
    }

    open spec fn cursor(&self) -> nat {
        self.source().cursor()
    }

    open spec fn last(&self) -> nat {
        self.source().last()
    }

    open spec fn marks(&self, index: nat) -> bool {
        self.source().marks(index)
    }

    open spec fn cell(&self, k: nat) -> (int, int) {
        square_zigzag_cell(k)
    }

    open spec fn width(&self) -> int {
        1
    }

    open spec fn labels(&self, marked: bool) -> bool {
        self.mode().shows(marked)
    }

    open spec fn info(&self) -> Seq<char> {
        "tile = zigzag4"@
    }

    fn draw_next(&mut self) -> (order: Option<DrawOrder>)
        ensures
            final(self).mode() == old(self).mode(),
            final(self).sized_for() == old(self).sized_for(),
            final(self).source().first() == old(self).source().first(),
    {
        match self.tile.next() {
            Some((index, x, y, marked)) => {
                proof {
                    let k = old(self).tile.steps();
                    lemma_zigzag_cell_bounds(k);
                    lemma_root_of_word(zigzag_shell(k), k);
                }
                Some(
                    DrawOrder {
                        index,
                        x,
                        y,
                        far_x: x + 1,
                        far_y: y + 1,
                        fill: marked,
                        label: self.label_mode.labels(marked),
                    },
                )
            },
            None => None,
        }
    }

    fn tile_info(&self) -> (info: String) {
        String::from_str("tile = zigzag4")
    }
}

} // verus!
