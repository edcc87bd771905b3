//! The choice of a tile by its name.

use vstd::prelude::*;
use crate::error::ConfigError;
use crate::generator::Generator;
use crate::generator::distance;
use crate::text::same_text;
use crate::tile::hexagon_spiral::HexagonSpiral;
use crate::tile::hexagon_spiral::is_hexagon_cycle;
use crate::tile::hexagon_spiral::show_label_parameter;
use crate::tile::square_spiral::SquareSpiral;
use crate::tile::square_zigzag::SquareZigzag;
use crate::tile::tile::DrawOrder;
use crate::tile::tile::Tile;
use crate::tile::tile::label_mode_parameter;
use crate::tile::types::LabelMode;

verus! {

/// The kinds of tiles that can be chosen by name.
#[derive(Clone, Copy, Debug, PartialEq, Eq, Structural)]
pub enum TileKind {
    Spiral4,
    Spiral6,
    Zigzag4,
}

/// A tile of any of the kinds that can be chosen by name.
pub enum AnyTile<G: Generator> {
    Spiral4(SquareSpiral<G>),
    Spiral6(HexagonSpiral<G>),
    Zigzag4(SquareZigzag<G>),
}

/// The kind of tile that a name stands for.
pub open spec fn tile_named(name: Seq<char>) -> Option<TileKind> {
    if name == "spiral4"@ {
        Some(TileKind::Spiral4)
    } else if name == "spiral6"@ {
        Some(TileKind::Spiral6)
    } else if name == "zigzag4"@ {
        Some(TileKind::Zigzag4)
    } else {
        None
    }
}

/// Why a parameter string cannot be used for a tile of the given kind, if
/// it cannot.
pub open spec fn tile_refusal(kind: TileKind, tp: Seq<char>) -> Option<ConfigError> {
    match kind {
        TileKind::Spiral6 => match show_label_parameter(tp) {
            Ok(_) => None,
            Err(e) => Some(e),
        },
        _ => match label_mode_parameter(tp) {
            Ok(_) => None,
            Err(e) => Some(e),
        },
    }
}

impl<G: Generator> AnyTile<G> {
    /// The kind of the tile.
    pub open spec fn kind(&self) -> TileKind {
        match self {
            AnyTile::Spiral4(_) => TileKind::Spiral4,
            AnyTile::Spiral6(_) => TileKind::Spiral6,
            AnyTile::Zigzag4(_) => TileKind::Zigzag4,
        }
    }

    /// The generator that the tile draws its items from.
    pub open spec fn source(&self) -> G {
        match self {
            AnyTile::Spiral4(t) => t.source(),
            AnyTile::Spiral6(t) => t.source(),
            AnyTile::Zigzag4(t) => t.source(),
        }
    }
}

impl<G: Generator> Tile for AnyTile<G> {
    open spec fn wf(&self) -> bool {
        match self {
            AnyTile::Spiral4(t) => t.wf(),
            AnyTile::Spiral6(t) => t.wf(),
            AnyTile::Zigzag4(t) => t.wf(),
        }
    }

    open spec fn steps(&self) -> nat {
        match self {
            AnyTile::Spiral4(t) => t.steps(),
            AnyTile::Spiral6(t) => t.steps(),
            AnyTile::Zigzag4(t) => t.steps(),
        }
    }

    open spec fn cursor(&self) -> nat {
        match self {
            AnyTile::Spiral4(t) => t.cursor(),
            AnyTile::Spiral6(t) => t.cursor(),
            AnyTile::Zigzag4(t) => t.cursor(),
        }
    }

    open spec fn last(&self) -> nat {
        match self {
            AnyTile::Spiral4(t) => t.last(),
            AnyTile::Spiral6(t) => t.last(),
            AnyTile::Zigzag4(t) => t.last(),
        }
    }

    open spec fn marks(&self, index: nat) -> bool {
        match self {
            AnyTile::Spiral4(t) => t.marks(index),
            AnyTile::Spiral6(t) => t.marks(index),
            AnyTile::Zigzag4(t) => t.marks(index),
        }
    }

    open spec fn cell(&self, k: nat) -> (int, int) {
        match self {
            AnyTile::Spiral4(t) => t.cell(k),
            AnyTile::Spiral6(t) => t.cell(k),
            AnyTile::Zigzag4(t) => t.cell(k),
        }
    }

    open spec fn width(&self) -> int {
        match self {
            AnyTile::Spiral4(t) => t.width(),
            AnyTile::Spiral6(t) => t.width(),
            AnyTile::Zigzag4(t) => t.width(),
        }
    }

    open spec fn labels(&self, marked: bool) -> bool {
        match self {
            AnyTile::Spiral4(t) => t.labels(marked),
            AnyTile::Spiral6(t) => t.labels(marked),
            AnyTile::Zigzag4(t) => t.labels(marked),
        }
    }

    open spec fn info(&self) -> Seq<char> {
        match self {
            AnyTile::Spiral4(t) => t.info(),
            AnyTile::Spiral6(t) => t.info(),
            AnyTile::Zigzag4(t) => t.info(),
        }
    }

    fn draw_next(&mut self) -> (order: Option<DrawOrder>)
        ensures
            final(self).kind() == old(self).kind(),
    {
        match self {
            AnyTile::Spiral4(t) => t.draw_next(),
            AnyTile::Spiral6(t) => t.draw_next(),
            AnyTile::Zigzag4(t) => t.draw_next(),
        }
    }

    fn tile_info(&self) -> (info: String) {
        match self {
            AnyTile::Spiral4(t) => t.tile_info(),
            AnyTile::Spiral6(t) => t.tile_info(),
            AnyTile::Zigzag4(t) => t.tile_info(),
        }
    }
}

/// Builds the tile that `tile` names over the generator `gen`, with the
/// labels that the parameter string `tp` asks for. A name that stands for
/// no tile is refused before the parameters are looked at.
pub fn create_tile<G: Generator>(tile: &str, tp: &str, gen: G) -> (made: Result<
    AnyTile<G>,
    ConfigError,
>)
    requires
        gen.wf(),
    ensures
        match made {
            Ok(t) => {
                &&& tile_named(tile@) == Some(t.kind())
                &&& t.wf()
                &&& t.source() == gen
                &&& t.steps() == 0
                &&& t matches AnyTile::Spiral4(s) ==> {
                    &&& label_mode_parameter(tp@) == Ok::<LabelMode, ConfigError>(s.mode())
                    &&& s.sized_for() == distance(gen.first(), gen.last())
                }
                &&& t matches AnyTile::Zigzag4(s) ==> {
                    &&& label_mode_parameter(tp@) == Ok::<LabelMode, ConfigError>(s.mode())
                    &&& s.sized_for() == distance(gen.first(), gen.last())
                }
                &&& t matches AnyTile::Spiral6(s) ==> {
                    &&& show_label_parameter(tp@) == Ok::<bool, ConfigError>(s.shows_label())
                    &&& is_hexagon_cycle(distance(gen.first(), gen.last()), s.sized_for())
                }
            },
            Err(e) => match tile_named(tile@) {
                None => e == ConfigError::UnknownVariant,
                Some(kind) => tile_refusal(kind, tp@) == Some(e),
            },
        },
{
    if same_text(tile, "spiral4") {
        return match SquareSpiral::from_tp(tp, gen) {
            Ok(t) => Ok(AnyTile::Spiral4(t)),
            Err(e) => Err(e),
        };
    }
    if same_text(tile, "spiral6") {
        return match HexagonSpiral::from_tp(tp, gen) {
            Ok(t) => Ok(AnyTile::Spiral6(t)),
            Err(e) => Err(e),
        };
    }
    if same_text(tile, "zigzag4") {
        return match SquareZigzag::from_tp(tp, gen) {
            Ok(t) => Ok(AnyTile::Zigzag4(t)),
            Err(e) => Err(e),
        };
    }
    Err(ConfigError::UnknownVariant)
}

} // verus!
