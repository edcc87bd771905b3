//! The settings of a tile.

use vstd::prelude::*;

verus! {

/// On which cells the index is written.
#[derive(Clone, Copy, Debug, PartialEq, Eq, Structural)]
pub enum LabelMode {
    /// On no cell.
    Off,
    /// On the marked cells.
    OnlyPositive,
    /// On the cells that are not marked.
    OnlyNegative,
    /// On every cell.
    All,
}

impl LabelMode {
    /// The mode that a number stands for: 0, 1, 2 and 3 stand for the four
    /// modes in the order of their declaration, other numbers for none.
    pub open spec fn of(value: nat) -> Option<LabelMode> {
        if value == 0 {
            Some(LabelMode::Off)
        } else if value == 1 {
            Some(LabelMode::OnlyPositive)
        } else if value == 2 {
            Some(LabelMode::OnlyNegative)
        } else if value == 3 {
            Some(LabelMode::All)
        } else {
            None
        }
    }

    /// Whether the index is written on a cell, given whether the cell is
    /// marked.
    pub open spec fn shows(self, marked: bool) -> bool {
        match self {
            LabelMode::Off => false,
            LabelMode::OnlyPositive => marked,
            LabelMode::OnlyNegative => !marked,
            LabelMode::All => true,
        }
    }

    /// The mode that `value` stands for, if it stands for one.
    pub fn checked_from(value: usize) -> (mode: Option<LabelMode>)
        ensures
            mode == Self::of(value as nat),
    {
        if value == 0 {
            Some(LabelMode::Off)
        } else if value == 1 {
            Some(LabelMode::OnlyPositive)
        } else if value == 2 {
            Some(LabelMode::OnlyNegative)
        } else if value == 3 {
            Some(LabelMode::All)
        } else {
            None
        }
    }

    /// The mode that `value` stands for.
    pub fn from(value: usize) -> (mode: LabelMode)
        requires
            value <= 3,
        ensures
            Some(mode) == Self::of(value as nat),
    {
        if value == 0 {
            LabelMode::Off
        } else if value == 1 {
            LabelMode::OnlyPositive
        } else if value == 2 {
            LabelMode::OnlyNegative
        } else {
            LabelMode::All
        }
    }

    /// Whether the index is written on a cell, given whether the cell is
    /// marked.
    pub fn labels(self, marked: bool) -> (shown: bool)
        ensures
            shown == self.shows(marked),
    {
        match self {
            LabelMode::Off => false,
            LabelMode::OnlyPositive => marked,
            LabelMode::OnlyNegative => !marked,
            LabelMode::All => true,
        }
    }
}

} // verus!
