use vstd::prelude::*;

verus! {

/// Why a generator or a tile could not be built from its configuration.
#[derive(Clone, Copy, Debug, PartialEq, Eq, Structural)]
pub enum ConfigError {
    /// A field of a parameter string is not a decimal number of the machine's word size.
    InvalidParameter,
    /// The base of a multiples generator is zero.
    ZeroBase,
    /// A label mode other than 0, 1, 2 or 3.
    UnknownLabelMode,
    /// No generator or tile has the given name.
    UnknownVariant,
}

} // verus!
