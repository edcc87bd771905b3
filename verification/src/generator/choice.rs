//! The choice of a generator by its name.

use vstd::prelude::*;
use crate::error::ConfigError;
use crate::generator::Generator;
use crate::generator::fibonacci::FibonacciGenerator;
use crate::generator::prime1s::Prime1sGenerator;
use crate::generator::prime3s::Prime3sGenerator;
use crate::generator::prime7s::Prime7sGenerator;
use crate::generator::primes::PrimesGenerator;
use crate::generator::range_parameters;
use crate::generator::squares::SquareGenerator;
use crate::generator::times::TimesGenerator;
use crate::generator::times::times_parameters;
use crate::text::same_text;

verus! {

/// The kinds of generators that can be chosen by name.
#[derive(Clone, Copy, Debug, PartialEq, Eq, Structural)]
pub enum GeneratorKind {
    Fibonacci,
    Primes,
    Prime1s,
    Prime3s,
    Prime7s,
    Times,
    Squares,
}

/// A generator of any of the kinds that can be chosen by name.
pub enum AnyGenerator {
    Fibonacci(FibonacciGenerator),
    Primes(PrimesGenerator),
    Prime1s(Prime1sGenerator),
    Prime3s(Prime3sGenerator),
    Prime7s(Prime7sGenerator),
    Times(TimesGenerator),
    Squares(SquareGenerator),
}

/// The kind of generator that a name stands for.
pub open spec fn kind_named(name: Seq<char>) -> Option<GeneratorKind> {
    if name == "fibonacci"@ {
        Some(GeneratorKind::Fibonacci)
    } else if name == "primes"@ {
        Some(GeneratorKind::Primes)
    } else if name == "prime1s"@ {
        Some(GeneratorKind::Prime1s)
    } else if name == "prime3s"@ {
        Some(GeneratorKind::Prime3s)
    } else if name == "prime7s"@ {
        Some(GeneratorKind::Prime7s)
    } else if name == "times"@ {
        Some(GeneratorKind::Times)
    } else if name == "squares"@ {
        Some(GeneratorKind::Squares)
    } else {
        None
    }
}

/// The first and the last index that a parameter string asks of a
/// generator of the given kind. Where the string gives no last index, it
/// is 1000 for the generators of primes and 10000 for the others.
pub open spec fn range_for(kind: GeneratorKind, gp: Seq<char>) -> Result<
    (usize, usize),
    ConfigError,
> {
    match kind {
        GeneratorKind::Times => match times_parameters(gp) {
            Ok((from, to, _)) => Ok((from, to)),
            Err(e) => Err(e),
        },
        GeneratorKind::Fibonacci | GeneratorKind::Squares => match range_parameters(gp, 10000) {
            Some(range) => Ok(range),
            None => Err(ConfigError::InvalidParameter),
        },
        _ => match range_parameters(gp, 1000) {
            Some(range) => Ok(range),
            None => Err(ConfigError::InvalidParameter),
        },
    }
}

impl AnyGenerator {
    /// The kind of the generator.
    pub open spec fn kind(&self) -> GeneratorKind {
        match self {
            AnyGenerator::Fibonacci(_) => GeneratorKind::Fibonacci,
            AnyGenerator::Primes(_) => GeneratorKind::Primes,
            AnyGenerator::Prime1s(_) => GeneratorKind::Prime1s,
            AnyGenerator::Prime3s(_) => GeneratorKind::Prime3s,
            AnyGenerator::Prime7s(_) => GeneratorKind::Prime7s,
            AnyGenerator::Times(_) => GeneratorKind::Times,
            AnyGenerator::Squares(_) => GeneratorKind::Squares,
        }
    }
}

impl Generator for AnyGenerator {
    open spec fn wf(&self) -> bool {
        match self {
            AnyGenerator::Fibonacci(g) => g.wf(),
            AnyGenerator::Primes(g) => g.wf(),
            AnyGenerator::Prime1s(g) => g.wf(),
            AnyGenerator::Prime3s(g) => g.wf(),
            AnyGenerator::Prime7s(g) => g.wf(),
            AnyGenerator::Times(g) => g.wf(),
            AnyGenerator::Squares(g) => g.wf(),
        }
    }

    open spec fn first(&self) -> nat {
        match self {
            AnyGenerator::Fibonacci(g) => g.first(),
            AnyGenerator::Primes(g) => g.first(),
            AnyGenerator::Prime1s(g) => g.first(),
            AnyGenerator::Prime3s(g) => g.first(),
            AnyGenerator::Prime7s(g) => g.first(),
            AnyGenerator::Times(g) => g.first(),
            AnyGenerator::Squares(g) => g.first(),
        }
    }

    open spec fn cursor(&self) -> nat {
        match self {
            AnyGenerator::Fibonacci(g) => g.cursor(),
            AnyGenerator::Primes(g) => g.cursor(),
            AnyGenerator::Prime1s(g) => g.cursor(),
            AnyGenerator::Prime3s(g) => g.cursor(),
            AnyGenerator::Prime7s(g) => g.cursor(),
            AnyGenerator::Times(g) => g.cursor(),
            AnyGenerator::Squares(g) => g.cursor(),
        }
    }

    open spec fn last(&self) -> nat {
        match self {
            AnyGenerator::Fibonacci(g) => g.last(),
            AnyGenerator::Primes(g) => g.last(),
            AnyGenerator::Prime1s(g) => g.last(),
            AnyGenerator::Prime3s(g) => g.last(),
            AnyGenerator::Prime7s(g) => g.last(),
            AnyGenerator::Times(g) => g.last(),
            AnyGenerator::Squares(g) => g.last(),
        }
    }

    open spec fn marks(&self, index: nat) -> bool {
        match self {
            AnyGenerator::Fibonacci(g) => g.marks(index),
            AnyGenerator::Primes(g) => g.marks(index),
            AnyGenerator::Prime1s(g) => g.marks(index),
            AnyGenerator::Prime3s(g) => g.marks(index),
            AnyGenerator::Prime7s(g) => g.marks(index),
            AnyGenerator::Times(g) => g.marks(index),
            AnyGenerator::Squares(g) => g.marks(index),
        }
    }

    open spec fn label(&self) -> Seq<char> {
        match self {
            AnyGenerator::Fibonacci(g) => g.label(),
            AnyGenerator::Primes(g) => g.label(),
            AnyGenerator::Prime1s(g) => g.label(),
            AnyGenerator::Prime3s(g) => g.label(),
            AnyGenerator::Prime7s(g) => g.label(),
            AnyGenerator::Times(g) => g.label(),
            AnyGenerator::Squares(g) => g.label(),
        }
    }

    fn data_num(&self) -> (n: usize) {
        match self {
            AnyGenerator::Fibonacci(g) => g.data_num(),
            AnyGenerator::Primes(g) => g.data_num(),
            AnyGenerator::Prime1s(g) => g.data_num(),
            AnyGenerator::Prime3s(g) => g.data_num(),
            AnyGenerator::Prime7s(g) => g.data_num(),
            AnyGenerator::Times(g) => g.data_num(),
            AnyGenerator::Squares(g) => g.data_num(),
        }
    }

    fn generator_info(&self) -> (info: String) {
        match self {
            AnyGenerator::Fibonacci(g) => g.generator_info(),
            AnyGenerator::Primes(g) => g.generator_info(),
            AnyGenerator::Prime1s(g) => g.generator_info(),
            AnyGenerator::Prime3s(g) => g.generator_info(),
            AnyGenerator::Prime7s(g) => g.generator_info(),
            AnyGenerator::Times(g) => g.generator_info(),
            AnyGenerator::Squares(g) => g.generator_info(),
        }
    }

    fn next(&mut self) -> (item: Option<(usize, bool)>)
        ensures
            final(self).kind() == old(self).kind(),
    {
        match self {
            AnyGenerator::Fibonacci(g) => g.next(),
            AnyGenerator::Primes(g) => g.next(),
            AnyGenerator::Prime1s(g) => g.next(),
            AnyGenerator::Prime3s(g) => g.next(),
            AnyGenerator::Prime7s(g) => g.next(),
            AnyGenerator::Times(g) => g.next(),
            AnyGenerator::Squares(g) => g.next(),
        }
    }
}

/// Builds the generator that `generator` names from the parameter string
/// `gp`. A name that stands for no generator is refused before the
/// parameters are looked at.
pub fn create_generator(generator: &str, gp: &str) -> (made: Result<AnyGenerator, ConfigError>)
    ensures
        match made {
            Ok(gen) => {
                &&& kind_named(generator@) == Some(gen.kind())
                &&& range_for(gen.kind(), gp@) is Ok
                &&& gen.wf()
                &&& gen.first() == range_for(gen.kind(), gp@)->Ok_0.0
                &&& gen.cursor() == range_for(gen.kind(), gp@)->Ok_0.0
                &&& gen.last() == range_for(gen.kind(), gp@)->Ok_0.1
                &&& gen matches AnyGenerator::Times(times) ==> times_parameters(gp@) is Ok
                    && times.base() == times_parameters(gp@)->Ok_0.2
            },
            Err(e) => match kind_named(generator@) {
                None => e == ConfigError::UnknownVariant,
                Some(kind) => range_for(kind, gp@) == Err::<(usize, usize), ConfigError>(e),
            },
        },
{
    if same_text(generator, "fibonacci") {
        return match FibonacciGenerator::from_gp(gp) {
            Ok(gen) => Ok(AnyGenerator::Fibonacci(gen)),
            Err(e) => Err(e),
        };
    }
    if same_text(generator, "primes") {
        return match PrimesGenerator::from_gp(gp) {
            Ok(gen) => Ok(AnyGenerator::Primes(gen)),
            Err(e) => Err(e),
        };
    }
    if same_text(generator, "prime1s") {
        return match Prime1sGenerator::from_gp(gp) {
            Ok(gen) => Ok(AnyGenerator::Prime1s(gen)),
            Err(e) => Err(e),
        };
    }
    if same_text(generator, "prime3s") {
        return match Prime3sGenerator::from_gp(gp) {
            Ok(gen) => Ok(AnyGenerator::Prime3s(gen)),
            Err(e) => Err(e),
        };
    }
    if same_text(generator, "prime7s") {
        return match Prime7sGenerator::from_gp(gp) {
            Ok(gen) => Ok(AnyGenerator::Prime7s(gen)),
            Err(e) => Err(e),
        };
    }
    if same_text(generator, "times") {
        return match TimesGenerator::from_gp(gp) {
            Ok(gen) => Ok(AnyGenerator::Times(gen)),
            Err(e) => Err(e),
        };
    }
    if same_text(generator, "squares") {
        return match SquareGenerator::from_gp(gp) {
            Ok(gen) => Ok(AnyGenerator::Squares(gen)),
            Err(e) => Err(e),
        };
    }
    Err(ConfigError::UnknownVariant)
}

} // verus!
