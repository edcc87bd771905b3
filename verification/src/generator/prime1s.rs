//! Primes that end in the digit 1.

use vstd::prelude::*;
use crate::error::ConfigError;
use crate::generator::Generator;
use crate::generator::primes::PrimesGenerator;
use crate::generator::primes::is_prime_ending;
use crate::generator::primes::keep_ending;
use crate::generator::range_info;
use crate::generator::range_label;
use crate::generator::range_parameters;

verus! {

/// Marks the primes that end in the digit 1 among the indices of a range.
/// It takes each index and its primality from a primes generator and
/// looks at the last digit itself.
pub struct Prime1sGenerator {
    gen: PrimesGenerator,
}

impl Prime1sGenerator {
    /// A generator over `skip..=n` that marks the primes ending in 1.
    pub fn new(n: usize, skip: usize) -> (made: Self)
        ensures
            made.wf(),
            made.first() == skip,
            made.cursor() == skip,
            made.last() == n,
    {
        Prime1sGenerator { gen: PrimesGenerator::new(n, skip) }
    }

    /// A generator built from a parameter string `from[:to]`; where `to` is
    /// left out the last index is 1000.
    pub fn from_gp(gp: &str) -> (made: Result<Self, ConfigError>)
        ensures
            match made {
                Ok(gen) => {
                    &&& range_parameters(gp@, 1000) is Some
                    &&& gen.wf()
                    &&& gen.first() == range_parameters(gp@, 1000)->Some_0.0
                    &&& gen.cursor() == range_parameters(gp@, 1000)->Some_0.0
                    &&& gen.last() == range_parameters(gp@, 1000)->Some_0.1
                },
                Err(e) => range_parameters(gp@, 1000) is None && e == ConfigError::InvalidParameter,
            },
    {
        match PrimesGenerator::from_gp(gp) {
            Ok(gen) => Ok(Prime1sGenerator { gen }),
            Err(e) => Err(e),
        }
    }
}

impl Generator for Prime1sGenerator {
    closed spec fn wf(&self) -> bool {
        self.gen.wf()
    }

    closed spec fn first(&self) -> nat {
        self.gen.first()
    }

    closed spec fn cursor(&self) -> nat {
        self.gen.cursor()
    }

    closed spec fn last(&self) -> nat {
        self.gen.last()
    }

    open spec fn marks(&self, index: nat) -> bool {
        is_prime_ending(index, 1)
    }

    open spec fn label(&self) -> Seq<char> {
        range_label("primes1"@, self.first(), self.last())
    }

    fn data_num(&self) -> (n: usize) {
        self.gen.data_num()
    }

    fn generator_info(&self) -> (info: String) {
        range_info("primes1", self.gen.skip(), self.gen.max())
    }

    fn next(&mut self) -> (item: Option<(usize, bool)>) {
        keep_ending(self.gen.next(), 1)
    }
}

} // verus!
