//! Multiples of a base.

use vstd::prelude::*;
use vstd::string::StringExecFns;
use crate::error::ConfigError;
use crate::generator::Generator;
use crate::generator::range_info;
use crate::generator::range_label;
use crate::generator::remaining;
use crate::text::append_decimal;
use crate::text::chars_of;
use crate::text::decimal;
use crate::text::leading_numbers;
use crate::text::lemma_leading_numbers_len;
use crate::text::parse_leading_numbers;

verus! {

/// Whether `index` is a multiple of `base`.
pub open spec fn is_multiple(index: nat, base: nat) -> bool {
    base != 0 && index % base == 0
}

/// The item at place `k` of what a multiples generator has left carries the
/// `k`-th index from the cursor on, and is marked exactly if the base
/// divides that index without remainder.
pub proof fn lemma_times_items(gen: &TimesGenerator, k: int)
    requires
        gen.last() <= usize::MAX,
        gen.base() != 0,
        0 <= k < remaining(gen).len(),
    ensures
        remaining(gen)[k].0 == gen.cursor() + k,
        remaining(gen)[k].1 == ((gen.cursor() + k) % (gen.base() as int) == 0),
{
}

/// Walks the indices `0..=max` and marks the multiples of a base.
pub struct TimesOrNotIterator {
    i: usize,
    done: bool,
    max: usize,
    times_base: usize,
}

impl TimesOrNotIterator {
    /// The base is not zero, and the cursor has not passed the last index
    /// unnoticed.
    pub closed spec fn wf(&self) -> bool {
        &&& self.times_base != 0
        &&& self.i <= self.max
    }

    /// The index that the next pull yields, if it yields one.
    pub closed spec fn cursor(&self) -> nat {
        if self.done {
            (self.max + 1) as nat
        } else {
            self.i as nat
        }
    }

    /// The last index that the iterator yields.
    pub closed spec fn last(&self) -> nat {
        self.max as nat
    }

    /// The base whose multiples are marked.
    pub closed spec fn base(&self) -> nat {
        self.times_base as nat
    }

    /// An iterator over `0..=n` that marks the multiples of `times_base`.
    /// A base of zero is refused.
    pub fn new(n: usize, times_base: usize) -> (made: Result<TimesOrNotIterator, ConfigError>)
        ensures
            match made {
                Ok(iter) => {
                    &&& times_base != 0
                    &&& iter.wf()
                    &&& iter.cursor() == 0
                    &&& iter.last() == n
                    &&& iter.base() == times_base
                },
                Err(e) => times_base == 0 && e == ConfigError::ZeroBase,
            },
    {
        if times_base == 0 {
            Err(ConfigError::ZeroBase)
        } else {
            Ok(TimesOrNotIterator { i: 0, done: false, max: n, times_base })
        }
    }

    /// Yields the index at the cursor and whether it is a multiple of the
    /// base, or `None` once the cursor is beyond the last index.
    pub fn next(&mut self) -> (item: Option<(usize, bool)>)
        requires
            old(self).wf(),
        ensures
            final(self).wf(),
            final(self).last() == old(self).last(),
            final(self).base() == old(self).base(),
            match item {
                Some((index, marked)) => {
                    &&& old(self).cursor() <= old(self).last()
                    &&& index == old(self).cursor()
                    &&& marked == is_multiple(index as nat, old(self).base())
                    &&& final(self).cursor() == old(self).cursor() + 1
                },
                None => {
                    &&& old(self).cursor() > old(self).last()
                    &&& final(self).cursor() == old(self).cursor()
                },
            },
    {
        if self.done {
            return None;
        }
        let i = self.i;
        if self.i < self.max {
            self.i = self.i + 1;
        } else {
            self.done = true;
        }
        Some((i, i % self.times_base == 0))
    }
}

/// Marks the multiples of a base among the indices `skip..=max`.
pub struct TimesGenerator {
    max: usize,
    skip: usize,
    times_base: usize,
    pending: usize,
    iter: TimesOrNotIterator,
}

/// What a parameter string `from[:to[:base]]` asks of a multiples
/// generator: the first index, the last index (10000 if left out) and the
/// base (2 if left out).
pub open spec fn times_parameters(gp: Seq<char>) -> Result<(usize, usize, usize), ConfigError> {
    match leading_numbers(gp, ':', 3) {
        None => Err(ConfigError::InvalidParameter),
        Some(values) => {
            let to = if values.len() > 1 {
                values[1]
            } else {
                10000
            };
            let base = if values.len() > 2 {
                values[2]
            } else {
                2
            };
            if base == 0 {
                Err(ConfigError::ZeroBase)
            } else {
                Ok((values[0], to, base))
            }
        },
    }
}

impl TimesGenerator {
    /// The base whose multiples are marked.
    pub closed spec fn base(&self) -> nat {
        self.times_base as nat
    }

    /// A generator over `skip..=n` that marks the multiples of
    /// `times_base`. A base of zero is refused.
    pub fn new(n: usize, times_base: usize, skip: usize) -> (made: Result<Self, ConfigError>)
        ensures
            match made {
                Ok(gen) => {
                    &&& times_base != 0
                    &&& gen.wf()
                    &&& gen.first() == skip
                    &&& gen.cursor() == skip
                    &&& gen.last() == n
                    &&& gen.base() == times_base
                },
                Err(e) => times_base == 0 && e == ConfigError::ZeroBase,
            },
    {
        match TimesOrNotIterator::new(n, times_base) {
            Ok(iter) => Ok(TimesGenerator { max: n, skip, times_base, pending: skip, iter }),
            Err(e) => Err(e),
        }
    }

    /// A generator built from a parameter string `from[:to[:base]]`.
    pub fn from_gp(gp: &str) -> (made: Result<Self, ConfigError>)
        ensures
            match made {
                Ok(gen) => {
                    &&& times_parameters(gp@) is Ok
                    &&& gen.wf()
                    &&& gen.first() == times_parameters(gp@)->Ok_0.0
                    &&& gen.cursor() == times_parameters(gp@)->Ok_0.0
                    &&& gen.last() == times_parameters(gp@)->Ok_0.1
                    &&& gen.base() == times_parameters(gp@)->Ok_0.2
                },
                Err(e) => times_parameters(gp@) == Err::<(usize, usize, usize), ConfigError>(e),
            },
    {
        let chars = chars_of(gp);
        proof {
            lemma_leading_numbers_len(gp@, ':', 3);
        }
        let values = match parse_leading_numbers(chars.as_slice(), ':', 3) {
            Ok(values) => values,
            Err(e) => {
                return Err(e);
            },
        };
        let from = values[0];
        let to = if values.len() > 1 {
            values[1]
        } else {
            10000
        };
        let times = if values.len() > 2 {
            values[2]
        } else {
            2
        };
        Self::new(to, times, from)
    }
}

impl Generator for TimesGenerator {
    closed spec fn wf(&self) -> bool {
        &&& self.iter.wf()
        &&& self.iter.last() == self.max
        &&& self.iter.base() == self.times_base
        &&& self.times_base != 0
        &&& self.pending > 0 ==> self.iter.cursor() + self.pending == self.skip
    }

    closed spec fn first(&self) -> nat {
        self.skip as nat
    }

    closed spec fn cursor(&self) -> nat {
        self.iter.cursor() + self.pending as nat
    }

    closed spec fn last(&self) -> nat {
        self.max as nat
    }

    open spec fn marks(&self, index: nat) -> bool {
        is_multiple(index, self.base())
    }

    open spec fn label(&self) -> Seq<char> {
        range_label("times"@, self.first(), self.last()) + " times = "@ + decimal(self.base())
    }

    fn data_num(&self) -> (n: usize) {
        if self.skip <= self.max {
            self.max - self.skip
        } else {
            0
        }
    }

    fn generator_info(&self) -> (info: String) {
        let mut info = range_info("times", self.skip, self.max);
        info.append(" times = ");
        append_decimal(&mut info, self.times_base);
        info
    }

    fn next(&mut self) -> (item: Option<(usize, bool)>) {
        while self.pending > 0
            invariant
                self.wf(),
                self.first() == old(self).first(),
                self.last() == old(self).last(),
                self.base() == old(self).base(),
                self.cursor() == old(self).cursor(),
            decreases self.pending,
        {
            match self.iter.next() {
                Some(_) => {},
                None => {
                    return None;
                },
            }
            self.pending = self.pending - 1;
        }
        self.iter.next()
    }
}

} // verus!
