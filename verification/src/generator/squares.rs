//! Perfect squares, found by remembering the square of every index passed.

use std::collections::HashSet;
use vstd::prelude::*;
use crate::error::ConfigError;
use crate::generator::Generator;
use crate::generator::range_info;
use crate::generator::range_label;
use crate::generator::range_parameters;
use crate::numbers::is_square;
use crate::numbers::lemma_root_below_square;
use crate::text::chars_of;
use crate::text::lemma_leading_numbers_len;
use crate::text::parse_leading_numbers;

verus! {

/// Walks the indices `0..=max` and marks the perfect squares. It holds the
/// squares of all indices below the cursor, as far as the machine can
/// hold them.
pub struct SquaresOrNotIterator {
    i: usize,
    done: bool,
    max: usize,
    squares: HashSet<usize>,
}

impl SquaresOrNotIterator {
    /// The set holds the squares of the indices below the cursor, all of
    /// them that fit the machine's word and nothing else.
    pub closed spec fn wf(&self) -> bool {
        &&& self.i <= self.max
        &&& forall|x: usize|
            self.squares@.contains(x) <==> exists|r: nat| r < self.cursor() && #[trigger] (r * r)
                == x
    }

    /// The index that the next pull yields, if it yields one.
    pub closed spec fn cursor(&self) -> nat {
        if self.done {
            (self.max + 1) as nat
        } else {
            self.i as nat
        }
    }

    /// The last index that the iterator yields.
    pub closed spec fn last(&self) -> nat {
        self.max as nat
    }

    /// An iterator over `0..=n` that marks the perfect squares.
    pub fn new(n: usize) -> (iter: SquaresOrNotIterator)
        ensures
            iter.wf(),
            iter.cursor() == 0,
            iter.last() == n,
    {
        SquaresOrNotIterator { i: 0, done: false, max: n, squares: HashSet::new() }
    }

    /// Yields the index at the cursor and whether it is a perfect square,
    /// or `None` once the cursor is beyond the last index.
    pub fn next(&mut self) -> (item: Option<(usize, bool)>)
        requires
            old(self).wf(),
        ensures
            final(self).wf(),
            final(self).last() == old(self).last(),
            match item {
                Some((index, marked)) => {
                    &&& old(self).cursor() <= old(self).last()
                    &&& index == old(self).cursor()
                    &&& marked == is_square(index as nat)
                    &&& final(self).cursor() == old(self).cursor() + 1
                },
                None => {
                    &&& old(self).cursor() > old(self).last()
                    &&& final(self).cursor() == old(self).cursor()
                },
            },
    {
        if self.done {
            return None;
        }
        let i = self.i;
        match i.checked_mul(i) {
            Some(square) => {
                self.squares.insert(square);
            },
            None => {},
        }
        let marked = self.squares.contains(&i);
        if i < self.max {
            self.i = i + 1;
        } else {
            self.done = true;
        }
        proof {
            let before = old(self).squares@;
            let after = self.squares@;
            assert forall|x: usize| after.contains(x) <==> exists|r: nat|
                r < i + 1 && #[trigger] (r * r) == x by {
                if after.contains(x) {
                    if before.contains(x) {
                        let r = choose|r: nat| r < i && #[trigger] (r * r) == x;
                        assert(r < i + 1 && r * r == x);
                    } else {
                        assert((i as nat) * (i as nat) == x);
                    }
                }
                if exists|r: nat| r < i + 1 && #[trigger] (r * r) == x {
                    let r = choose|r: nat| r < i + 1 && #[trigger] (r * r) == x;
                    if r < i {
                        assert(before.contains(x));
                    } else {
                        assert(r * r == i * i);
                    }
                }
            }
            if marked {
                let r = choose|r: nat| r < i + 1 && #[trigger] (r * r) == i;
                assert(is_square(i as nat));
            }
            if is_square(i as nat) {
                let r = choose|r: nat| #[trigger] (r * r) == i as nat;
                lemma_root_below_square(r);
                assert(r < i + 1 && r * r == i);
            }
        }
        Some((i, marked))
    }
}

/// Marks the perfect squares among the indices `skip..=max`.
pub struct SquareGenerator {
    max: usize,
    skip: usize,
    pending: usize,
    iter: SquaresOrNotIterator,
}

impl SquareGenerator {
    /// A generator over `skip..=n` that marks the perfect squares.
    pub fn new(n: usize, skip: usize) -> (gen: SquareGenerator)
        ensures
            gen.wf(),
            gen.first() == skip,
            gen.cursor() == skip,
            gen.last() == n,
    {
        SquareGenerator { max: n, skip, pending: skip, iter: SquaresOrNotIterator::new(n) }
    }

    /// A generator built from a parameter string `from[:to]`; where `to` is
    /// left out the last index is 10000.
    pub fn from_gp(gp: &str) -> (made: Result<Self, ConfigError>)
        ensures
            match made {
                Ok(gen) => {
                    &&& range_parameters(gp@, 10000) is Some
                    &&& gen.wf()
                    &&& gen.first() == range_parameters(gp@, 10000)->Some_0.0
                    &&& gen.cursor() == range_parameters(gp@, 10000)->Some_0.0
                    &&& gen.last() == range_parameters(gp@, 10000)->Some_0.1
                },
                Err(e) => range_parameters(gp@, 10000) is None && e
                    == ConfigError::InvalidParameter,
            },
    {
        let chars = chars_of(gp);
        proof {
            lemma_leading_numbers_len(gp@, ':', 2);
        }
        let values = match parse_leading_numbers(chars.as_slice(), ':', 2) {
            Ok(values) => values,
            Err(e) => {
                return Err(e);
            },
        };
        let from = values[0];
        let to = if values.len() > 1 {
            values[1]
        } else {
            10000
        };
        Ok(Self::new(to, from))
    }
}

impl Generator for SquareGenerator {
    closed spec fn wf(&self) -> bool {
        &&& self.iter.wf()
        &&& self.iter.last() == self.max
        &&& self.pending > 0 ==> self.iter.cursor() + self.pending == self.skip
    }

    closed spec fn first(&self) -> nat {
        self.skip as nat
    }

    closed spec fn cursor(&self) -> nat {
        self.iter.cursor() + self.pending as nat
    }

    closed spec fn last(&self) -> nat {
        self.max as nat
    }

    open spec fn marks(&self, index: nat) -> bool {
        is_square(index)
    }

    open spec fn label(&self) -> Seq<char> {
        range_label("suares"@, self.first(), self.last())
    }

    fn data_num(&self) -> (n: usize) {
        if self.skip <= self.max {
            self.max - self.skip
        } else {
            0
        }
    }

    fn generator_info(&self) -> (info: String) {
        range_info("suares", self.skip, self.max)
    }

    fn next(&mut self) -> (item: Option<(usize, bool)>) {
        while self.pending > 0
            invariant
                self.wf(),
                self.first() == old(self).first(),
                self.last() == old(self).last(),
                self.cursor() == old(self).cursor(),
            decreases self.pending,
        {
            match self.iter.next() {
                Some(_) => {},
                None => {
                    return None;
                },
            }
            self.pending = self.pending - 1;
        }
        self.iter.next()
    }
}

} // verus!
