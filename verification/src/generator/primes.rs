//! Primes, found by dividing each index by the primes found before it.

use vstd::prelude::*;
use crate::error::ConfigError;
use crate::generator::Generator;
use crate::generator::range_info;
use crate::generator::range_label;
use crate::generator::range_parameters;
use crate::generator::remaining;
use crate::numbers::divides;
use crate::numbers::is_prime;
use crate::numbers::lemma_divides_multiple;
use crate::numbers::lemma_divides_quotient;
use crate::numbers::lemma_divides_transitive;
use crate::numbers::lemma_prime_factor;
use crate::text::chars_of;
use crate::text::lemma_leading_numbers_len;
use crate::text::parse_leading_numbers;

verus! {

/// Whether `index` is a prime whose last decimal digit is `digit`.
pub open spec fn is_prime_ending(index: nat, digit: nat) -> bool {
    is_prime(index) && index % 10 == digit
}

/// Keeps the mark of an item whose index ends in `digit`, and takes the
/// mark from any other item.
pub fn keep_ending(item: Option<(usize, bool)>, digit: usize) -> (kept: Option<(usize, bool)>)
    ensures
        kept == match item {
            Some((index, marked)) => Some((index, marked && index % 10 == digit)),
            None => None,
        },
{
    match item {
        Some((index, marked)) => {
            if index % 10 == digit {
                Some((index, marked))
            } else {
                Some((index, false))
            }
        },
        None => None,
    }
}

/// The item at place `k` of what a primes generator has left carries the
/// `k`-th index from the cursor on, and is marked exactly if that index is
/// prime: at least 2 and without a divisor between 1 and itself.
pub proof fn lemma_prime_items(gen: &PrimesGenerator, k: int)
    requires
        gen.last() <= usize::MAX,
        0 <= k < remaining(gen).len(),
    ensures
        remaining(gen)[k].0 == gen.cursor() + k,
        remaining(gen)[k].1 == is_prime((gen.cursor() + k) as nat),
{
}

/// What a generator of the primes ending in `digit` has left is what a
/// primes generator over the same indices has left, with the mark taken
/// from the indices that do not end in `digit`.
pub proof fn lemma_ending_items_are_prime_items<G: Generator>(
    ending: &G,
    primes: &PrimesGenerator,
    digit: nat,
)
    requires
        ending.cursor() == primes.cursor(),
        ending.last() == primes.last(),
        primes.last() <= usize::MAX,
        forall|i: nat| ending.marks(i) == is_prime_ending(i, digit),
    ensures
        remaining(ending).len() == remaining(primes).len(),
        forall|k: int|
            0 <= k < remaining(primes).len() ==> #[trigger] remaining(ending)[k] == (
                remaining(primes)[k].0,
                remaining(primes)[k].1 && remaining(primes)[k].0 % 10 == digit,
            ),
{
    assert forall|k: int| 0 <= k < remaining(primes).len() implies #[trigger] remaining(
        ending,
    )[k] == (
        remaining(primes)[k].0,
        remaining(primes)[k].1 && remaining(primes)[k].0 % 10 == digit,
    ) by {
        let index = (primes.cursor() + k) as nat;
        assert(index <= usize::MAX);
        assert(remaining(primes)[k] == (index as usize, is_prime(index)));
        assert(remaining(ending)[k] == (index as usize, ending.marks(index)));
        assert(ending.marks(index) == is_prime_ending(index, digit));
    }
}

/// Walks the indices `0..=max` and marks the primes. It keeps the primes
/// that it has found and tries no other divisors.
pub struct PrimesOrNotIterator {
    i: usize,
    done: bool,
    max: usize,
    primes: Vec<usize>,
}

/// Divides `i` by each number of `primes` as often as it goes, and returns
/// what is left.
fn residual(primes: &Vec<usize>, i: usize) -> (n: usize)
    requires
        i >= 1,
        forall|j: int| 0 <= j < primes@.len() ==> primes@[j] >= 2,
    ensures
        n >= 1,
        divides(n as nat, i as nat),
        forall|j: int| 0 <= j < primes@.len() ==> !divides(primes@[j] as nat, n as nat),
        (forall|j: int| 0 <= j < primes@.len() ==> !divides(primes@[j] as nat, i as nat)) ==> n
            == i,
{
    let mut n = i;
    let mut idx: usize = 0;
    assert(divides(i as nat, i as nat)) by {
        lemma_divides_multiple(i as nat, 1);
    }
    while idx < primes.len()
        invariant
            idx <= primes@.len(),
            n >= 1,
            divides(n as nat, i as nat),
            forall|j: int| 0 <= j < primes@.len() ==> primes@[j] >= 2,
            forall|j: int| 0 <= j < idx ==> !divides(primes@[j] as nat, n as nat),
            (forall|j: int| 0 <= j < primes@.len() ==> !divides(primes@[j] as nat, i as nat)) ==> n
                == i,
        decreases primes@.len() - idx,
    {
        let p = primes[idx];
        while n % p == 0
            invariant
                idx < primes@.len(),
                p == primes@[idx as int],
                p >= 2,
                n >= 1,
                divides(n as nat, i as nat),
                forall|j: int| 0 <= j < idx ==> !divides(primes@[j] as nat, n as nat),
                (forall|j: int|
                    0 <= j < primes@.len() ==> !divides(primes@[j] as nat, i as nat)) ==> n == i,
            decreases n,
        {
            proof {
                let q = (n / p) as nat;
                lemma_divides_quotient(p as nat, n as nat);
                lemma_divides_multiple(q, p as nat);
                lemma_divides_transitive(q, n as nat, i as nat);
                assert forall|j: int| 0 <= j < idx implies !divides(primes@[j] as nat, q) by {
                    if divides(primes@[j] as nat, q) {
                        lemma_divides_transitive(primes@[j] as nat, q, n as nat);
                    }
                }
                if n == i {
                    assert(divides(primes@[idx as int] as nat, i as nat));
                }
                assert(q < n) by (nonlinear_arith)
                    requires
                        n == p * q,
                        p >= 2,
                        n >= 1,
                ;
            }
            n = n / p;
        }
        idx = idx + 1;
    }
    n
}

impl PrimesOrNotIterator {
    /// The iterator holds the primes below its cursor, all of them and
    /// nothing else.
    pub closed spec fn wf(&self) -> bool {
        &&& self.i <= self.max
        &&& forall|j: int|
            0 <= j < self.primes@.len() ==> is_prime(#[trigger] self.primes@[j] as nat)
                && self.primes@[j] < self.cursor()
        &&& forall|p: nat|
            is_prime(p) && p < self.cursor() ==> p <= usize::MAX && self.primes@.contains(
                p as usize,
            )
    }

    /// The index that the next pull yields, if it yields one.
    pub closed spec fn cursor(&self) -> nat {
        if self.done {
            (self.max + 1) as nat
        } else {
            self.i as nat
        }
    }

    /// The last index that the iterator yields.
    pub closed spec fn last(&self) -> nat {
        self.max as nat
    }

    /// An iterator over `0..=n` that marks the primes.
    pub fn new(n: usize) -> (iter: PrimesOrNotIterator)
        ensures
            iter.wf(),
            iter.cursor() == 0,
            iter.last() == n,
    {
        PrimesOrNotIterator { i: 0, done: false, max: n, primes: Vec::new() }
    }

    /// Yields the index at the cursor and whether it is prime, or `None`
    /// once the cursor is beyond the last index.
    pub fn next(&mut self) -> (item: Option<(usize, bool)>)
        requires
            old(self).wf(),
        ensures
            final(self).wf(),
            final(self).last() == old(self).last(),
            match item {
                Some((index, marked)) => {
                    &&& old(self).cursor() <= old(self).last()
                    &&& index == old(self).cursor()
                    &&& marked == is_prime(index as nat)
                    &&& final(self).cursor() == old(self).cursor() + 1
                },
                None => {
                    &&& old(self).cursor() > old(self).last()
                    &&& final(self).cursor() == old(self).cursor()
                },
            },
    {
        if self.done {
            return None;
        }
        let i = self.i;
        let marked = if i < 2 {
            false
        } else {
            let n = residual(&self.primes, i);
            proof {
                if is_prime(i as nat) {
                    assert forall|j: int| 0 <= j < self.primes@.len() implies !divides(
                        self.primes@[j] as nat,
                        i as nat,
                    ) by {
                        assert(is_prime(self.primes@[j] as nat));
                    }
                } else if n >= 2 {
                    let q = lemma_prime_factor(n as nat);
                    lemma_divides_transitive(q, n as nat, i as nat);
                    lemma_divides_quotient(q, n as nat);
                    lemma_divides_quotient(n as nat, i as nat);
                    if q < i {
                        let j = choose|j: int|
                            0 <= j < self.primes@.len() && self.primes@[j] == q as usize;
                        assert(divides(self.primes@[j] as nat, n as nat));
                    }
                }
            }
            n != 1
        };
        if marked {
            self.primes.push(i);
        }
        if i < self.max {
            self.i = i + 1;
        } else {
            self.done = true;
        }
        proof {
            let before = old(self).primes@;
            let after = self.primes@;
            assert forall|p: nat| is_prime(p) && p < self.cursor() implies p <= usize::MAX
                && after.contains(p as usize) by {
                if p < i {
                    let j = choose|j: int| 0 <= j < before.len() && before[j] == p as usize;
                    assert(after[j] == p as usize);
                } else {
                    assert(after[after.len() - 1] == i);
                }
            }
        }
        Some((i, marked))
    }
}

/// Marks the primes among the indices `skip..=max`.
pub struct PrimesGenerator {
    max: usize,
    skip: usize,
    pending: usize,
    iter: PrimesOrNotIterator,
}

impl PrimesGenerator {
    /// A generator over `skip..=n` that marks the primes.
    pub fn new(n: usize, skip: usize) -> (gen: Self)
        ensures
            gen.wf(),
            gen.first() == skip,
            gen.cursor() == skip,
            gen.last() == n,
    {
        PrimesGenerator { max: n, skip, pending: skip, iter: PrimesOrNotIterator::new(n) }
    }

    /// A generator built from a parameter string `from[:to]`; where `to` is
    /// left out the last index is 1000.
    pub fn from_gp(gp: &str) -> (made: Result<Self, ConfigError>)
        ensures
            match made {
                Ok(gen) => {
                    &&& range_parameters(gp@, 1000) is Some
                    &&& gen.wf()
                    &&& gen.first() == range_parameters(gp@, 1000)->Some_0.0
                    &&& gen.cursor() == range_parameters(gp@, 1000)->Some_0.0
                    &&& gen.last() == range_parameters(gp@, 1000)->Some_0.1
                },
                Err(e) => range_parameters(gp@, 1000) is None && e == ConfigError::InvalidParameter,
            },
    {
        let chars = chars_of(gp);
        proof {
            lemma_leading_numbers_len(gp@, ':', 2);
        }
        let values = match parse_leading_numbers(chars.as_slice(), ':', 2) {
            Ok(values) => values,
            Err(e) => {
                return Err(e);
            },
        };
        let from = values[0];
        let to = if values.len() > 1 {
            values[1]
        } else {
            1000
        };
        Ok(Self::new(to, from))
    }

    /// The last index that the generator yields.
    pub fn max(&self) -> (n: usize)
        ensures
            n == self.last(),
    {
        self.max
    }

    /// The first index that the generator was asked for.
    pub fn skip(&self) -> (n: usize)
        ensures
            n == self.first(),
    {
        self.skip
    }
}

impl Generator for PrimesGenerator {
    closed spec fn wf(&self) -> bool {
        &&& self.iter.wf()
        &&& self.iter.last() == self.max
        &&& self.pending > 0 ==> self.iter.cursor() + self.pending == self.skip
    }

    closed spec fn first(&self) -> nat {
        self.skip as nat
    }

    closed spec fn cursor(&self) -> nat {
        self.iter.cursor() + self.pending as nat
    }

    closed spec fn last(&self) -> nat {
        self.max as nat
    }

    open spec fn marks(&self, index: nat) -> bool {
        is_prime(index)
    }

    open spec fn label(&self) -> Seq<char> {
        range_label("primes"@, self.first(), self.last())
    }

    fn data_num(&self) -> (n: usize) {
        if self.skip <= self.max {
            self.max - self.skip
        } else {
            0
        }
    }

    fn generator_info(&self) -> (info: String) {
        range_info("primes", self.skip, self.max)
    }

    fn next(&mut self) -> (item: Option<(usize, bool)>) {
        while self.pending > 0
            invariant
                self.wf(),
                self.first() == old(self).first(),
                self.last() == old(self).last(),
                self.cursor() == old(self).cursor(),
            decreases self.pending,
        {
            match self.iter.next() {
                Some(_) => {},
                None => {
                    return None;
                },
            }
            self.pending = self.pending - 1;
        }
        self.iter.next()
    }
}

} // verus!
