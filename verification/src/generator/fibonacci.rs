//! Fibonacci numbers, found by keeping the sequence one term ahead of the
//! cursor.

use vstd::prelude::*;
use crate::error::ConfigError;
use crate::generator::Generator;
use crate::generator::range_info;
use crate::generator::range_label;
use crate::generator::range_parameters;
use crate::numbers::fib;
use crate::numbers::is_fibonacci;
use crate::numbers::lemma_fib_gap;
use crate::numbers::lemma_fib_increasing;
use crate::numbers::lemma_fib_monotonic;
use crate::text::chars_of;
use crate::text::lemma_leading_numbers_len;
use crate::text::parse_leading_numbers;

verus! {

/// Walks the indices `0..=max` and marks the Fibonacci numbers. It keeps
/// the Fibonacci sequence up to the first term that the cursor has not
/// passed yet.
pub struct FibonaccisOrNotIterator {
    i: usize,
    done: bool,
    max: usize,
    fibonaccis: Vec<usize>,
}

/// Whether `value` occurs in `list`.
fn holds(list: &Vec<usize>, value: usize) -> (found: bool)
    ensures
        found == list@.contains(value),
{
    let mut k: usize = 0;
    while k < list.len()
        invariant
            k <= list@.len(),
            forall|j: int| 0 <= j < k ==> list@[j] != value,
        decreases list@.len() - k,
    {
        if list[k] == value {
            return true;
        }
        k = k + 1;
    }
    false
}

/// Whether `list` is the Fibonacci sequence kept one term ahead of the
/// cursor: it holds the sequence from its start, all terms but the last lie
/// below the cursor, and the last does not, unless the term after it is too
/// large for the machine.
pub open spec fn is_ahead(list: Seq<usize>, cursor: nat) -> bool {
    let len = list.len();
    &&& len >= 4
    &&& forall|j: int| 0 <= j < len ==> #[trigger] list[j] == fib(j as nat)
    &&& cursor < 2 ==> len == 4
    &&& cursor >= 2 ==> fib((len - 2) as nat) < cursor
    &&& cursor <= fib((len - 1) as nat) || fib(len) > usize::MAX
}

/// The first terms of the Fibonacci sequence.
proof fn lemma_first_fibs()
    ensures
        fib(0) == 0,
        fib(1) == 1,
        fib(2) == 1,
        fib(3) == 2,
        fib(4) == 3,
{
    reveal_with_fuel(fib, 5);
}

/// A list that is ahead of the cursor holds the cursor exactly if the
/// cursor is a Fibonacci number, and then the cursor is its last term.
proof fn lemma_ahead_holds(list: Seq<usize>, c: nat)
    requires
        is_ahead(list, c),
        2 <= c <= usize::MAX,
    ensures
        list.contains(c as usize) == is_fibonacci(c),
        list.contains(c as usize) == (c == fib((list.len() - 1) as nat)),
{
    let len = list.len();
    lemma_fib_increasing((len - 2) as nat);
    lemma_fib_increasing((len - 1) as nat);
    if c == fib((len - 1) as nat) {
        assert(list[len - 1] == c);
    } else {
        if c < fib((len - 1) as nat) {
            lemma_fib_gap((len - 2) as nat, c);
        } else {
            lemma_fib_gap((len - 1) as nat, c);
        }
        assert forall|j: int| 0 <= j < len implies list[j] != c by {
            if j <= len - 2 {
                lemma_fib_monotonic(j as nat, (len - 2) as nat);
            }
        }
    }
}

/// A list that is ahead of a cursor which is not its last term is ahead of
/// the next cursor too.
proof fn lemma_ahead_stays(list: Seq<usize>, c: nat)
    requires
        is_ahead(list, c),
        c >= 2 ==> c != fib((list.len() - 1) as nat) || fib(list.len()) > usize::MAX,
    ensures
        is_ahead(list, c + 1),
{
    lemma_first_fibs();
    if c >= 2 {
        lemma_fib_increasing((list.len() - 2) as nat);
    }
}

/// A list that is ahead of a cursor which is its last term is ahead of the
/// next cursor once the sum of its last two terms is put behind it.
proof fn lemma_ahead_grows(list: Seq<usize>, c: nat, sum: usize)
    requires
        is_ahead(list, c),
        c >= 2,
        c == fib((list.len() - 1) as nat),
        sum == list[list.len() - 2] + list[list.len() - 1],
    ensures
        is_ahead(list.push(sum), c + 1),
{
    let len = list.len();
    let grown = list.push(sum);
    lemma_fib_increasing((len - 1) as nat);
    assert(fib(len) == fib((len - 1) as nat) + fib((len - 2) as nat));
    assert(list[len - 2] == fib((len - 2) as nat));
    assert(list[len - 1] == fib((len - 1) as nat));
    assert forall|j: int| 0 <= j < grown.len() implies #[trigger] grown[j] == fib(j as nat) by {
        if j < len {
            assert(grown[j] == list[j]);
        }
    }
}

/// Where the sum of the last two terms is too large for the machine, so is
/// the term that follows them.
proof fn lemma_ahead_ends(list: Seq<usize>, c: nat)
    requires
        is_ahead(list, c),
        list[list.len() - 2] + list[list.len() - 1] > usize::MAX,
    ensures
        fib(list.len()) > usize::MAX,
{
    let len = list.len();
    assert(fib(len) == fib((len - 1) as nat) + fib((len - 2) as nat));
    assert(list[len - 2] == fib((len - 2) as nat));
    assert(list[len - 1] == fib((len - 1) as nat));
}

impl FibonaccisOrNotIterator {
    /// The list of Fibonacci numbers is ahead of the cursor.
    pub closed spec fn wf(&self) -> bool {
        &&& self.i <= self.max
        &&& is_ahead(self.fibonaccis@, self.cursor())
    }

    /// The index that the next pull yields, if it yields one.
    pub closed spec fn cursor(&self) -> nat {
        if self.done {
            (self.max + 1) as nat
        } else {
            self.i as nat
        }
    }

    /// The last index that the iterator yields.
    pub closed spec fn last(&self) -> nat {
        self.max as nat
    }

    /// An iterator over `0..=n` that marks the Fibonacci numbers.
    pub fn new(n: usize) -> (iter: FibonaccisOrNotIterator)
        ensures
            iter.wf(),
            iter.cursor() == 0,
            iter.last() == n,
    {
        let mut fibonaccis: Vec<usize> = Vec::new();
        fibonaccis.push(0);
        fibonaccis.push(1);
        fibonaccis.push(1);
        fibonaccis.push(2);
        proof {
            lemma_first_fibs();
        }
        FibonaccisOrNotIterator { i: 0, done: false, max: n, fibonaccis }
    }

    /// Yields the index at the cursor and whether it is a Fibonacci
    /// number, or `None` once the cursor is beyond the last index.
    pub fn next(&mut self) -> (item: Option<(usize, bool)>)
        requires
            old(self).wf(),
        ensures
            final(self).wf(),
            final(self).last() == old(self).last(),
            match item {
                Some((index, marked)) => {
                    &&& old(self).cursor() <= old(self).last()
                    &&& index == old(self).cursor()
                    &&& marked == is_fibonacci(index as nat)
                    &&& final(self).cursor() == old(self).cursor() + 1
                },
                None => {
                    &&& old(self).cursor() > old(self).last()
                    &&& final(self).cursor() == old(self).cursor()
                },
            },
    {
        if self.done {
            return None;
        }
        let i = self.i;
        let ghost list = self.fibonaccis@;
        let marked = if i < 2 {
            proof {
                lemma_first_fibs();
                lemma_ahead_stays(list, i as nat);
            }
            true
        } else {
            let found = holds(&self.fibonaccis, i);
            proof {
                lemma_ahead_holds(list, i as nat);
            }
            if found {
                let a = self.fibonaccis[self.fibonaccis.len() - 2];
                let b = self.fibonaccis[self.fibonaccis.len() - 1];
                match a.checked_add(b) {
                    Some(sum) => {
                        self.fibonaccis.push(sum);
                        proof {
                            lemma_ahead_grows(list, i as nat, sum);
                        }
                    },
                    None => {
                        proof {
                            lemma_ahead_ends(list, i as nat);
                            lemma_ahead_stays(list, i as nat);
                        }
                    },
                }
            } else {
                proof {
                    lemma_ahead_stays(list, i as nat);
                }
            }
            found
        };
        assert(is_ahead(self.fibonaccis@, (i + 1) as nat));
        if i < self.max {
            self.i = i + 1;
        } else {
            self.done = true;
        }
        Some((i, marked))
    }
}

/// Marks the Fibonacci numbers among the indices `skip..=max`.
pub struct FibonacciGenerator {
    max: usize,
    skip: usize,
    pending: usize,
    iter: FibonaccisOrNotIterator,
}

impl FibonacciGenerator {
    /// A generator over `skip..=n` that marks the Fibonacci numbers.
    pub fn new(n: usize, skip: usize) -> (gen: FibonacciGenerator)
        ensures
            gen.wf(),
            gen.first() == skip,
            gen.cursor() == skip,
            gen.last() == n,
    {
        FibonacciGenerator { max: n, skip, pending: skip, iter: FibonaccisOrNotIterator::new(n) }
    }

    /// A generator built from a parameter string `from[:to]`; where `to` is
    /// left out the last index is 10000.
    pub fn from_gp(gp: &str) -> (made: Result<Self, ConfigError>)
        ensures
            match made {
                Ok(gen) => {
                    &&& range_parameters(gp@, 10000) is Some
                    &&& gen.wf()
                    &&& gen.first() == range_parameters(gp@, 10000)->Some_0.0
                    &&& gen.cursor() == range_parameters(gp@, 10000)->Some_0.0
                    &&& gen.last() == range_parameters(gp@, 10000)->Some_0.1
                },
                Err(e) => range_parameters(gp@, 10000) is None && e
                    == ConfigError::InvalidParameter,
            },
    {
        let chars = chars_of(gp);
        proof {
            lemma_leading_numbers_len(gp@, ':', 2);
        }
        let values = match parse_leading_numbers(chars.as_slice(), ':', 2) {
            Ok(values) => values,
            Err(e) => {
                return Err(e);
            },
        };
        let from = values[0];
        let to = if values.len() > 1 {
            values[1]
        } else {
            10000
        };
        Ok(Self::new(to, from))
    }
}

impl Generator for FibonacciGenerator {
    closed spec fn wf(&self) -> bool {
        &&& self.iter.wf()
        &&& self.iter.last() == self.max
        &&& self.pending > 0 ==> self.iter.cursor() + self.pending == self.skip
    }

    closed spec fn first(&self) -> nat {
        self.skip as nat
    }

    closed spec fn cursor(&self) -> nat {
        self.iter.cursor() + self.pending as nat
    }

    closed spec fn last(&self) -> nat {
        self.max as nat
    }

    open spec fn marks(&self, index: nat) -> bool {
        is_fibonacci(index)
    }

    open spec fn label(&self) -> Seq<char> {
        range_label("fibonacci"@, self.first(), self.last())
    }

    fn data_num(&self) -> (n: usize) {
        if self.skip <= self.max {
            self.max - self.skip
        } else {
            0
        }
    }

    fn generator_info(&self) -> (info: String) {
        range_info("fibonacci", self.skip, self.max)
    }

    fn next(&mut self) -> (item: Option<(usize, bool)>) {
        while self.pending > 0
            invariant
                self.wf(),
                self.first() == old(self).first(),
                self.last() == old(self).last(),
                self.cursor() == old(self).cursor(),
            decreases self.pending,
        {
            match self.iter.next() {
                Some(_) => {},
                None => {
                    return None;
                },
            }
            self.pending = self.pending - 1;
        }
        self.iter.next()
    }
}

} // verus!
