//! The interface of all generators, and the sequence of items that a
//! generator stands for.

use vstd::prelude::*;
use vstd::string::StringExecFns;
use crate::text::append_decimal;
use crate::text::decimal;
use crate::text::leading_numbers;

pub mod choice;
pub mod fibonacci;
pub mod prime1s;
pub mod prime3s;
pub mod prime7s;
pub mod primes;
pub mod squares;
pub mod times;

verus! {

/// A finite, single-pass source of `(index, marked)` pairs.
///
/// A generator walks the indices from `cursor()` up to `last()`, one per
/// pull, and tells of each whether it has the generator's property. Once the
/// cursor has passed `last()` every further pull yields `None`.
pub trait Generator {
    /// Whether the generator's state is one that its constructors and
    /// `next` can have led to.
    spec fn wf(&self) -> bool;

    /// The first index that the generator was asked for.
    spec fn first(&self) -> nat;

    /// The index that the next pull yields, if it yields one.
    spec fn cursor(&self) -> nat;

    /// The last index that the generator yields.
    spec fn last(&self) -> nat;

    /// Whether `index` has the property that this generator marks.
    spec fn marks(&self, index: nat) -> bool;

    /// The text that describes the generator.
    spec fn label(&self) -> Seq<char>;

    /// The number of indices from the first to the last one, by which a
    /// canvas is sized before the first pull. It does not change while the
    /// generator is driven.
    fn data_num(&self) -> (n: usize)
        requires
            self.wf(),
        ensures
            n == distance(self.first(), self.last()),
    ;

    /// A line that names the generator and its parameters.
    fn generator_info(&self) -> (info: String)
        requires
            self.wf(),
        ensures
            info@ == self.label(),
    ;

    /// Yields the item at the cursor and moves the cursor one index on, or
    /// yields `None` and leaves the cursor where it is once it is beyond
    /// `last()`: an exhausted generator stays exhausted.
    fn next(&mut self) -> (item: Option<(usize, bool)>)
        requires
            old(self).wf(),
        ensures
            final(self).wf(),
            final(self).first() == old(self).first(),
            final(self).last() == old(self).last(),
            final(self).label() == old(self).label(),
            forall|i: nat| final(self).marks(i) == old(self).marks(i),
            match item {
                Some((index, marked)) => {
                    &&& old(self).cursor() <= old(self).last()
                    &&& index == old(self).cursor()
                    &&& marked == old(self).marks(old(self).cursor())
                    &&& final(self).cursor() == old(self).cursor() + 1
                },
                None => {
                    &&& old(self).cursor() > old(self).last()
                    &&& final(self).cursor() == old(self).cursor()
                },
            },
    ;
}

/// The number of steps from `first` to `last`; zero when `first` lies beyond `last`.
pub open spec fn distance(first: nat, last: nat) -> nat {
    if first <= last {
        (last - first) as nat
    } else {
        0
    }
}

/// The number of indices from `cursor` to `last`, both counted.
pub open spec fn indices_left(cursor: nat, last: nat) -> nat {
    if cursor <= last {
        (last + 1 - cursor) as nat
    } else {
        0
    }
}

/// The items that are yielded from `cursor` to `last` where `marks` tells
/// which indices are marked.
pub open spec fn items_between(cursor: nat, last: nat, marks: spec_fn(nat) -> bool) -> Seq<
    (usize, bool),
> {
    Seq::new(
        indices_left(cursor, last),
        |k: int| ((cursor + k) as usize, marks((cursor + k) as nat)),
    )
}

/// The items that a generator yields from now on, in the order of the pulls.
pub open spec fn remaining<G: Generator>(gen: &G) -> Seq<(usize, bool)> {
    items_between(gen.cursor(), gen.last(), |i: nat| gen.marks(i))
}

/// The first index and the last index that a parameter string of the form
/// `from`, `from:to` or `from:to:...` asks for, where `to` is `default_to`
/// if the string does not give it; `None` if `from` or `to` is no number.
pub open spec fn range_parameters(gp: Seq<char>, default_to: usize) -> Option<(usize, usize)> {
    match leading_numbers(gp, ':', 2) {
        None => None,
        Some(values) => Some(
            (
                values[0],
                if values.len() > 1 {
                    values[1]
                } else {
                    default_to
                },
            ),
        ),
    }
}

/// The text that describes a generator by its name and its range.
pub open spec fn range_label(name: Seq<char>, from: nat, to: nat) -> Seq<char> {
    "generator = "@ + name + ", from = "@ + decimal(from) + ", to = "@ + decimal(to)
}

/// Writes the text that describes a generator by its name and its range.
pub fn range_info(name: &str, from: usize, to: usize) -> (info: String)
    ensures
        info@ == range_label(name@, from as nat, to as nat),
{
    let mut info = String::from_str("generator = ");
    info.append(name);
    info.append(", from = ");
    append_decimal(&mut info, from);
    info.append(", to = ");
    append_decimal(&mut info, to);
    info
}

/// Pulls from a generator until it is exhausted, and returns the items in
/// the order of the pulls.
pub fn drain<G: Generator>(gen: &mut G) -> (items: Vec<(usize, bool)>)
    requires
        old(gen).wf(),
    ensures
        final(gen).wf(),
        items@ == remaining(old(gen)),
        final(gen).cursor() > final(gen).last(),
        final(gen).first() == old(gen).first(),
        final(gen).last() == old(gen).last(),
        forall|i: nat| final(gen).marks(i) == old(gen).marks(i),
{
    let mut items: Vec<(usize, bool)> = Vec::new();
    loop
        invariant
            gen.wf(),
            gen.first() == old(gen).first(),
            gen.last() == old(gen).last(),
            forall|i: nat| gen.marks(i) == old(gen).marks(i),
            old(gen).cursor() <= gen.cursor(),
            gen.cursor() <= gen.last() + 1 || gen.cursor() == old(gen).cursor(),
            items@.len() == gen.cursor() - old(gen).cursor(),
            forall|k: int|
                0 <= k < items@.len() ==> #[trigger] items@[k] == (
                    (old(gen).cursor() + k) as usize,
                    old(gen).marks((old(gen).cursor() + k) as nat),
                ),
        decreases indices_left(gen.cursor(), gen.last()),
    {
        match gen.next() {
            Some(item) => {
                items.push(item);
            },
            None => {
                assert(items@ =~= remaining(old(gen)));
                return items;
            },
        }
    }
}

/// Two generators that stand at the same index, end at the same index and
/// mark the same indices yield the same items, whatever else their states
/// hold.
pub proof fn lemma_same_parameters_same_items<A: Generator, B: Generator>(a: &A, b: &B)
    requires
        a.cursor() == b.cursor(),
        a.last() == b.last(),
        forall|i: nat| a.marks(i) == b.marks(i),
    ensures
        remaining(a) == remaining(b),
{
    assert(remaining(a) =~= remaining(b));
}

/// A generator that starts at index `cursor()` yields what a generator of
/// the same kind that starts at index 0 yields after its first `cursor()`
/// items.
pub proof fn lemma_skip_discards<A: Generator, B: Generator>(skipped: &A, whole: &B)
    requires
        whole.cursor() == 0,
        skipped.last() == whole.last(),
        forall|i: nat| skipped.marks(i) == whole.marks(i),
    ensures
        skipped.cursor() <= whole.last() + 1 ==> remaining(skipped) == remaining(whole).skip(
            skipped.cursor() as int,
        ),
        skipped.cursor() > whole.last() + 1 ==> remaining(skipped).len() == 0,
{
    if skipped.cursor() <= whole.last() + 1 {
        assert(remaining(skipped) =~= remaining(whole).skip(skipped.cursor() as int));
    }
}

/// A generator has items left exactly as long as its cursor has not passed
/// its last index, and the next item carries the cursor as its index.
pub proof fn lemma_remaining_head<G: Generator>(gen: &G)
    requires
        gen.last() <= usize::MAX,
    ensures
        remaining(gen).len() == indices_left(gen.cursor(), gen.last()),
        gen.cursor() <= gen.last() ==> remaining(gen)[0] == (
            gen.cursor() as usize,
            gen.marks(gen.cursor()),
        ),
{
}

} // verus!
