use crate::error::Error;
use crate::parser::Parser;
use vstd::prelude::*;
use vstd::seq_lib::{to_multiset_build, to_multiset_insert};

verus! {

/// Where `error` belongs among `sorted`: behind every diagnostic that
/// starts no later than it.
pub open spec fn place_for(sorted: Seq<Error>, error: Error) -> int
    decreases sorted.len(),
{
    if sorted.len() == 0 {
        0
    } else if sorted.last().location.start <= error.location.start {
        sorted.len() as int
    } else {
        place_for(sorted.drop_last(), error)
    }
}

/// The diagnostics `errors` by the place where they start. Those that
/// start at the same place keep the order in which they were made.
pub open spec fn by_position(errors: Seq<Error>) -> Seq<Error>
    decreases errors.len(),
{
    if errors.len() == 0 {
        Seq::empty()
    } else {
        let before = by_position(errors.drop_last());
        before.insert(place_for(before, errors.last()), errors.last())
    }
}

/// Whether no diagnostic of `errors` starts before one that precedes it.
pub open spec fn in_position_order(errors: Seq<Error>) -> bool {
    forall|i: int, j: int|
        0 <= i < j < errors.len() ==> errors[i].location.start <= errors[j].location.start
}

/// The place for a diagnostic lies behind everything that starts no later
/// and before everything that starts later.
pub proof fn lemma_place_for(sorted: Seq<Error>, error: Error)
    requires
        in_position_order(sorted),
    ensures
        0 <= place_for(sorted, error) <= sorted.len(),
        forall|k: int|
            0 <= k < place_for(sorted, error) ==> sorted[k].location.start
                <= error.location.start,
        forall|k: int|
            place_for(sorted, error) <= k < sorted.len() ==> sorted[k].location.start
                > error.location.start,
    decreases sorted.len(),
{
    if sorted.len() > 0 && sorted.last().location.start > error.location.start {
        let front = sorted.drop_last();
        assert forall|i: int, j: int| 0 <= i < j < front.len() implies front[i].location.start
            <= front[j].location.start by {
            assert(front[i] == sorted[i] && front[j] == sorted[j]);
        }
        lemma_place_for(front, error);
        assert forall|k: int| 0 <= k < place_for(sorted, error) implies sorted[k].location.start
            <= error.location.start by {
            assert(front[k] == sorted[k]);
        }
        assert forall|k: int| place_for(sorted, error) <= k < sorted.len() implies sorted[k].location.start
            > error.location.start by {
            if k < front.len() {
                assert(front[k] == sorted[k]);
            }
        }
    }
}

/// Sorting by position gives the same diagnostics, each as often as
/// before, and none starts before one that precedes it.
pub proof fn lemma_by_position(errors: Seq<Error>)
    ensures
        in_position_order(by_position(errors)),
        by_position(errors).len() == errors.len(),
        by_position(errors).to_multiset() == errors.to_multiset(),
    decreases errors.len(),
{
    if errors.len() == 0 {
        assert(errors =~= Seq::empty());
    } else {
        let front = errors.drop_last();
        let last = errors.last();
        let before = by_position(front);
        lemma_by_position(front);
        lemma_place_for(before, last);
        let place = place_for(before, last);
        let after = before.insert(place, last);
        before.insert_ensures(place, last);
        assert forall|i: int, j: int| 0 <= i < j < after.len() implies after[i].location.start
            <= after[j].location.start by {
            if i < place {
                assert(after[i] == before[i]);
            } else if i > place {
                assert(after[i] == before[i - 1]);
            }
            if j < place {
                assert(after[j] == before[j]);
            } else if j > place {
                assert(after[j] == before[j - 1]);
            }
        }
        assert(front.push(last) =~= errors);
        to_multiset_insert(before, place, last);
        to_multiset_build(front, last);
        assert(after.to_multiset() =~= before.to_multiset().insert(last));
        assert(errors.to_multiset() =~= front.to_multiset().insert(last));
    }
}

impl Parser {
    /// The diagnostics made so far, by the place where they start. Those
    /// that start at the same place keep the order in which they were
    /// made.
    pub fn sorted_errors(&self) -> (result: Vec<Error>)
        ensures
            result@ == by_position(self.errors@),
            in_position_order(result@),
            result@.to_multiset() == self.errors@.to_multiset(),
    {
        let mut out: Vec<Error> = Vec::new();
        let mut index: usize = 0;
        assert(self.errors@.take(0) =~= Seq::empty());
        while index < self.errors.len()
            invariant
                index <= self.errors@.len(),
                out@ == by_position(self.errors@.take(index as int)),
            decreases self.errors@.len() - index,
        {
            let error = self.errors[index];
            proof {
                assert(self.errors@.take(index + 1).drop_last() =~= self.errors@.take(
                    index as int,
                ));
                lemma_by_position(self.errors@.take(index as int));
            }
            let mut place: usize = out.len();
            proof {
                assert(out@.take(out@.len() as int) =~= out@);
            }
            while place > 0 && out[place - 1].location.start > error.location.start
                invariant
                    place <= out@.len(),
                    place_for(out@.take(place as int), error) == place_for(out@, error),
                decreases place,
            {
                proof {
                    assert(out@.take(place as int).drop_last() =~= out@.take(place - 1));
                }
                place -= 1;
            }
            out.insert(place, error);
            index += 1;
        }
        proof {
            assert(self.errors@.take(index as int) =~= self.errors@);
            lemma_by_position(self.errors@);
        }
        out
    }
}

} // verus!
