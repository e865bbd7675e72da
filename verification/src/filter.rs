//! Filter engine: keeps the rows whose `valid` field equals a chosen
//! literal, preserving their original order.

use vstd::prelude::*;
use crate::rows::{Observation, sum_how_many};

verus! {

/// The sub-sequence of `s` whose `valid` field equals `value`, in the
/// original order.
pub open spec fn filter_valid_spec(s: Seq<Observation>, value: u32) -> Seq<Observation> {
    s.filter(|r: Observation| r.valid == value)
}

/// Returns the rows of `rows` whose `valid` field equals `value`,
/// preserving their order. An empty result is a legitimate outcome,
/// not an error.
pub fn filter_by_valid(rows: &Vec<Observation>, value: u32) -> (out: Vec<Observation>)
    ensures
        out@ == filter_valid_spec(rows@, value),
{
    broadcast use vstd::seq_lib::group_filter_ensures;

    let mut out: Vec<Observation> = Vec::new();
    let mut i: usize = 0;
    while i < rows.len()
        invariant
            i <= rows@.len(),
            out@ == filter_valid_spec(rows@.take(i as int), value),
        decreases rows@.len() - i,
    {
        proof {
            let pred = |r: Observation| r.valid == value;
            assert(rows@.take(i + 1).drop_last() =~= rows@.take(i as int));
            assert(rows@.take(i + 1).last() == rows@[i as int]);
            assert(rows@.take(i + 1).filter(pred) == if pred(rows@[i as int]) {
                rows@.take(i as int).filter(pred).push(rows@[i as int])
            } else {
                rows@.take(i as int).filter(pred)
            }) by {
                reveal(Seq::filter);
            };
        }
        if rows[i].valid == value {
            out.push(rows[i].clone());
        }
        i = i + 1;
    }
    proof {
        assert(rows@.take(rows@.len() as int) =~= rows@);
    }
    out
}

/// Every row the filter keeps satisfies the predicate, so filtering a
/// second time with the same literal changes nothing: filtering is
/// idempotent.
pub proof fn lemma_filter_valid_idempotent(s: Seq<Observation>, value: u32)
    ensures
        filter_valid_spec(filter_valid_spec(s, value), value) == filter_valid_spec(s, value),
{
    broadcast use vstd::seq_lib::group_filter_ensures;

    lemma_filter_all_kept(filter_valid_spec(s, value), value);
}

/// A sequence whose rows all carry the chosen `valid` value is left
/// unchanged by the filter.
pub proof fn lemma_filter_all_kept(s: Seq<Observation>, value: u32)
    requires
        forall|i: int| 0 <= i < s.len() ==> s[i].valid == value,
    ensures
        filter_valid_spec(s, value) == s,
    decreases s.len(),
{
    reveal(Seq::filter);
    if s.len() > 0 {
        lemma_filter_all_kept(s.drop_last(), value);
        assert(filter_valid_spec(s, value) =~= s);
    } else {
        assert(filter_valid_spec(s, value) =~= s);
    }
}

/// The filtered rows contribute no more to the total count than the
/// whole input does.
pub proof fn lemma_filter_sum_le(s: Seq<Observation>, value: u32)
    ensures
        sum_how_many(filter_valid_spec(s, value)) <= sum_how_many(s),
    decreases s.len(),
{
    reveal(Seq::filter);
    if s.len() == 0 {
    } else {
        lemma_filter_sum_le(s.drop_last(), value);
        let pred = |r: Observation| r.valid == value;
        if pred(s.last()) {
            assert(s.filter(pred) == s.drop_last().filter(pred).push(s.last()));
            assert(s.filter(pred).drop_last() =~= s.drop_last().filter(pred));
            assert(sum_how_many(s.filter(pred)) == sum_how_many(s.drop_last().filter(pred))
                + s.last().how_many);
        } else {
            assert(s.filter(pred) == s.drop_last().filter(pred));
        }
    }
}

} // verus!
