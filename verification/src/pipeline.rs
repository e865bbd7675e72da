//! The whole pipeline: filter the valid rows, group them by
//! `(region_code, species_code)`, sort the summaries by `total_species`
//! descending, and enrich them with species names from the lookup table.

use vstd::prelude::*;
use crate::rows::{Observation, LookupRow, EnrichedRecord, enriched_key, sum_how_many,
    lemma_sum_how_many_take_le};
use crate::filter::{filter_by_valid, filter_valid_spec, lemma_filter_sum_le};
use crate::group::{group_by_key, group_spec, lemma_group_spec_distinct};
use crate::sort::{sort_by_total_desc, sort_desc, lemma_sort_desc_distinct_keys};
use crate::join::{join_with_lookup, join_spec, distinct_lookup_codes,
    lemma_join_spec_distinct_keys};

verus! {

/// End-to-end model: join the sorted summaries of the grouped,
/// `valid == 1` rows with the lookup table.
pub open spec fn pipeline_spec(obs: Seq<Observation>, lookup: Seq<LookupRow>) -> Seq<
    EnrichedRecord,
> {
    join_spec(sort_desc(group_spec(filter_valid_spec(obs, 1))), lookup)
}

/// Runs the pipeline over already-normalized rows. The bound on the
/// grand total keeps every per-group sum inside `u64`.
pub fn run_pipeline(observations: &Vec<Observation>, lookup: &Vec<LookupRow>) -> (out: Vec<
    EnrichedRecord,
>)
    requires
        sum_how_many(observations@) <= u64::MAX,
    ensures
        out@ == pipeline_spec(observations@, lookup@),
{
    let valid_rows = filter_by_valid(observations, 1);
    proof {
        lemma_filter_sum_le(observations@, 1);
    }
    let groups = group_by_key(&valid_rows);
    let ordered = sort_by_total_desc(&groups);
    join_with_lookup(&ordered, lookup)
}

/// Sums the `how_many` counts, reporting `None` exactly when the total
/// leaves `u64`.
fn checked_total(observations: &Vec<Observation>) -> (r: Option<u64>)
    ensures
        r is Some <==> sum_how_many(observations@) <= u64::MAX,
        r matches Some(t) ==> t == sum_how_many(observations@),
{
    let mut total: u64 = 0;
    let mut i: usize = 0;
    while i < observations.len()
        invariant
            i <= observations@.len(),
            total == sum_how_many(observations@.take(i as int)),
        decreases observations@.len() - i,
    {
        proof {
            assert(observations@.take(i + 1).drop_last() =~= observations@.take(i as int));
            assert(observations@.take(i + 1).last() == observations@[i as int]);
        }
        let hm = observations[i].how_many as u64;
        if total > u64::MAX - hm {
            proof {
                lemma_sum_how_many_take_le(observations@, i + 1);
            }
            return None;
        }
        total = total + hm;
        i = i + 1;
    }
    proof {
        assert(observations@.take(observations@.len() as int) =~= observations@);
    }
    Some(total)
}

/// Runs the pipeline after checking the grand total itself: `None`
/// exactly when the `how_many` counts sum beyond `u64`, the enriched
/// output otherwise.
pub fn run_pipeline_checked(observations: &Vec<Observation>, lookup: &Vec<LookupRow>) -> (r:
    Option<Vec<EnrichedRecord>>)
    ensures
        r is Some <==> sum_how_many(observations@) <= u64::MAX,
        r matches Some(v) ==> v@ == pipeline_spec(observations@, lookup@),
{
    match checked_total(observations) {
        Some(_) => Some(run_pipeline(observations, lookup)),
        None => None,
    }
}

/// An empty observation set flows through every stage to an empty
/// output sequence; no stage treats it as an error.
pub proof fn lemma_pipeline_empty(lookup: Seq<LookupRow>)
    ensures
        pipeline_spec(Seq::<Observation>::empty(), lookup) == Seq::<EnrichedRecord>::empty(),
{
    reveal(Seq::filter);
    assert(filter_valid_spec(Seq::<Observation>::empty(), 1) =~= Seq::<Observation>::empty());
}

/// With pairwise distinct codes in the lookup table, no two pipeline
/// outputs share both `region_code` and `species_code`: grouping leaves
/// the keys distinct, sorting keeps them so, and the join then pairs
/// each summary with at most one lookup row.
pub proof fn lemma_pipeline_distinct_keys(obs: Seq<Observation>, lookup: Seq<LookupRow>)
    requires
        distinct_lookup_codes(lookup),
    ensures
        forall|m1: int, m2: int|
            0 <= m1 < m2 < pipeline_spec(obs, lookup).len() ==> enriched_key(
                #[trigger] pipeline_spec(obs, lookup)[m1],
            ) != enriched_key(#[trigger] pipeline_spec(obs, lookup)[m2]),
{
    let f = filter_valid_spec(obs, 1);
    lemma_group_spec_distinct(f);
    lemma_sort_desc_distinct_keys(group_spec(f));
    lemma_join_spec_distinct_keys(sort_desc(group_spec(f)), lookup);
}

} // verus!
