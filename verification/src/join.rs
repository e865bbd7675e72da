//! Join engine: inner equi-join of the sorted summaries with the
//! code-to-name lookup table on `species_code`. Summaries without a
//! matching lookup row are dropped, and so are lookup rows no summary
//! refers to; output order follows the left sequence.

use vstd::prelude::*;
use crate::rows::{AggregateRecord, LookupRow, EnrichedRecord, agg_key, enriched_key};
use crate::sort::distinct_agg_keys;

verus! {

/// A summary completed with the species name of one lookup row.
pub open spec fn combined(a: AggregateRecord, l: LookupRow) -> EnrichedRecord {
    EnrichedRecord {
        region_code: a.region_code,
        species_code: a.species_code,
        total_species: a.total_species,
        total_sightings: a.total_sightings,
        species_name: l.species_name,
    }
}

/// The enriched records one summary gains from the lookup table: one per
/// lookup row sharing its `species_code`, in table order.
pub open spec fn lookup_matches(a: AggregateRecord, right: Seq<LookupRow>) -> Seq<EnrichedRecord>
    decreases right.len(),
{
    if right.len() == 0 {
        Seq::empty()
    } else {
        lookup_matches(a, right.drop_last()) + if right.last().species_code@
            == a.species_code@ {
            seq![combined(a, right.last())]
        } else {
            seq![]
        }
    }
}

/// The inner join: each left summary's matches in turn, left order first.
pub open spec fn join_spec(left: Seq<AggregateRecord>, right: Seq<LookupRow>) -> Seq<
    EnrichedRecord,
>
    decreases left.len(),
{
    if left.len() == 0 {
        Seq::empty()
    } else {
        join_spec(left.drop_last(), right) + lookup_matches(left.last(), right)
    }
}

/// No two lookup rows share a `species_code`.
pub open spec fn distinct_lookup_codes(right: Seq<LookupRow>) -> bool {
    forall|i: int, j: int|
        0 <= i < j < right.len() ==> right[i].species_code@ != right[j].species_code@
}

/// `e` combines `a` with some lookup row of `right` sharing `a`'s code.
pub open spec fn combines_some_row(
    a: AggregateRecord,
    right: Seq<LookupRow>,
    e: EnrichedRecord,
) -> bool {
    exists|j: int|
        0 <= j < right.len() && (#[trigger] right[j]).species_code@ == a.species_code@ && e
            == combined(a, right[j])
}

/// Where a summary's matches come from: every one of them combines the
/// summary itself with a lookup row that shares its `species_code`.
pub proof fn lemma_lookup_matches_src(a: AggregateRecord, right: Seq<LookupRow>)
    ensures
        forall|m: int|
            0 <= m < lookup_matches(a, right).len() ==> combines_some_row(
                a,
                right,
                #[trigger] lookup_matches(a, right)[m],
            ),
    decreases right.len(),
{
    if right.len() > 0 {
        let d = right.drop_last();
        lemma_lookup_matches_src(a, d);
        assert forall|m: int| 0 <= m < lookup_matches(a, right).len() implies combines_some_row(
            a,
            right,
            #[trigger] lookup_matches(a, right)[m],
        ) by {
            if m < lookup_matches(a, d).len() {
                assert(lookup_matches(a, right)[m] == lookup_matches(a, d)[m]);
                assert(combines_some_row(a, d, lookup_matches(a, d)[m]));
                let j = choose|j: int|
                    0 <= j < d.len() && (#[trigger] d[j]).species_code@ == a.species_code@
                        && lookup_matches(a, d)[m] == combined(a, d[j]);
                assert(right[j] == d[j]);
            } else {
                assert(right.last().species_code@ == a.species_code@);
                assert(lookup_matches(a, right)[m] == combined(a, right.last()));
                assert(right[right.len() - 1] == right.last());
            }
        }
    }
}

/// A summary whose code no lookup row carries gains no match.
pub proof fn lemma_lookup_matches_unmatched(a: AggregateRecord, right: Seq<LookupRow>)
    requires
        forall|j: int| 0 <= j < right.len() ==> right[j].species_code@ != a.species_code@,
    ensures
        lookup_matches(a, right) =~= Seq::<EnrichedRecord>::empty(),
    decreases right.len(),
{
    if right.len() > 0 {
        let d = right.drop_last();
        assert(forall|j: int| 0 <= j < d.len() ==> d[j] == right[j]);
        lemma_lookup_matches_unmatched(a, d);
    }
}

/// With pairwise distinct lookup codes a summary matches at most once.
pub proof fn lemma_lookup_matches_unique(a: AggregateRecord, right: Seq<LookupRow>)
    requires
        distinct_lookup_codes(right),
    ensures
        lookup_matches(a, right).len() <= 1,
    decreases right.len(),
{
    if right.len() > 0 {
        let d = right.drop_last();
        assert(forall|i: int, j: int|
            0 <= i < j < d.len() ==> d[i].species_code@ != d[j].species_code@);
        if right.last().species_code@ == a.species_code@ {
            assert(forall|j: int|
                0 <= j < d.len() ==> #[trigger] d[j].species_code@ != a.species_code@);
            lemma_lookup_matches_unmatched(a, d);
        } else {
            lemma_lookup_matches_unique(a, d);
        }
    }
}

/// Every joined record keeps the key of the summary it came from: no
/// `species_code` absent from the lookup table, and no key absent from
/// the left side, can appear in the output.
pub proof fn lemma_join_spec_src(left: Seq<AggregateRecord>, right: Seq<LookupRow>)
    ensures
        forall|m: int|
            0 <= m < join_spec(left, right).len() ==> exists|i: int|
                0 <= i < left.len() && agg_key(left[i]) == enriched_key(
                    #[trigger] join_spec(left, right)[m],
                ),
        forall|m: int|
            0 <= m < join_spec(left, right).len() ==> exists|j: int|
                0 <= j < right.len() && right[j].species_code@ == (#[trigger] join_spec(
                    left,
                    right,
                )[m]).species_code@,
    decreases left.len(),
{
    if left.len() > 0 {
        let d = left.drop_last();
        let a = left.last();
        lemma_join_spec_src(d, right);
        lemma_lookup_matches_src(a, right);
        let js = join_spec(left, right);
        let prev = join_spec(d, right);
        assert forall|m: int| 0 <= m < js.len() implies exists|i: int|
            0 <= i < left.len() && agg_key(left[i]) == enriched_key(#[trigger] js[m]) by {
            if m < prev.len() {
                assert(js[m] == prev[m]);
                let i = choose|i: int|
                    0 <= i < d.len() && agg_key(d[i]) == enriched_key(#[trigger] prev[m]);
                assert(left[i] == d[i]);
            } else {
                assert(js[m] == lookup_matches(a, right)[m - prev.len()]);
                assert(combines_some_row(a, right, js[m]));
                let j = choose|j: int|
                    0 <= j < right.len() && (#[trigger] right[j]).species_code@
                        == a.species_code@ && js[m] == combined(a, right[j]);
                assert(agg_key(left[left.len() - 1]) == enriched_key(js[m]));
            }
        }
        assert forall|m: int| 0 <= m < js.len() implies exists|j: int|
            0 <= j < right.len() && right[j].species_code@ == (#[trigger] js[m]).species_code@ by {
            if m < prev.len() {
                assert(js[m] == prev[m]);
            } else {
                assert(js[m] == lookup_matches(a, right)[m - prev.len()]);
                assert(combines_some_row(a, right, js[m]));
                let j = choose|j: int|
                    0 <= j < right.len() && (#[trigger] right[j]).species_code@
                        == a.species_code@ && js[m] == combined(a, right[j]);
                assert(right[j].species_code@ == js[m].species_code@);
            }
        }
    }
}

/// With distinct keys on the left and distinct codes in the lookup
/// table, no two joined records share both `region_code` and
/// `species_code`. Duplicates could only come from duplicate lookup
/// codes or duplicate left keys.
pub proof fn lemma_join_spec_distinct_keys(left: Seq<AggregateRecord>, right: Seq<LookupRow>)
    requires
        distinct_agg_keys(left),
        distinct_lookup_codes(right),
    ensures
        forall|m1: int, m2: int|
            0 <= m1 < m2 < join_spec(left, right).len() ==> enriched_key(
                #[trigger] join_spec(left, right)[m1],
            ) != enriched_key(#[trigger] join_spec(left, right)[m2]),
    decreases left.len(),
{
    if left.len() > 0 {
        let d = left.drop_last();
        let a = left.last();
        assert(distinct_agg_keys(d)) by {
            assert(forall|i: int| 0 <= i < d.len() ==> d[i] == left[i]);
        }
        lemma_join_spec_distinct_keys(d, right);
        lemma_join_spec_src(d, right);
        lemma_lookup_matches_unique(a, right);
        lemma_lookup_matches_src(a, right);
        let js = join_spec(left, right);
        let prev = join_spec(d, right);
        assert forall|m1: int, m2: int| 0 <= m1 < m2 < js.len() implies enriched_key(
            #[trigger] js[m1],
        ) != enriched_key(#[trigger] js[m2]) by {
            if m2 < prev.len() {
                assert(js[m1] == prev[m1]);
                assert(js[m2] == prev[m2]);
            } else {
                // m2 falls in the (at most one) match of the last summary
                assert(js[m2] == lookup_matches(a, right)[m2 - prev.len()]);
                assert(combines_some_row(a, right, js[m2]));
                let j = choose|j: int|
                    0 <= j < right.len() && (#[trigger] right[j]).species_code@
                        == a.species_code@ && js[m2] == combined(a, right[j]);
                assert(enriched_key(js[m2]) == agg_key(a));
                assert(m1 < prev.len());
                assert(js[m1] == prev[m1]);
                let i = choose|i: int|
                    0 <= i < d.len() && agg_key(d[i]) == enriched_key(#[trigger] prev[m1]);
                assert(left[i] == d[i]);
                assert(agg_key(left[i]) != agg_key(a));
            }
        }
    }
}

/// Joins the summaries with the lookup table: one output record per
/// summary-and-row pair sharing a `species_code`, ordered by the left
/// sequence; unmatched records on either side are dropped silently —
/// an empty result is legitimate, not an error.
pub fn join_with_lookup(left: &Vec<AggregateRecord>, right: &Vec<LookupRow>) -> (out: Vec<
    EnrichedRecord,
>)
    ensures
        out@ == join_spec(left@, right@),
{
    let mut out: Vec<EnrichedRecord> = Vec::new();
    let mut i: usize = 0;
    while i < left.len()
        invariant
            i <= left@.len(),
            out@ == join_spec(left@.take(i as int), right@),
        decreases left@.len() - i,
    {
        proof {
            assert(left@.take(i + 1).drop_last() =~= left@.take(i as int));
            assert(left@.take(i + 1).last() == left@[i as int]);
        }
        let mut j: usize = 0;
        while j < right.len()
            invariant
                j <= right@.len(),
                i < left@.len(),
                out@ == join_spec(left@.take(i as int), right@) + lookup_matches(
                    left@[i as int],
                    right@.take(j as int),
                ),
            decreases right@.len() - j,
        {
            proof {
                assert(right@.take(j + 1).drop_last() =~= right@.take(j as int));
                assert(right@.take(j + 1).last() == right@[j as int]);
            }
            if left[i].species_code == right[j].species_code {
                out.push(EnrichedRecord {
                    region_code: left[i].region_code.clone(),
                    species_code: left[i].species_code.clone(),
                    total_species: left[i].total_species,
                    total_sightings: left[i].total_sightings,
                    species_name: right[j].species_name.clone(),
                });
                proof {
                    assert(lookup_matches(left@[i as int], right@.take(j + 1))
                        == lookup_matches(left@[i as int], right@.take(j as int)) + seq![
                        combined(left@[i as int], right@[j as int]),
                    ]);
                    assert(out@ =~= join_spec(left@.take(i as int), right@) + lookup_matches(
                        left@[i as int],
                        right@.take(j + 1),
                    ));
                }
            } else {
                proof {
                    assert(lookup_matches(left@[i as int], right@.take(j + 1))
                        == lookup_matches(left@[i as int], right@.take(j as int)) + seq![]);
                    assert(out@ =~= join_spec(left@.take(i as int), right@) + lookup_matches(
                        left@[i as int],
                        right@.take(j + 1),
                    ));
                }
            }
            j = j + 1;
        }
        proof {
            assert(right@.take(right@.len() as int) =~= right@);
            assert(out@ == join_spec(left@.take(i + 1), right@));
        }
        i = i + 1;
    }
    proof {
        assert(left@.take(left@.len() as int) =~= left@);
    }
    out
}

} // verus!
