//! Group-by aggregator: buckets observations by `(region_code,
//! species_code)` and reduces each bucket to one summary, accumulating
//! `total_species = sum(how_many)` and `total_sightings = count()`.
//! The model `group_spec` lists groups in first-occurrence order; the
//! aggregate values themselves do not depend on row arrival order.

use vstd::prelude::*;
use crate::rows::{
    Observation, AggregateRecord, obs_key, agg_key, sum_how_many, lemma_sum_how_many_take_le,
};
use crate::sort::distinct_agg_keys;

verus! {

/// Index of the first group in `gs` whose key is `k`.
pub open spec fn find_group(gs: Seq<AggregateRecord>, k: (Seq<char>, Seq<char>)) -> Option<int>
    decreases gs.len(),
{
    if gs.len() == 0 {
        None
    } else if agg_key(gs[0]) == k {
        Some(0)
    } else {
        match find_group(gs.drop_first(), k) {
            Some(j) => Some(j + 1),
            None => None,
        }
    }
}

/// The rows of `s` that fall in the bucket keyed `k`, in input order.
pub open spec fn rows_with_key(s: Seq<Observation>, k: (Seq<char>, Seq<char>)) -> Seq<Observation> {
    s.filter(|r: Observation| obs_key(r) == k)
}

/// One more row folded into an accumulator.
pub open spec fn bump(a: AggregateRecord, r: Observation) -> AggregateRecord {
    AggregateRecord {
        region_code: a.region_code,
        species_code: a.species_code,
        total_species: (a.total_species + r.how_many) as u64,
        total_sightings: (a.total_sightings + 1) as u64,
    }
}

/// The accumulator a bucket starts from when its first row arrives.
pub open spec fn single_group(r: Observation) -> AggregateRecord {
    AggregateRecord {
        region_code: r.region_code,
        species_code: r.species_code,
        total_species: r.how_many as u64,
        total_sightings: 1u64,
    }
}

/// The grouped summaries of `s`, one per distinct key, listed in the
/// order the keys first occur.
pub open spec fn group_spec(s: Seq<Observation>) -> Seq<AggregateRecord>
    decreases s.len(),
{
    if s.len() == 0 {
        Seq::empty()
    } else {
        let prev = group_spec(s.drop_last());
        let r = s.last();
        match find_group(prev, obs_key(r)) {
            Some(j) => prev.update(j, bump(prev[j], r)),
            None => prev.push(single_group(r)),
        }
    }
}

/// Every row of `s` has a group in `gs` with its key.
pub open spec fn groups_complete(s: Seq<Observation>, gs: Seq<AggregateRecord>) -> bool {
    forall|i: int|
        0 <= i < s.len() ==> exists|j: int|
            0 <= j < gs.len() && agg_key(gs[j]) == obs_key(#[trigger] s[i])
}

/// Every group in `gs` owes its key to some row of `s`.
pub open spec fn groups_minimal(s: Seq<Observation>, gs: Seq<AggregateRecord>) -> bool {
    forall|j: int|
        0 <= j < gs.len() ==> exists|i: int|
            0 <= i < s.len() && obs_key(s[i]) == agg_key(#[trigger] gs[j])
}

/// Each group's `total_sightings` counts the rows sharing its key and
/// its `total_species` sums their `how_many`.
pub open spec fn groups_aggregate(s: Seq<Observation>, gs: Seq<AggregateRecord>) -> bool {
    forall|j: int|
        0 <= j < gs.len() ==> {
            &&& (#[trigger] gs[j]).total_sightings == rows_with_key(s, agg_key(gs[j])).len()
            &&& gs[j].total_species == sum_how_many(rows_with_key(s, agg_key(gs[j])))
        }
}

/// What `find_group` returns: the first index whose key matches, if any.
pub proof fn lemma_find_group_props(gs: Seq<AggregateRecord>, k: (Seq<char>, Seq<char>))
    ensures
        match find_group(gs, k) {
            Some(j) => 0 <= j < gs.len() && agg_key(gs[j]) == k && forall|m: int|
                0 <= m < j ==> agg_key(gs[m]) != k,
            None => forall|m: int| 0 <= m < gs.len() ==> agg_key(gs[m]) != k,
        },
    decreases gs.len(),
{
    if gs.len() > 0 && agg_key(gs[0]) != k {
        let d = gs.drop_first();
        lemma_find_group_props(d, k);
        match find_group(d, k) {
            Some(j) => {
                assert(gs[j + 1] == d[j]);
                assert forall|m: int| 0 <= m < j + 1 implies agg_key(gs[m]) != k by {
                    if m > 0 {
                        assert(gs[m] == d[m - 1]);
                    }
                }
            },
            None => {
                assert forall|m: int| 0 <= m < gs.len() implies agg_key(gs[m]) != k by {
                    if m > 0 {
                        assert(gs[m] == d[m - 1]);
                    }
                }
            },
        }
    }
}

/// Appending one row extends exactly its own bucket, leaving the others
/// as they were.
proof fn lemma_rows_with_key_step(s: Seq<Observation>, k: (Seq<char>, Seq<char>))
    requires
        s.len() > 0,
    ensures
        rows_with_key(s, k) == if obs_key(s.last()) == k {
            rows_with_key(s.drop_last(), k).push(s.last())
        } else {
            rows_with_key(s.drop_last(), k)
        },
{
    reveal(Seq::filter);
}

/// A bucket's rows contribute no more to the total count than the whole
/// input does.
proof fn lemma_rows_with_key_sum_le(s: Seq<Observation>, k: (Seq<char>, Seq<char>))
    ensures
        sum_how_many(rows_with_key(s, k)) <= sum_how_many(s),
        sum_how_many(rows_with_key(s, k)) >= 0,
    decreases s.len(),
{
    if s.len() == 0 {
        reveal(Seq::filter);
    } else {
        lemma_rows_with_key_sum_le(s.drop_last(), k);
        lemma_rows_with_key_step(s, k);
        if obs_key(s.last()) == k {
            let t = rows_with_key(s.drop_last(), k).push(s.last());
            assert(t.drop_last() =~= rows_with_key(s.drop_last(), k));
            assert(sum_how_many(t) == sum_how_many(rows_with_key(s.drop_last(), k))
                + s.last().how_many);
        }
    }
}

/// A bucket never holds more rows than the input.
proof fn lemma_rows_with_key_len_le(s: Seq<Observation>, k: (Seq<char>, Seq<char>))
    ensures
        rows_with_key(s, k).len() <= s.len(),
    decreases s.len(),
{
    if s.len() == 0 {
        reveal(Seq::filter);
    } else {
        lemma_rows_with_key_len_le(s.drop_last(), k);
        lemma_rows_with_key_step(s, k);
    }
}

/// A bucket no row of `s` falls into is empty.
proof fn lemma_rows_with_key_unmatched(s: Seq<Observation>, k: (Seq<char>, Seq<char>))
    requires
        forall|i: int| 0 <= i < s.len() ==> obs_key(s[i]) != k,
    ensures
        rows_with_key(s, k) =~= Seq::<Observation>::empty(),
    decreases s.len(),
{
    if s.len() == 0 {
        reveal(Seq::filter);
    } else {
        assert(forall|i: int| 0 <= i < s.drop_last().len() ==> obs_key(s.drop_last()[i]) != k);
        lemma_rows_with_key_unmatched(s.drop_last(), k);
        lemma_rows_with_key_step(s, k);
    }
}

/// The groups of `s` carry pairwise distinct keys, and there are no more
/// groups than rows.
pub proof fn lemma_group_spec_distinct(s: Seq<Observation>)
    ensures
        distinct_agg_keys(group_spec(s)),
        group_spec(s).len() <= s.len(),
    decreases s.len(),
{
    if s.len() > 0 {
        let d = s.drop_last();
        let r = s.last();
        let k = obs_key(r);
        let prev = group_spec(d);
        let gs = group_spec(s);
        lemma_group_spec_distinct(d);
        lemma_find_group_props(prev, k);
        match find_group(prev, k) {
            Some(j) => {
                assert forall|m: int, l: int|
                    0 <= m < l < gs.len() implies agg_key(gs[m]) != agg_key(gs[l]) by {
                    assert(agg_key(gs[m]) == agg_key(prev[m]));
                    assert(agg_key(gs[l]) == agg_key(prev[l]));
                }
            },
            None => {
                assert forall|m: int, l: int|
                    0 <= m < l < gs.len() implies agg_key(gs[m]) != agg_key(gs[l]) by {
                    assert(agg_key(gs[m]) == agg_key(prev[m]));
                    if l < prev.len() {
                        assert(agg_key(gs[l]) == agg_key(prev[l]));
                    } else {
                        assert(gs[l] == single_group(r));
                        assert(agg_key(prev[m]) != k);
                    }
                }
            },
        }
    }
}

/// Every row's key owns a group.
pub proof fn lemma_group_spec_complete(s: Seq<Observation>)
    ensures
        groups_complete(s, group_spec(s)),
    decreases s.len(),
{
    if s.len() > 0 {
        let d = s.drop_last();
        let r = s.last();
        let k = obs_key(r);
        let prev = group_spec(d);
        let gs = group_spec(s);
        lemma_group_spec_complete(d);
        lemma_find_group_props(prev, k);
        assert(gs.len() >= prev.len());
        assert(forall|m: int|
            0 <= m < prev.len() ==> agg_key(#[trigger] gs[m]) == agg_key(prev[m]));
        assert forall|i: int| 0 <= i < s.len() implies exists|j: int|
            0 <= j < gs.len() && agg_key(gs[j]) == obs_key(#[trigger] s[i]) by {
            if i < d.len() {
                assert(s[i] == d[i]);
                let j = choose|j: int|
                    0 <= j < prev.len() && agg_key(prev[j]) == obs_key(#[trigger] d[i]);
                assert(agg_key(gs[j]) == obs_key(s[i]));
            } else {
                match find_group(prev, k) {
                    Some(j) => {
                        assert(agg_key(gs[j]) == agg_key(prev[j]));
                        assert(agg_key(gs[j]) == obs_key(s[i]));
                    },
                    None => {
                        assert(agg_key(gs[gs.len() - 1]) == obs_key(s[i]));
                    },
                }
            }
        }
    }
}

/// Every group's key comes from a row.
pub proof fn lemma_group_spec_minimal(s: Seq<Observation>)
    ensures
        groups_minimal(s, group_spec(s)),
    decreases s.len(),
{
    if s.len() > 0 {
        let d = s.drop_last();
        let r = s.last();
        let k = obs_key(r);
        let prev = group_spec(d);
        let gs = group_spec(s);
        lemma_group_spec_minimal(d);
        lemma_find_group_props(prev, k);
        assert(forall|m: int|
            0 <= m < prev.len() ==> agg_key(#[trigger] gs[m]) == agg_key(prev[m]));
        assert forall|j: int| 0 <= j < gs.len() implies exists|i: int|
            0 <= i < s.len() && obs_key(s[i]) == agg_key(#[trigger] gs[j]) by {
            if j < prev.len() {
                let i = choose|i: int|
                    0 <= i < d.len() && obs_key(d[i]) == agg_key(#[trigger] prev[j]);
                assert(s[i] == d[i]);
                assert(obs_key(s[i]) == agg_key(gs[j]));
            } else {
                assert(obs_key(s[s.len() - 1]) == agg_key(gs[j]));
            }
        }
    }
}

/// Each group's totals are the count and `how_many` sum of the rows that
/// share its key.
pub proof fn lemma_group_spec_aggregate(s: Seq<Observation>)
    requires
        sum_how_many(s) <= u64::MAX,
        s.len() <= u64::MAX,
    ensures
        groups_aggregate(s, group_spec(s)),
    decreases s.len(),
{
    if s.len() > 0 {
        let d = s.drop_last();
        let r = s.last();
        let k = obs_key(r);
        let prev = group_spec(d);
        let gs = group_spec(s);
        assert(sum_how_many(d) <= u64::MAX);
        lemma_group_spec_aggregate(d);
        lemma_group_spec_distinct(d);
        lemma_group_spec_complete(d);
        lemma_find_group_props(prev, k);
        match find_group(prev, k) {
            Some(j) => {
                assert forall|m: int| 0 <= m < gs.len() implies {
                    &&& (#[trigger] gs[m]).total_sightings == rows_with_key(
                        s,
                        agg_key(gs[m]),
                    ).len()
                    &&& gs[m].total_species == sum_how_many(rows_with_key(s, agg_key(gs[m])))
                } by {
                    if m == j {
                        assert(agg_key(gs[m]) == agg_key(prev[j]));
                        let bucket = rows_with_key(s, k);
                        lemma_rows_with_key_step(s, k);
                        assert(bucket.drop_last() =~= rows_with_key(d, k));
                        assert(sum_how_many(bucket) == sum_how_many(rows_with_key(d, k))
                            + r.how_many);
                        lemma_rows_with_key_sum_le(s, k);
                        lemma_rows_with_key_sum_le(d, k);
                        lemma_rows_with_key_len_le(d, k);
                        assert(gs[m] == bump(prev[j], r));
                    } else {
                        assert(gs[m] == prev[m]);
                        assert(agg_key(prev[m]) != k);
                        lemma_rows_with_key_step(s, agg_key(prev[m]));
                    }
                }
            },
            None => {
                assert(forall|i: int| 0 <= i < d.len() ==> obs_key(#[trigger] d[i]) != k);
                lemma_rows_with_key_unmatched(d, k);
                assert forall|m: int| 0 <= m < gs.len() implies {
                    &&& (#[trigger] gs[m]).total_sightings == rows_with_key(
                        s,
                        agg_key(gs[m]),
                    ).len()
                    &&& gs[m].total_species == sum_how_many(rows_with_key(s, agg_key(gs[m])))
                } by {
                    if m == gs.len() - 1 {
                        assert(gs[m] == single_group(r));
                        let bucket = rows_with_key(s, k);
                        lemma_rows_with_key_step(s, k);
                        assert(bucket =~= Seq::<Observation>::empty().push(r));
                        assert(bucket.drop_last() =~= Seq::<Observation>::empty());
                        assert(bucket.last() == r);
                        assert(sum_how_many(Seq::<Observation>::empty()) == 0);
                        assert(sum_how_many(bucket) == sum_how_many(bucket.drop_last())
                            + bucket.last().how_many);
                        assert(sum_how_many(bucket) == r.how_many);
                    } else {
                        assert(gs[m] == prev[m]);
                        assert(agg_key(prev[m]) != k);
                        lemma_rows_with_key_step(s, agg_key(prev[m]));
                    }
                }
            },
        }
    }
}

/// How the groups change when row `i` of `s` arrives, together with the
/// bounds that keep the fold's arithmetic inside `u64`.
proof fn lemma_group_take_step(s: Seq<Observation>, i: int)
    requires
        0 <= i < s.len(),
        sum_how_many(s) <= u64::MAX,
        s.len() <= u64::MAX,
    ensures
        ({
            let prev = group_spec(s.take(i));
            let k = obs_key(s[i]);
            match find_group(prev, k) {
                Some(j) => {
                    &&& group_spec(s.take(i + 1)) == prev.update(j, bump(prev[j], s[i]))
                    &&& 0 <= j < prev.len()
                    &&& agg_key(prev[j]) == k
                    &&& (forall|m: int| 0 <= m < j ==> agg_key(prev[m]) != k)
                    &&& prev[j].total_species + s[i].how_many <= u64::MAX
                    &&& prev[j].total_sightings + 1 <= u64::MAX
                },
                None => {
                    &&& group_spec(s.take(i + 1)) == prev.push(single_group(s[i]))
                    &&& forall|m: int| 0 <= m < prev.len() ==> agg_key(prev[m]) != k
                },
            }
        }),
{
    let t = s.take(i + 1);
    let prev = group_spec(s.take(i));
    let k = obs_key(s[i]);
    assert(t.drop_last() =~= s.take(i));
    assert(t.last() == s[i]);
    lemma_find_group_props(prev, k);
    match find_group(prev, k) {
        Some(j) => {
            lemma_sum_how_many_take_le(s, i);
            lemma_group_spec_aggregate(s.take(i));
            lemma_rows_with_key_len_le(s.take(i), k);
            lemma_rows_with_key_step(t, k);
            let bucket = rows_with_key(t, k);
            assert(bucket.drop_last() =~= rows_with_key(s.take(i), k));
            assert(sum_how_many(bucket) == sum_how_many(rows_with_key(s.take(i), k))
                + s[i].how_many);
            lemma_sum_how_many_take_le(s, i + 1);
            lemma_rows_with_key_sum_le(t, k);
        },
        None => {},
    }
}

/// Partitions `rows` by `(region_code, species_code)` and reduces each
/// bucket to one summary. Produces exactly one record per distinct key,
/// in first-occurrence order; no ordering is promised beyond what
/// `group_spec` states, and the sorter imposes order downstream.
pub fn group_by_key(rows: &Vec<Observation>) -> (out: Vec<AggregateRecord>)
    requires
        sum_how_many(rows@) <= u64::MAX,
    ensures
        out@ == group_spec(rows@),
{
    let mut out: Vec<AggregateRecord> = Vec::new();
    let n = rows.len();
    let mut i: usize = 0;
    while i < n
        invariant
            n == rows@.len(),
            i <= n,
            sum_how_many(rows@) <= u64::MAX,
            out@ == group_spec(rows@.take(i as int)),
        decreases n - i,
    {
        proof {
            lemma_group_take_step(rows@, i as int);
        }
        let row = rows[i].clone();
        let mut j: usize = 0;
        while j < out.len() && !(out[j].region_code == row.region_code
            && out[j].species_code == row.species_code)
            invariant
                j <= out@.len(),
                row == rows@[i as int],
                forall|m: int| 0 <= m < j ==> agg_key(#[trigger] out@[m]) != obs_key(
                    rows@[i as int],
                ),
            decreases out@.len() - j,
        {
            j = j + 1;
        }
        if j < out.len() {
            proof {
                assert(agg_key(out@[j as int]) == obs_key(rows@[i as int]));
                assert(find_group(out@, obs_key(rows@[i as int])) == Some(j as int)) by {
                    lemma_find_group_props(out@, obs_key(rows@[i as int]));
                }
            }
            let new_species = out[j].total_species + row.how_many as u64;
            let new_sightings = out[j].total_sightings + 1;
            out[j].total_species = new_species;
            out[j].total_sightings = new_sightings;
            proof {
                assert(out@ =~= group_spec(rows@.take(i as int)).update(
                    j as int,
                    bump(group_spec(rows@.take(i as int))[j as int], rows@[i as int]),
                ));
            }
        } else {
            proof {
                assert(find_group(out@, obs_key(rows@[i as int])) is None) by {
                    lemma_find_group_props(out@, obs_key(rows@[i as int]));
                }
            }
            out.push(AggregateRecord {
                region_code: row.region_code,
                species_code: row.species_code,
                total_species: row.how_many as u64,
                total_sightings: 1,
            });
            proof {
                assert(out@ =~= group_spec(rows@.take(i as int)).push(
                    single_group(rows@[i as int]),
                ));
            }
        }
        i = i + 1;
    }
    proof {
        assert(rows@.take(rows@.len() as int) =~= rows@);
    }
    out
}

} // verus!
