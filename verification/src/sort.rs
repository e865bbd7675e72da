//! Sorter: orders aggregate summaries by `total_species`, descending.
//! The sort is stable — summaries with equal totals keep their relative
//! order — and is specified by the recursive insertion model `sort_desc`.
//! Every summary comes from a non-empty group, so the sort field is
//! always present: the record type leaves no missing value whose
//! placement a nulls-last policy would have to settle.

use vstd::prelude::*;
use vstd::multiset::Multiset;
use crate::rows::{AggregateRecord, agg_key};

verus! {

/// Monotonically non-increasing on `total_species`.
pub open spec fn sorted_desc(s: Seq<AggregateRecord>) -> bool {
    forall|i: int, j: int|
        0 <= i < j < s.len() ==> s[i].total_species >= s[j].total_species
}

/// Insertion of `x` into `s`: `x` goes after every element whose total is
/// at least `x`'s, so equal totals keep their arrival order.
pub open spec fn insert_desc(s: Seq<AggregateRecord>, x: AggregateRecord) -> Seq<AggregateRecord>
    decreases s.len(),
{
    if s.len() == 0 {
        seq![x]
    } else if s[0].total_species >= x.total_species {
        seq![s[0]] + insert_desc(s.drop_first(), x)
    } else {
        seq![x] + s
    }
}

/// Stable descending insertion sort of `s` by `total_species`.
pub open spec fn sort_desc(s: Seq<AggregateRecord>) -> Seq<AggregateRecord>
    decreases s.len(),
{
    if s.len() == 0 {
        Seq::empty()
    } else {
        insert_desc(sort_desc(s.drop_last()), s.last())
    }
}

/// The sub-sequence of summaries whose total equals `total`, in order.
pub open spec fn with_total(s: Seq<AggregateRecord>, total: u64) -> Seq<AggregateRecord> {
    s.filter(|r: AggregateRecord| r.total_species == total)
}

/// No two records of `s` share a `(region_code, species_code)` key.
pub open spec fn distinct_agg_keys(s: Seq<AggregateRecord>) -> bool {
    forall|i: int, j: int| 0 <= i < j < s.len() ==> agg_key(s[i]) != agg_key(s[j])
}

/// Where the insertion lands: if every element before `p` has a total at
/// least `x`'s and the element at `p` (if any) a smaller one, `x` ends up
/// exactly at position `p`.
pub proof fn lemma_insert_desc_at(s: Seq<AggregateRecord>, x: AggregateRecord, p: int)
    requires
        0 <= p <= s.len(),
        forall|k: int| 0 <= k < p ==> s[k].total_species >= x.total_species,
        p < s.len() ==> s[p].total_species < x.total_species,
    ensures
        insert_desc(s, x) =~= s.take(p) + seq![x] + s.skip(p),
    decreases s.len(),
{
    if p == 0 {
        if s.len() == 0 {
            assert(insert_desc(s, x) =~= seq![x] + s);
        }
        assert(s.take(0) =~= Seq::<AggregateRecord>::empty());
        assert(s.skip(0) =~= s);
    } else {
        let d = s.drop_first();
        assert(forall|k: int| 0 <= k < p - 1 ==> d[k].total_species >= x.total_species);
        lemma_insert_desc_at(d, x, p - 1);
        assert(seq![s[0]] + (d.take(p - 1) + seq![x] + d.skip(p - 1)) =~= s.take(p) + seq![x]
            + s.skip(p));
    }
}

/// Inserting into `s` yields exactly the records of `s` plus `x`.
pub proof fn lemma_insert_desc_multiset(s: Seq<AggregateRecord>, x: AggregateRecord)
    ensures
        insert_desc(s, x).to_multiset() =~= s.to_multiset().insert(x),
    decreases s.len(),
{
    broadcast use vstd::seq_lib::group_to_multiset_ensures;
    broadcast use vstd::multiset::group_multiset_axioms;

    if s.len() == 0 {
        assert(seq![x] =~= Seq::<AggregateRecord>::empty().push(x));
        assert(s.to_multiset() =~= Multiset::<AggregateRecord>::empty());
    } else if s[0].total_species >= x.total_species {
        let d = s.drop_first();
        lemma_insert_desc_multiset(d, x);
        vstd::seq_lib::lemma_multiset_commutative(seq![s[0]], insert_desc(d, x));
        vstd::seq_lib::lemma_multiset_commutative(seq![s[0]], d);
        assert(seq![s[0]] + d =~= s);
        assert(seq![s[0]] =~= Seq::<AggregateRecord>::empty().push(s[0]));
    } else {
        vstd::seq_lib::lemma_multiset_commutative(seq![x], s);
        assert(seq![x] =~= Seq::<AggregateRecord>::empty().push(x));
    }
}

/// A bound on every total of `s` that also bounds `x` bounds every total
/// after the insertion.
proof fn lemma_insert_desc_bound(s: Seq<AggregateRecord>, x: AggregateRecord, b: u64)
    requires
        forall|k: int| 0 <= k < s.len() ==> s[k].total_species <= b,
        x.total_species <= b,
    ensures
        forall|k: int|
            0 <= k < insert_desc(s, x).len() ==> insert_desc(s, x)[k].total_species <= b,
    decreases s.len(),
{
    if s.len() > 0 && s[0].total_species >= x.total_species {
        let d = s.drop_first();
        lemma_insert_desc_bound(d, x, b);
        assert forall|k: int|
            0 <= k < insert_desc(s, x).len() implies insert_desc(s, x)[
            k
        ].total_species <= b by {
            if k > 0 {
                assert(insert_desc(s, x)[k] == insert_desc(d, x)[k - 1]);
            }
        }
    }
}

/// Insertion into a sorted sequence keeps it sorted.
pub proof fn lemma_insert_desc_sorted(s: Seq<AggregateRecord>, x: AggregateRecord)
    requires
        sorted_desc(s),
    ensures
        sorted_desc(insert_desc(s, x)),
    decreases s.len(),
{
    if s.len() == 0 {
    } else if s[0].total_species >= x.total_species {
        let d = s.drop_first();
        assert(sorted_desc(d)) by {
            assert(forall|i: int, j: int|
                0 <= i < j < d.len() ==> d[i] == s[i + 1] && d[j] == s[j + 1]);
        }
        lemma_insert_desc_sorted(d, x);
        assert(forall|k: int| 0 <= k < d.len() ==> d[k].total_species <= s[0].total_species);
        lemma_insert_desc_bound(d, x, s[0].total_species);
        let r = insert_desc(s, x);
        assert forall|i: int, j: int|
            0 <= i < j < r.len() implies r[i].total_species >= r[j].total_species by {
            if i > 0 {
                assert(r[i] == insert_desc(d, x)[i - 1]);
                assert(r[j] == insert_desc(d, x)[j - 1]);
            } else {
                assert(r[j] == insert_desc(d, x)[j - 1]);
            }
        }
    }
}

/// The sorted output is monotonically non-increasing on `total_species`.
pub proof fn lemma_sort_desc_sorted(s: Seq<AggregateRecord>)
    ensures
        sorted_desc(sort_desc(s)),
    decreases s.len(),
{
    if s.len() > 0 {
        lemma_sort_desc_sorted(s.drop_last());
        lemma_insert_desc_sorted(sort_desc(s.drop_last()), s.last());
    }
}

/// Sorting permutes the input: no summary appears or disappears.
pub proof fn lemma_sort_desc_multiset(s: Seq<AggregateRecord>)
    ensures
        sort_desc(s).to_multiset() =~= s.to_multiset(),
    decreases s.len(),
{
    broadcast use vstd::seq_lib::group_to_multiset_ensures;

    if s.len() > 0 {
        lemma_sort_desc_multiset(s.drop_last());
        lemma_insert_desc_multiset(sort_desc(s.drop_last()), s.last());
        assert(s.drop_last().push(s.last()) =~= s);
    }
}

/// Nothing in `s` carries total `t`: the filter keeps nothing.
proof fn lemma_with_total_empty(s: Seq<AggregateRecord>, t: u64)
    requires
        forall|k: int| 0 <= k < s.len() ==> s[k].total_species != t,
    ensures
        with_total(s, t) =~= Seq::<AggregateRecord>::empty(),
    decreases s.len(),
{
    reveal(Seq::filter);
    if s.len() > 0 {
        assert(forall|k: int|
            0 <= k < s.drop_last().len() ==> s.drop_last()[k].total_species != t);
        lemma_with_total_empty(s.drop_last(), t);
    }
}

/// Stable insertion, seen through the filter: among the records with any
/// given total, inserting `x` into a sorted sequence appends `x` to its
/// own total class and leaves every other class unchanged.
pub proof fn lemma_insert_desc_stable(s: Seq<AggregateRecord>, x: AggregateRecord, t: u64)
    requires
        sorted_desc(s),
    ensures
        with_total(insert_desc(s, x), t) == if x.total_species == t {
            with_total(s, t).push(x)
        } else {
            with_total(s, t)
        },
    decreases s.len(),
{
    broadcast use vstd::seq_lib::group_filter_ensures;

    let pred = |r: AggregateRecord| r.total_species == t;
    assert(seq![x].filter(pred) =~= if pred(x) {
        Seq::<AggregateRecord>::empty().push(x)
    } else {
        Seq::<AggregateRecord>::empty()
    }) by {
        reveal_with_fuel(Seq::filter, 2);
        assert(seq![x].drop_last() =~= Seq::<AggregateRecord>::empty());
    }
    if s.len() == 0 {
        assert(with_total(s, t) =~= Seq::<AggregateRecord>::empty()) by {
            reveal(Seq::filter);
        }
        if pred(x) {
            assert(with_total(insert_desc(s, x), t) =~= with_total(s, t).push(x));
        }
    } else if s[0].total_species >= x.total_species {
        let d = s.drop_first();
        assert(sorted_desc(d)) by {
            assert(forall|i: int, j: int|
                0 <= i < j < d.len() ==> d[i] == s[i + 1] && d[j] == s[j + 1]);
        }
        lemma_insert_desc_stable(d, x, t);
        Seq::filter_distributes_over_add(seq![s[0]], insert_desc(d, x), pred);
        Seq::filter_distributes_over_add(seq![s[0]], d, pred);
        assert(seq![s[0]] + d =~= s);
        assert(seq![s[0]].filter(pred) =~= if pred(s[0]) {
            Seq::<AggregateRecord>::empty().push(s[0])
        } else {
            Seq::<AggregateRecord>::empty()
        }) by {
            reveal_with_fuel(Seq::filter, 2);
            assert(seq![s[0]].drop_last() =~= Seq::<AggregateRecord>::empty());
        }
        if pred(x) {
            assert(seq![s[0]].filter(pred) + d.filter(pred).push(x) =~= (seq![s[0]].filter(pred)
                + d.filter(pred)).push(x));
        }
    } else {
        Seq::filter_distributes_over_add(seq![x], s, pred);
        if pred(x) {
            assert(forall|k: int| 0 <= k < s.len() ==> s[k].total_species < x.total_species);
            lemma_with_total_empty(s, t);
            assert(seq![x].filter(pred) + s.filter(pred) =~= s.filter(pred).push(x));
        } else {
            assert(seq![x].filter(pred) + s.filter(pred) =~= s.filter(pred));
        }
    }
}

/// Stability: for every total `t`, the records carrying `t` appear in the
/// sorted output exactly as they appeared in the input.
pub proof fn lemma_sort_desc_stable(s: Seq<AggregateRecord>, t: u64)
    ensures
        with_total(sort_desc(s), t) == with_total(s, t),
    decreases s.len(),
{
    let pred = |r: AggregateRecord| r.total_species == t;
    if s.len() == 0 {
        assert(with_total(s, t) =~= Seq::<AggregateRecord>::empty()) by {
            reveal(Seq::filter);
        }
    } else {
        let d = s.drop_last();
        lemma_sort_desc_stable(d, t);
        lemma_sort_desc_sorted(d);
        lemma_insert_desc_stable(sort_desc(d), s.last(), t);
        assert(s.filter(pred) == if pred(s.last()) {
            d.filter(pred).push(s.last())
        } else {
            d.filter(pred)
        }) by {
            reveal(Seq::filter);
        }
    }
}

/// Sorting an already sorted sequence gives it back unchanged; in
/// particular re-sorting the sorter's output is the identity.
pub proof fn lemma_sort_desc_identity(s: Seq<AggregateRecord>)
    requires
        sorted_desc(s),
    ensures
        sort_desc(s) == s,
    decreases s.len(),
{
    if s.len() > 0 {
        let d = s.drop_last();
        assert(sorted_desc(d)) by {
            assert(forall|i: int, j: int| 0 <= i < j < d.len() ==> d[i] == s[i] && d[j] == s[j]);
        }
        lemma_sort_desc_identity(d);
        assert(forall|k: int| 0 <= k < d.len() ==> d[k].total_species >= s.last().total_species);
        lemma_insert_desc_at(d, s.last(), d.len() as int);
        assert(d.take(d.len() as int) + seq![s.last()] + d.skip(d.len() as int) =~= s);
    }
}

/// Sorting twice is the same as sorting once.
pub proof fn lemma_sort_desc_idempotent(s: Seq<AggregateRecord>)
    ensures
        sort_desc(sort_desc(s)) == sort_desc(s),
{
    lemma_sort_desc_sorted(s);
    lemma_sort_desc_identity(sort_desc(s));
}

/// Sorting keeps the group keys pairwise distinct.
pub proof fn lemma_sort_desc_distinct_keys(s: Seq<AggregateRecord>)
    requires
        distinct_agg_keys(s),
    ensures
        distinct_agg_keys(sort_desc(s)),
{
    broadcast use vstd::seq_lib::group_to_multiset_ensures;
    broadcast use vstd::multiset::group_multiset_axioms;

    lemma_sort_desc_multiset(s);
    let r = sort_desc(s);
    assert(s.no_duplicates()) by {
        assert forall|i: int, j: int|
            0 <= i < s.len() && 0 <= j < s.len() && i != j implies s[i] != s[j] by {
            if i < j {
                assert(agg_key(s[i]) != agg_key(s[j]));
            } else {
                assert(agg_key(s[j]) != agg_key(s[i]));
            }
        }
    }
    s.lemma_multiset_has_no_duplicates();
    assert forall|i: int, j: int| 0 <= i < j < r.len() implies agg_key(r[i]) != agg_key(
        r[j],
    ) by {
        if r[i] == r[j] {
            let s0 = r.subrange(0, j);
            let s1 = r.subrange(j, r.len() as int);
            assert(r =~= s0 + s1);
            vstd::seq_lib::lemma_multiset_commutative(s0, s1);
            assert(s0[i] == r[i]);
            assert(s1[0] == r[j]);
            assert(s0.contains(r[i]));
            assert(s1.contains(r[j]));
            assert(r.to_multiset().count(r[i]) >= 2);
            assert(s.to_multiset().contains(r[i]));
        } else if agg_key(r[i]) == agg_key(r[j]) {
            assert(r.contains(r[i]) && r.contains(r[j]));
            assert(s.to_multiset().contains(r[i]) && s.to_multiset().contains(r[j]));
            assert(s.contains(r[i]) && s.contains(r[j]));
            let i1 = choose|k: int| 0 <= k < s.len() && s[k] == r[i];
            let j1 = choose|k: int| 0 <= k < s.len() && s[k] == r[j];
            assert(i1 != j1);
            if i1 < j1 {
                assert(agg_key(s[i1]) != agg_key(s[j1]));
            } else {
                assert(agg_key(s[j1]) != agg_key(s[i1]));
            }
        }
    }
}

/// Sorts the summaries by `total_species`, descending and stable; record
/// contents are untouched, only their order changes.
pub fn sort_by_total_desc(records: &Vec<AggregateRecord>) -> (out: Vec<AggregateRecord>)
    ensures
        out@ == sort_desc(records@),
{
    let mut out: Vec<AggregateRecord> = Vec::new();
    let mut i: usize = 0;
    while i < records.len()
        invariant
            i <= records@.len(),
            out@ == sort_desc(records@.take(i as int)),
        decreases records@.len() - i,
    {
        let x = records[i].clone();
        let mut p: usize = 0;
        while p < out.len() && out[p].total_species >= x.total_species
            invariant
                p <= out@.len(),
                x == records@[i as int],
                forall|k: int| 0 <= k < p ==> out@[k].total_species >= x.total_species,
            decreases out@.len() - p,
        {
            p = p + 1;
        }
        proof {
            lemma_insert_desc_at(out@, x, p as int);
        }
        out.insert(p, x);
        proof {
            assert(records@.take(i + 1).drop_last() =~= records@.take(i as int));
            assert(records@.take(i + 1).last() == records@[i as int]);
            assert(out@ =~= sort_desc(records@.take(i as int)).take(p as int) + seq![
                records@[i as int],
            ] + sort_desc(records@.take(i as int)).skip(p as int));
        }
        i = i + 1;
    }
    proof {
        assert(records@.take(records@.len() as int) =~= records@);
    }
    out
}

} // verus!
