//! Record types flowing through the pipeline, and the spec-level
//! measures (key extraction, summation) their contracts are stated over.

use vstd::prelude::*;

verus! {

/// One observation from the survey log, already normalized to the target
/// schema. Only rows with `valid == 1` contribute to any aggregate.
#[derive(Debug)]
pub struct Observation {
    pub region_code: String,
    pub species_code: String,
    pub month: u32,
    pub day: u32,
    pub year: u32,
    pub how_many: u32,
    pub valid: u32,
}

/// One row of the code-to-name reference table.
#[derive(Debug)]
pub struct LookupRow {
    pub species_code: String,
    pub species_name: String,
}

/// One summary per distinct `(region_code, species_code)` group:
/// `total_species` sums the group's `how_many`, `total_sightings` counts
/// its rows.
#[derive(Debug)]
pub struct AggregateRecord {
    pub region_code: String,
    pub species_code: String,
    pub total_species: u64,
    pub total_sightings: u64,
}

/// An [`AggregateRecord`] extended with the species name found in the
/// lookup table; the terminal artifact of the pipeline.
#[derive(Debug)]
pub struct EnrichedRecord {
    pub region_code: String,
    pub species_code: String,
    pub total_species: u64,
    pub total_sightings: u64,
    pub species_name: String,
}

/// An unrecoverable pipeline failure. No partial output accompanies it.
#[derive(Debug)]
pub enum PipelineError {
    /// A referenced column does not exist in the source table. Carries the
    /// missing column's name.
    Schema { column: String },
    /// A cell's raw text cannot be parsed into the declared integer type.
    /// Carries the column's name and the offending row index.
    Type { column: String, row: usize },
}

/// The composite key an observation is bucketed by.
pub open spec fn obs_key(r: Observation) -> (Seq<char>, Seq<char>) {
    (r.region_code@, r.species_code@)
}

/// The composite key of an aggregate summary.
pub open spec fn agg_key(a: AggregateRecord) -> (Seq<char>, Seq<char>) {
    (a.region_code@, a.species_code@)
}

/// The composite key of an enriched output record.
pub open spec fn enriched_key(e: EnrichedRecord) -> (Seq<char>, Seq<char>) {
    (e.region_code@, e.species_code@)
}

/// Sum of the `how_many` counts over a row sequence.
pub open spec fn sum_how_many(s: Seq<Observation>) -> int
    decreases s.len(),
{
    if s.len() == 0 {
        0
    } else {
        sum_how_many(s.drop_last()) + s.last().how_many
    }
}

/// The sum of counts is never negative.
pub proof fn lemma_sum_how_many_nonneg(s: Seq<Observation>)
    ensures
        sum_how_many(s) >= 0,
    decreases s.len(),
{
    if s.len() > 0 {
        lemma_sum_how_many_nonneg(s.drop_last());
    }
}

/// Summation distributes over concatenation.
pub proof fn lemma_sum_how_many_add(a: Seq<Observation>, b: Seq<Observation>)
    ensures
        sum_how_many(a + b) == sum_how_many(a) + sum_how_many(b),
    decreases b.len(),
{
    if b.len() == 0 {
        assert(a + b =~= a);
    } else {
        lemma_sum_how_many_add(a, b.drop_last());
        assert((a + b).drop_last() =~= a + b.drop_last());
        assert((a + b).last() == b.last());
    }
}

/// A prefix of the rows contributes at most the whole input's total.
pub proof fn lemma_sum_how_many_take_le(s: Seq<Observation>, i: int)
    requires
        0 <= i <= s.len(),
    ensures
        sum_how_many(s.take(i)) <= sum_how_many(s),
{
    assert(s =~= s.take(i) + s.skip(i));
    lemma_sum_how_many_add(s.take(i), s.skip(i));
    lemma_sum_how_many_nonneg(s.skip(i));
}

impl Clone for Observation {
    fn clone(&self) -> (r: Self)
        ensures
            r == *self,
    {
        let r = Observation {
            region_code: self.region_code.clone(),
            species_code: self.species_code.clone(),
            month: self.month,
            day: self.day,
            year: self.year,
            how_many: self.how_many,
            valid: self.valid,
        };
        r
    }
}

impl Clone for LookupRow {
    fn clone(&self) -> (r: Self)
        ensures
            r == *self,
    {
        let r = LookupRow {
            species_code: self.species_code.clone(),
            species_name: self.species_name.clone(),
        };
        r
    }
}

impl Clone for AggregateRecord {
    fn clone(&self) -> (r: Self)
        ensures
            r == *self,
    {
        let r = AggregateRecord {
            region_code: self.region_code.clone(),
            species_code: self.species_code.clone(),
            total_species: self.total_species,
            total_sightings: self.total_sightings,
        };
        r
    }
}

impl Clone for EnrichedRecord {
    fn clone(&self) -> (r: Self)
        ensures
            r == *self,
    {
        let r = EnrichedRecord {
            region_code: self.region_code.clone(),
            species_code: self.species_code.clone(),
            total_species: self.total_species,
            total_sightings: self.total_sightings,
            species_name: self.species_name.clone(),
        };
        r
    }
}

impl PipelineError {
    /// True for the missing-column failure.
    pub fn is_schema_error(&self) -> (r: bool)
        ensures
            r == (self is Schema),
    {
        match self {
            PipelineError::Schema { .. } => true,
            PipelineError::Type { .. } => false,
        }
    }

    /// The name of the column the failure concerns.
    pub fn column(&self) -> (r: &String)
        ensures
            *self matches PipelineError::Schema { column } ==> r == column,
            *self matches PipelineError::Type { column, .. } ==> r == column,
    {
        match self {
            PipelineError::Schema { column } => column,
            PipelineError::Type { column, .. } => column,
        }
    }
}

} // verus!
