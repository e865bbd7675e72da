use wxrs::rows::{Observation, LookupRow};
use wxrs::filter::filter_by_valid;
use wxrs::group::group_by_key;
use wxrs::sort::sort_by_total_desc;
use wxrs::join::join_with_lookup;
use wxrs::pipeline::{run_pipeline, run_pipeline_checked};

fn obs(region: &str, species: &str, how_many: u32, valid: u32) -> Observation {
    Observation {
        region_code: region.to_string(),
        species_code: species.to_string(),
        month: 1,
        day: 2,
        year: 2020,
        how_many,
        valid,
    }
}

fn lookup(code: &str, name: &str) -> LookupRow {
    LookupRow {
        species_code: code.to_string(),
        species_name: name.to_string(),
    }
}

#[test]
fn concrete_scenario() {
    let observations = vec![
        obs("CA", "A", 5, 1),
        obs("CA", "A", 3, 1),
        obs("CA", "B", 2, 0),
    ];
    let table = vec![lookup("A", "American Robin")];
    let out = run_pipeline(&observations, &table);
    assert_eq!(out.len(), 1);
    assert_eq!(out[0].region_code, "CA");
    assert_eq!(out[0].species_code, "A");
    assert_eq!(out[0].total_species, 8);
    assert_eq!(out[0].total_sightings, 2);
    assert_eq!(out[0].species_name, "American Robin");
}

#[test]
fn empty_observations_give_empty_output() {
    let observations: Vec<Observation> = Vec::new();
    let table = vec![lookup("A", "American Robin")];
    let out = run_pipeline(&observations, &table);
    assert!(out.is_empty());
}

#[test]
fn empty_lookup_gives_empty_output() {
    let observations = vec![obs("CA", "A", 5, 1)];
    let table: Vec<LookupRow> = Vec::new();
    let out = run_pipeline(&observations, &table);
    assert!(out.is_empty());
}

#[test]
fn equal_totals_keep_first_occurrence_order() {
    // two groups with equal total_species: their pre-sort (first
    // occurrence) order must survive the sort
    let observations = vec![
        obs("NY", "a", 5, 1),
        obs("OR", "b", 5, 1),
        obs("WA", "c", 9, 1),
    ];
    let table = vec![
        lookup("a", "first"),
        lookup("b", "second"),
        lookup("c", "third"),
    ];
    let out = run_pipeline(&observations, &table);
    assert_eq!(out.len(), 3);
    assert_eq!(out[0].region_code, "WA");
    assert_eq!(out[1].region_code, "NY");
    assert_eq!(out[2].region_code, "OR");
}

#[test]
fn grouping_counts_and_sums() {
    let rows = vec![
        obs("CA", "A", 5, 1),
        obs("NV", "A", 7, 1),
        obs("CA", "A", 3, 1),
        obs("CA", "B", 1, 1),
    ];
    let groups = group_by_key(&rows);
    assert_eq!(groups.len(), 3);
    // first-occurrence order: (CA, A), (NV, A), (CA, B)
    assert_eq!(groups[0].region_code, "CA");
    assert_eq!(groups[0].species_code, "A");
    assert_eq!(groups[0].total_species, 8);
    assert_eq!(groups[0].total_sightings, 2);
    assert_eq!(groups[1].region_code, "NV");
    assert_eq!(groups[1].total_species, 7);
    assert_eq!(groups[1].total_sightings, 1);
    assert_eq!(groups[2].species_code, "B");
    assert_eq!(groups[2].total_species, 1);
    assert_eq!(groups[2].total_sightings, 1);
}

#[test]
fn filtering_is_idempotent() {
    let rows = vec![
        obs("CA", "A", 5, 1),
        obs("CA", "B", 2, 0),
        obs("NV", "A", 7, 1),
        obs("OR", "C", 4, 2),
    ];
    let once = filter_by_valid(&rows, 1);
    let twice = filter_by_valid(&once, 1);
    assert_eq!(once.len(), 2);
    assert_eq!(twice.len(), once.len());
    for (a, b) in once.iter().zip(twice.iter()) {
        assert_eq!(a.region_code, b.region_code);
        assert_eq!(a.species_code, b.species_code);
        assert_eq!(a.how_many, b.how_many);
        assert_eq!(a.valid, b.valid);
    }
}

#[test]
fn filter_keeps_order_and_may_be_empty() {
    let rows = vec![obs("CA", "A", 5, 0), obs("NV", "B", 2, 0)];
    let kept = filter_by_valid(&rows, 1);
    assert!(kept.is_empty());
}

#[test]
fn sort_is_descending_and_stable() {
    let rows = vec![
        obs("r1", "a", 2, 1),
        obs("r2", "b", 9, 1),
        obs("r3", "c", 2, 1),
        obs("r4", "d", 5, 1),
    ];
    let groups = group_by_key(&rows);
    let sorted = sort_by_total_desc(&groups);
    assert_eq!(sorted.len(), 4);
    for w in sorted.windows(2) {
        assert!(w[0].total_species >= w[1].total_species);
    }
    // ties at total 2: r1 before r3, their input order
    assert_eq!(sorted[0].region_code, "r2");
    assert_eq!(sorted[1].region_code, "r4");
    assert_eq!(sorted[2].region_code, "r1");
    assert_eq!(sorted[3].region_code, "r3");
}

#[test]
fn resorting_a_sorted_sequence_is_identity() {
    let rows = vec![
        obs("r1", "a", 4, 1),
        obs("r2", "b", 4, 1),
        obs("r3", "c", 8, 1),
    ];
    let groups = group_by_key(&rows);
    let once = sort_by_total_desc(&groups);
    let twice = sort_by_total_desc(&once);
    assert_eq!(once.len(), twice.len());
    for (a, b) in once.iter().zip(twice.iter()) {
        assert_eq!(a.region_code, b.region_code);
        assert_eq!(a.species_code, b.species_code);
        assert_eq!(a.total_species, b.total_species);
        assert_eq!(a.total_sightings, b.total_sightings);
    }
}

#[test]
fn join_drops_unmatched_on_both_sides() {
    let rows = vec![obs("CA", "A", 5, 1), obs("CA", "B", 3, 1)];
    let groups = group_by_key(&rows);
    let sorted = sort_by_total_desc(&groups);
    let table = vec![lookup("A", "American Robin"), lookup("Z", "never seen")];
    let out = join_with_lookup(&sorted, &table);
    // "B" has no lookup row, "Z" no summary: both vanish
    assert_eq!(out.len(), 1);
    assert_eq!(out[0].species_code, "A");
    assert_eq!(out[0].species_name, "American Robin");
}

#[test]
fn join_output_keys_stay_unique_with_unique_lookup() {
    let rows = vec![
        obs("CA", "A", 5, 1),
        obs("NV", "A", 2, 1),
        obs("CA", "B", 4, 1),
    ];
    let groups = group_by_key(&rows);
    let sorted = sort_by_total_desc(&groups);
    let table = vec![lookup("A", "American Robin"), lookup("B", "Blue Jay")];
    let out = join_with_lookup(&sorted, &table);
    assert_eq!(out.len(), 3);
    for i in 0..out.len() {
        for j in (i + 1)..out.len() {
            assert!(
                out[i].region_code != out[j].region_code
                    || out[i].species_code != out[j].species_code
            );
        }
    }
}

#[test]
fn join_emits_one_record_per_duplicate_lookup_code() {
    let rows = vec![obs("CA", "A", 5, 1)];
    let groups = group_by_key(&rows);
    let table = vec![lookup("A", "first name"), lookup("A", "second name")];
    let out = join_with_lookup(&groups, &table);
    assert_eq!(out.len(), 2);
    assert_eq!(out[0].species_name, "first name");
    assert_eq!(out[1].species_name, "second name");
}

#[test]
fn checked_pipeline_accepts_bounded_totals() {
    let observations = vec![obs("CA", "A", u32::MAX, 1), obs("CA", "A", u32::MAX, 1)];
    let table = vec![lookup("A", "American Robin")];
    let out = run_pipeline_checked(&observations, &table).unwrap();
    assert_eq!(out.len(), 1);
    assert_eq!(out[0].total_species, 2 * (u32::MAX as u64));
    assert_eq!(out[0].total_sightings, 2);
}

#[test]
fn invalid_rows_never_reach_an_aggregate() {
    let observations = vec![
        obs("CA", "A", 5, 1),
        obs("CA", "A", 100, 0),
        obs("CA", "A", 100, 2),
    ];
    let table = vec![lookup("A", "American Robin")];
    let out = run_pipeline(&observations, &table);
    assert_eq!(out.len(), 1);
    assert_eq!(out[0].total_species, 5);
    assert_eq!(out[0].total_sightings, 1);
}
