use wxrs::normalize::{
    RawTable, ObservationColumns, LookupColumns, normalize_observations, normalize_lookup,
    resolve_observation_columns, find_column_in,
};
use wxrs::rows::PipelineError;
use wxrs::pipeline::run_pipeline;

fn strings(cells: &[&str]) -> Vec<String> {
    cells.iter().map(|c| c.to_string()).collect()
}

fn survey_header() -> Vec<String> {
    strings(&[
        "LATITUDE",
        "LONGITUDE",
        "SUBNATIONAL1_CODE",
        "Month",
        "Day",
        "Year",
        "SPECIES_CODE",
        "HOW_MANY",
        "VALID",
    ])
}

fn survey_row(region: &str, species: &str, how_many: &str, valid: &str) -> Vec<String> {
    strings(&["37.9", "-122.5", region, "1", "2", "2020", species, how_many, valid])
}

#[test]
fn normalizes_typed_rows_in_order() {
    let table = RawTable {
        header: survey_header(),
        rows: vec![
            survey_row("CA", "amerob", "5", "1"),
            survey_row("NV", "blujay", "3", "0"),
        ],
    };
    let rows = normalize_observations(&table, &ObservationColumns::survey_log()).unwrap();
    assert_eq!(rows.len(), 2);
    assert_eq!(rows[0].region_code, "CA");
    assert_eq!(rows[0].species_code, "amerob");
    assert_eq!(rows[0].month, 1);
    assert_eq!(rows[0].day, 2);
    assert_eq!(rows[0].year, 2020);
    assert_eq!(rows[0].how_many, 5);
    assert_eq!(rows[0].valid, 1);
    assert_eq!(rows[1].region_code, "NV");
    assert_eq!(rows[1].valid, 0);
}

#[test]
fn column_names_match_case_insensitively() {
    let table = RawTable {
        header: strings(&[
            "subnational1_code",
            "month",
            "day",
            "year",
            "species_code",
            "how_many",
            "valid",
        ]),
        rows: vec![strings(&["CA", "1", "2", "2020", "amerob", "5", "1"])],
    };
    let rows = normalize_observations(&table, &ObservationColumns::survey_log()).unwrap();
    assert_eq!(rows.len(), 1);
    assert_eq!(rows[0].region_code, "CA");
    assert_eq!(rows[0].how_many, 5);
}

#[test]
fn missing_column_is_a_schema_error() {
    let table = RawTable {
        header: strings(&["SUBNATIONAL1_CODE", "Month", "Day", "Year", "HOW_MANY", "VALID"]),
        rows: vec![],
    };
    let err = normalize_observations(&table, &ObservationColumns::survey_log()).unwrap_err();
    assert!(err.is_schema_error());
    assert_eq!(err.column().as_str(), "SPECIES_CODE");
}

#[test]
fn unparsable_cell_is_a_type_error_with_context() {
    let table = RawTable {
        header: survey_header(),
        rows: vec![
            survey_row("CA", "amerob", "5", "1"),
            survey_row("NV", "blujay", "many", "1"),
        ],
    };
    let err = normalize_observations(&table, &ObservationColumns::survey_log()).unwrap_err();
    match err {
        PipelineError::Type { column, row } => {
            assert_eq!(column, "HOW_MANY");
            assert_eq!(row, 1);
        },
        PipelineError::Schema { .. } => panic!("expected a type error"),
    }
}

#[test]
fn short_row_is_a_schema_error() {
    let table = RawTable {
        header: survey_header(),
        rows: vec![strings(&["37.9", "-122.5", "CA", "1"])],
    };
    let err = normalize_observations(&table, &ObservationColumns::survey_log()).unwrap_err();
    assert!(err.is_schema_error());
    assert_eq!(err.column().as_str(), "Day");
}

#[test]
fn lookup_table_projects_and_renames() {
    let table = RawTable {
        header: strings(&["SPECIES_CODE", "PRIMARY_COM_NAME", "EXTRA"]),
        rows: vec![
            strings(&["amerob", "American Robin", "x"]),
            strings(&["blujay", "Blue Jay", "y"]),
        ],
    };
    let rows = normalize_lookup(&table, &LookupColumns::species_table()).unwrap();
    assert_eq!(rows.len(), 2);
    assert_eq!(rows[0].species_code, "amerob");
    assert_eq!(rows[0].species_name, "American Robin");
    assert_eq!(rows[1].species_name, "Blue Jay");
}

#[test]
fn lookup_missing_name_column_is_reported() {
    let table = RawTable {
        header: strings(&["SPECIES_CODE"]),
        rows: vec![],
    };
    let err = normalize_lookup(&table, &LookupColumns::species_table()).unwrap_err();
    assert!(err.is_schema_error());
    assert_eq!(err.column().as_str(), "PRIMARY_COM_NAME");
}

#[test]
fn resolver_reports_positions() {
    let header = survey_header();
    let idx = resolve_observation_columns(&header, &ObservationColumns::survey_log()).unwrap();
    assert_eq!(idx.region_code, 2);
    assert_eq!(idx.month, 3);
    assert_eq!(idx.valid, 8);
    assert_eq!(find_column_in(&header, "latitude"), Some(0));
    assert_eq!(find_column_in(&header, "nowhere"), None);
}

#[test]
fn normalized_tables_flow_through_the_pipeline() {
    let birds = RawTable {
        header: survey_header(),
        rows: vec![
            survey_row("CA", "amerob", "5", "1"),
            survey_row("CA", "amerob", "3", "1"),
            survey_row("CA", "blujay", "2", "0"),
        ],
    };
    let codes = RawTable {
        header: strings(&["SPECIES_CODE", "PRIMARY_COM_NAME"]),
        rows: vec![strings(&["amerob", "American Robin"])],
    };
    let observations = normalize_observations(&birds, &ObservationColumns::survey_log()).unwrap();
    let table = normalize_lookup(&codes, &LookupColumns::species_table()).unwrap();
    let out = run_pipeline(&observations, &table);
    assert_eq!(out.len(), 1);
    assert_eq!(out[0].region_code, "CA");
    assert_eq!(out[0].species_code, "amerob");
    assert_eq!(out[0].total_species, 8);
    assert_eq!(out[0].total_sightings, 2);
    assert_eq!(out[0].species_name, "American Robin");
}
