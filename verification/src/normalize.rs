//! Row store and normalizer: turns a raw text table (a header naming
//! columns and one string cell per column and row) into typed records of
//! the target schema. Column names are matched up to ASCII case; a
//! missing column is a schema failure, a cell that does not parse into
//! its declared integer type a type failure. Normalization projects and
//! renames only: it never filters, computes, or reorders rows.

use vstd::prelude::*;
use vstd::string::StrSliceExecFns;
use vstd::string::StringExecFns;
use crate::rows::{Observation, LookupRow, PipelineError};
use crate::text::{eq_ignore_ascii_case, str_eq_ignore_case, all_digits, dec_val, parse_u32};

verus! {

/// A raw table as an external reader hands it over: a header row of
/// column names and the data rows, each a sequence of text cells.
pub struct RawTable {
    pub header: Vec<String>,
    pub rows: Vec<Vec<String>>,
}

/// The source column names holding each field of the observation
/// schema: the rename mapping, written as an explicit schema contract.
pub struct ObservationColumns {
    pub region_code: String,
    pub month: String,
    pub day: String,
    pub year: String,
    pub species_code: String,
    pub how_many: String,
    pub valid: String,
}

/// The source column names holding the two lookup-table fields.
pub struct LookupColumns {
    pub species_code: String,
    pub species_name: String,
}

/// Positions of the observation fields' columns within a header.
pub struct ObservationIndexes {
    pub region_code: usize,
    pub month: usize,
    pub day: usize,
    pub year: usize,
    pub species_code: usize,
    pub how_many: usize,
    pub valid: usize,
}

/// Positions of the lookup fields' columns within a header.
pub struct LookupIndexes {
    pub species_code: usize,
    pub species_name: usize,
}

impl ObservationColumns {
    /// The column names the survey log itself uses.
    pub fn survey_log() -> (c: ObservationColumns)
        ensures
            c.region_code@ == "SUBNATIONAL1_CODE"@,
            c.month@ == "Month"@,
            c.day@ == "Day"@,
            c.year@ == "Year"@,
            c.species_code@ == "SPECIES_CODE"@,
            c.how_many@ == "HOW_MANY"@,
            c.valid@ == "VALID"@,
    {
        ObservationColumns {
            region_code: String::from_str("SUBNATIONAL1_CODE"),
            month: String::from_str("Month"),
            day: String::from_str("Day"),
            year: String::from_str("Year"),
            species_code: String::from_str("SPECIES_CODE"),
            how_many: String::from_str("HOW_MANY"),
            valid: String::from_str("VALID"),
        }
    }
}

impl LookupColumns {
    /// The column names the species reference table itself uses.
    pub fn species_table() -> (c: LookupColumns)
        ensures
            c.species_code@ == "SPECIES_CODE"@,
            c.species_name@ == "PRIMARY_COM_NAME"@,
    {
        LookupColumns {
            species_code: String::from_str("SPECIES_CODE"),
            species_name: String::from_str("PRIMARY_COM_NAME"),
        }
    }
}

/// Index of the first header cell equal to `name` up to ASCII case.
pub open spec fn find_column(header: Seq<String>, name: Seq<char>) -> Option<int>
    decreases header.len(),
{
    if header.len() == 0 {
        None
    } else if eq_ignore_ascii_case(header[0]@, name) {
        Some(0)
    } else {
        match find_column(header.drop_first(), name) {
            Some(i) => Some(i + 1),
            None => None,
        }
    }
}

/// What `find_column` returns: the first matching index, if any.
pub proof fn lemma_find_column_props(header: Seq<String>, name: Seq<char>)
    ensures
        match find_column(header, name) {
            Some(i) => 0 <= i < header.len() && eq_ignore_ascii_case(header[i]@, name)
                && forall|m: int| 0 <= m < i ==> !eq_ignore_ascii_case(header[m]@, name),
            None => forall|m: int|
                0 <= m < header.len() ==> !eq_ignore_ascii_case(header[m]@, name),
        },
    decreases header.len(),
{
    if header.len() > 0 && !eq_ignore_ascii_case(header[0]@, name) {
        let d = header.drop_first();
        lemma_find_column_props(d, name);
        match find_column(d, name) {
            Some(i) => {
                assert(header[i + 1] == d[i]);
                assert forall|m: int|
                    0 <= m < i + 1 implies !eq_ignore_ascii_case(header[m]@, name) by {
                    if m > 0 {
                        assert(header[m] == d[m - 1]);
                    }
                }
            },
            None => {
                assert forall|m: int|
                    0 <= m < header.len() implies !eq_ignore_ascii_case(header[m]@, name) by {
                    if m > 0 {
                        assert(header[m] == d[m - 1]);
                    }
                }
            },
        }
    }
}

/// Finds the column named `name` in the header, up to ASCII case.
pub fn find_column_in(header: &Vec<String>, name: &str) -> (r: Option<usize>)
    ensures
        match r {
            Some(i) => find_column(header@, name@) == Some(i as int),
            None => find_column(header@, name@) is None,
        },
{
    let mut i: usize = 0;
    while i < header.len()
        invariant
            i <= header@.len(),
            forall|m: int| 0 <= m < i ==> !eq_ignore_ascii_case(#[trigger] header@[m]@, name@),
        decreases header@.len() - i,
    {
        if str_eq_ignore_case(header[i].as_str(), name) {
            proof {
                lemma_find_column_props(header@, name@);
            }
            return Some(i);
        }
        i = i + 1;
    }
    proof {
        lemma_find_column_props(header@, name@);
    }
    None
}

/// The first observation column, in schema order, that the header
/// lacks; `None` when all are present.
pub open spec fn first_missing_obs_column(
    header: Seq<String>,
    cols: ObservationColumns,
) -> Option<Seq<char>> {
    if find_column(header, cols.region_code@) is None {
        Some(cols.region_code@)
    } else if find_column(header, cols.month@) is None {
        Some(cols.month@)
    } else if find_column(header, cols.day@) is None {
        Some(cols.day@)
    } else if find_column(header, cols.year@) is None {
        Some(cols.year@)
    } else if find_column(header, cols.species_code@) is None {
        Some(cols.species_code@)
    } else if find_column(header, cols.how_many@) is None {
        Some(cols.how_many@)
    } else if find_column(header, cols.valid@) is None {
        Some(cols.valid@)
    } else {
        None
    }
}

/// The positions all seven observation columns resolve to; meaningful
/// only when none is missing.
pub open spec fn obs_indexes_spec(header: Seq<String>, cols: ObservationColumns) -> ObservationIndexes {
    ObservationIndexes {
        region_code: find_column(header, cols.region_code@)->Some_0 as usize,
        month: find_column(header, cols.month@)->Some_0 as usize,
        day: find_column(header, cols.day@)->Some_0 as usize,
        year: find_column(header, cols.year@)->Some_0 as usize,
        species_code: find_column(header, cols.species_code@)->Some_0 as usize,
        how_many: find_column(header, cols.how_many@)->Some_0 as usize,
        valid: find_column(header, cols.valid@)->Some_0 as usize,
    }
}

/// Resolves the observation schema against a header, once, before any
/// row is read. Succeeds exactly when every named column is present and
/// otherwise reports the first missing one.
pub fn resolve_observation_columns(header: &Vec<String>, cols: &ObservationColumns) -> (r: Result<
    ObservationIndexes,
    PipelineError,
>)
    ensures
        r is Ok <==> first_missing_obs_column(header@, *cols) is None,
        r matches Ok(idx) ==> idx == obs_indexes_spec(header@, *cols),
        r matches Err(e) ==> e matches PipelineError::Schema { column } && Some(column@)
            == first_missing_obs_column(header@, *cols),
{
    let region_code = match find_column_in(header, cols.region_code.as_str()) {
        Some(i) => i,
        None => {
            return Err(PipelineError::Schema { column: cols.region_code.clone() });
        },
    };
    let month = match find_column_in(header, cols.month.as_str()) {
        Some(i) => i,
        None => {
            return Err(PipelineError::Schema { column: cols.month.clone() });
        },
    };
    let day = match find_column_in(header, cols.day.as_str()) {
        Some(i) => i,
        None => {
            return Err(PipelineError::Schema { column: cols.day.clone() });
        },
    };
    let year = match find_column_in(header, cols.year.as_str()) {
        Some(i) => i,
        None => {
            return Err(PipelineError::Schema { column: cols.year.clone() });
        },
    };
    let species_code = match find_column_in(header, cols.species_code.as_str()) {
        Some(i) => i,
        None => {
            return Err(PipelineError::Schema { column: cols.species_code.clone() });
        },
    };
    let how_many = match find_column_in(header, cols.how_many.as_str()) {
        Some(i) => i,
        None => {
            return Err(PipelineError::Schema { column: cols.how_many.clone() });
        },
    };
    let valid = match find_column_in(header, cols.valid.as_str()) {
        Some(i) => i,
        None => {
            return Err(PipelineError::Schema { column: cols.valid.clone() });
        },
    };
    Ok(ObservationIndexes { region_code, month, day, year, species_code, how_many, valid })
}

/// The first lookup column, in schema order, that the header lacks.
pub open spec fn first_missing_lookup_column(
    header: Seq<String>,
    cols: LookupColumns,
) -> Option<Seq<char>> {
    if find_column(header, cols.species_code@) is None {
        Some(cols.species_code@)
    } else if find_column(header, cols.species_name@) is None {
        Some(cols.species_name@)
    } else {
        None
    }
}

/// The positions the two lookup columns resolve to.
pub open spec fn lookup_indexes_spec(header: Seq<String>, cols: LookupColumns) -> LookupIndexes {
    LookupIndexes {
        species_code: find_column(header, cols.species_code@)->Some_0 as usize,
        species_name: find_column(header, cols.species_name@)->Some_0 as usize,
    }
}

/// Resolves the lookup schema against a header, reporting the first
/// missing column.
pub fn resolve_lookup_columns(header: &Vec<String>, cols: &LookupColumns) -> (r: Result<
    LookupIndexes,
    PipelineError,
>)
    ensures
        r is Ok <==> first_missing_lookup_column(header@, *cols) is None,
        r matches Ok(idx) ==> idx == lookup_indexes_spec(header@, *cols),
        r matches Err(e) ==> e matches PipelineError::Schema { column } && Some(column@)
            == first_missing_lookup_column(header@, *cols),
{
    let species_code = match find_column_in(header, cols.species_code.as_str()) {
        Some(i) => i,
        None => {
            return Err(PipelineError::Schema { column: cols.species_code.clone() });
        },
    };
    let species_name = match find_column_in(header, cols.species_name.as_str()) {
        Some(i) => i,
        None => {
            return Err(PipelineError::Schema { column: cols.species_name.clone() });
        },
    };
    Ok(LookupIndexes { species_code, species_name })
}

/// A cell's text parses as an unsigned 32-bit decimal numeral.
pub open spec fn cell_u32_ok(c: Seq<char>) -> bool {
    c.len() > 0 && all_digits(c) && dec_val(c) <= u32::MAX
}

/// The first problem an observation row shows, checked in schema order:
/// `(true, column)` when the row has no cell for the column, and
/// `(false, column)` when the cell's text does not parse into the
/// column's integer type.
pub open spec fn obs_row_issue(
    row: Seq<String>,
    idx: ObservationIndexes,
    cols: ObservationColumns,
) -> Option<(bool, Seq<char>)> {
    if idx.region_code >= row.len() {
        Some((true, cols.region_code@))
    } else if idx.month >= row.len() {
        Some((true, cols.month@))
    } else if !cell_u32_ok(row[idx.month as int]@) {
        Some((false, cols.month@))
    } else if idx.day >= row.len() {
        Some((true, cols.day@))
    } else if !cell_u32_ok(row[idx.day as int]@) {
        Some((false, cols.day@))
    } else if idx.year >= row.len() {
        Some((true, cols.year@))
    } else if !cell_u32_ok(row[idx.year as int]@) {
        Some((false, cols.year@))
    } else if idx.species_code >= row.len() {
        Some((true, cols.species_code@))
    } else if idx.how_many >= row.len() {
        Some((true, cols.how_many@))
    } else if !cell_u32_ok(row[idx.how_many as int]@) {
        Some((false, cols.how_many@))
    } else if idx.valid >= row.len() {
        Some((true, cols.valid@))
    } else if !cell_u32_ok(row[idx.valid as int]@) {
        Some((false, cols.valid@))
    } else {
        None
    }
}

/// The typed observation a clean row denotes.
pub open spec fn obs_of_row(row: Seq<String>, idx: ObservationIndexes) -> Observation {
    Observation {
        region_code: row[idx.region_code as int],
        species_code: row[idx.species_code as int],
        month: dec_val(row[idx.month as int]@) as u32,
        day: dec_val(row[idx.day as int]@) as u32,
        year: dec_val(row[idx.year as int]@) as u32,
        how_many: dec_val(row[idx.how_many as int]@) as u32,
        valid: dec_val(row[idx.valid as int]@) as u32,
    }
}

/// Index of the first observation row showing an issue, if any.
pub open spec fn first_bad_obs_row(
    rows: Seq<Vec<String>>,
    idx: ObservationIndexes,
    cols: ObservationColumns,
) -> Option<int>
    decreases rows.len(),
{
    if rows.len() == 0 {
        None
    } else if obs_row_issue(rows[0]@, idx, cols) is Some {
        Some(0)
    } else {
        match first_bad_obs_row(rows.drop_first(), idx, cols) {
            Some(i) => Some(i + 1),
            None => None,
        }
    }
}

/// What `first_bad_obs_row` returns: the first offending index, if any.
pub proof fn lemma_first_bad_obs_row_props(
    rows: Seq<Vec<String>>,
    idx: ObservationIndexes,
    cols: ObservationColumns,
)
    ensures
        match first_bad_obs_row(rows, idx, cols) {
            Some(b) => 0 <= b < rows.len() && obs_row_issue(rows[b]@, idx, cols) is Some
                && forall|m: int| 0 <= m < b ==> obs_row_issue((#[trigger] rows[m])@, idx, cols)
                is None,
            None => forall|m: int|
                0 <= m < rows.len() ==> obs_row_issue((#[trigger] rows[m])@, idx, cols) is None,
        },
    decreases rows.len(),
{
    if rows.len() > 0 && obs_row_issue(rows[0]@, idx, cols) is None {
        let d = rows.drop_first();
        lemma_first_bad_obs_row_props(d, idx, cols);
        match first_bad_obs_row(d, idx, cols) {
            Some(b) => {
                assert(rows[b + 1] == d[b]);
                assert forall|m: int|
                    0 <= m < b + 1 implies obs_row_issue((#[trigger] rows[m])@, idx, cols)
                    is None by {
                    if m > 0 {
                        assert(rows[m] == d[m - 1]);
                    }
                }
            },
            None => {
                assert forall|m: int|
                    0 <= m < rows.len() implies obs_row_issue((#[trigger] rows[m])@, idx, cols)
                    is None by {
                    if m > 0 {
                        assert(rows[m] == d[m - 1]);
                    }
                }
            },
        }
    }
}

/// Parses every row against resolved column positions, in order,
/// stopping at the first offending row; succeeds exactly when every row
/// is clean, and then yields one typed observation per input row.
pub fn parse_observations(
    rows: &Vec<Vec<String>>,
    idx: &ObservationIndexes,
    cols: &ObservationColumns,
) -> (r: Result<Vec<Observation>, PipelineError>)
    ensures
        r is Ok <==> first_bad_obs_row(rows@, *idx, *cols) is None,
        r matches Ok(v) ==> v@.len() == rows@.len() && forall|m: int|
            0 <= m < rows@.len() ==> v@[m] == obs_of_row((#[trigger] rows@[m])@, *idx),
        r matches Err(e) ==> ({
            let b = first_bad_obs_row(rows@, *idx, *cols);
            &&& b is Some
            &&& match obs_row_issue(rows@[b->Some_0]@, *idx, *cols) {
                Some(issue) => if issue.0 {
                    e matches PipelineError::Schema { column } && column@ == issue.1
                } else {
                    e matches PipelineError::Type { column, row } && column@ == issue.1 && row
                        == b->Some_0
                },
                None => false,
            }
        }),
{
    let mut out: Vec<Observation> = Vec::new();
    let mut i: usize = 0;
    while i < rows.len()
        invariant
            i <= rows@.len(),
            out@.len() == i,
            forall|m: int|
                0 <= m < i ==> obs_row_issue((#[trigger] rows@[m])@, *idx, *cols) is None,
            forall|m: int| 0 <= m < i ==> out@[m] == obs_of_row((#[trigger] rows@[m])@, *idx),
        decreases rows@.len() - i,
    {
        let row = &rows[i];
        if idx.region_code >= row.len() {
            proof {
                lemma_first_bad_obs_row_props(rows@, *idx, *cols);
            }
            return Err(PipelineError::Schema { column: cols.region_code.clone() });
        }
        if idx.month >= row.len() {
            proof {
                lemma_first_bad_obs_row_props(rows@, *idx, *cols);
            }
            return Err(PipelineError::Schema { column: cols.month.clone() });
        }
        let month = match parse_u32(row[idx.month].as_str()) {
            Some(v) => v,
            None => {
                proof {
                    lemma_first_bad_obs_row_props(rows@, *idx, *cols);
                }
                return Err(PipelineError::Type { column: cols.month.clone(), row: i });
            },
        };
        if idx.day >= row.len() {
            proof {
                lemma_first_bad_obs_row_props(rows@, *idx, *cols);
            }
            return Err(PipelineError::Schema { column: cols.day.clone() });
        }
        let day = match parse_u32(row[idx.day].as_str()) {
            Some(v) => v,
            None => {
                proof {
                    lemma_first_bad_obs_row_props(rows@, *idx, *cols);
                }
                return Err(PipelineError::Type { column: cols.day.clone(), row: i });
            },
        };
        if idx.year >= row.len() {
            proof {
                lemma_first_bad_obs_row_props(rows@, *idx, *cols);
            }
            return Err(PipelineError::Schema { column: cols.year.clone() });
        }
        let year = match parse_u32(row[idx.year].as_str()) {
            Some(v) => v,
            None => {
                proof {
                    lemma_first_bad_obs_row_props(rows@, *idx, *cols);
                }
                return Err(PipelineError::Type { column: cols.year.clone(), row: i });
            },
        };
        if idx.species_code >= row.len() {
            proof {
                lemma_first_bad_obs_row_props(rows@, *idx, *cols);
            }
            return Err(PipelineError::Schema { column: cols.species_code.clone() });
        }
        if idx.how_many >= row.len() {
            proof {
                lemma_first_bad_obs_row_props(rows@, *idx, *cols);
            }
            return Err(PipelineError::Schema { column: cols.how_many.clone() });
        }
        let how_many = match parse_u32(row[idx.how_many].as_str()) {
            Some(v) => v,
            None => {
                proof {
                    lemma_first_bad_obs_row_props(rows@, *idx, *cols);
                }
                return Err(PipelineError::Type { column: cols.how_many.clone(), row: i });
            },
        };
        if idx.valid >= row.len() {
            proof {
                lemma_first_bad_obs_row_props(rows@, *idx, *cols);
            }
            return Err(PipelineError::Schema { column: cols.valid.clone() });
        }
        let valid = match parse_u32(row[idx.valid].as_str()) {
            Some(v) => v,
            None => {
                proof {
                    lemma_first_bad_obs_row_props(rows@, *idx, *cols);
                }
                return Err(PipelineError::Type { column: cols.valid.clone(), row: i });
            },
        };
        proof {
            crate::text::lemma_dec_val_nonneg(rows@[i as int]@[idx.month as int]@);
            crate::text::lemma_dec_val_nonneg(rows@[i as int]@[idx.day as int]@);
            crate::text::lemma_dec_val_nonneg(rows@[i as int]@[idx.year as int]@);
            crate::text::lemma_dec_val_nonneg(rows@[i as int]@[idx.how_many as int]@);
            crate::text::lemma_dec_val_nonneg(rows@[i as int]@[idx.valid as int]@);
        }
        out.push(Observation {
            region_code: row[idx.region_code].clone(),
            species_code: row[idx.species_code].clone(),
            month,
            day,
            year,
            how_many,
            valid,
        });
        i = i + 1;
    }
    proof {
        lemma_first_bad_obs_row_props(rows@, *idx, *cols);
    }
    Ok(out)
}

/// The problem a lookup row shows: the first of its two columns, in
/// schema order, that the row has no cell for.
pub open spec fn lookup_row_issue(
    row: Seq<String>,
    idx: LookupIndexes,
    cols: LookupColumns,
) -> Option<Seq<char>> {
    if idx.species_code >= row.len() {
        Some(cols.species_code@)
    } else if idx.species_name >= row.len() {
        Some(cols.species_name@)
    } else {
        None
    }
}

/// The typed lookup row a clean raw row denotes.
pub open spec fn lookup_of_row(row: Seq<String>, idx: LookupIndexes) -> LookupRow {
    LookupRow {
        species_code: row[idx.species_code as int],
        species_name: row[idx.species_name as int],
    }
}

/// Index of the first lookup row showing an issue, if any.
pub open spec fn first_bad_lookup_row(
    rows: Seq<Vec<String>>,
    idx: LookupIndexes,
    cols: LookupColumns,
) -> Option<int>
    decreases rows.len(),
{
    if rows.len() == 0 {
        None
    } else if lookup_row_issue(rows[0]@, idx, cols) is Some {
        Some(0)
    } else {
        match first_bad_lookup_row(rows.drop_first(), idx, cols) {
            Some(i) => Some(i + 1),
            None => None,
        }
    }
}

/// What `first_bad_lookup_row` returns.
pub proof fn lemma_first_bad_lookup_row_props(
    rows: Seq<Vec<String>>,
    idx: LookupIndexes,
    cols: LookupColumns,
)
    ensures
        match first_bad_lookup_row(rows, idx, cols) {
            Some(b) => 0 <= b < rows.len() && lookup_row_issue(rows[b]@, idx, cols) is Some
                && forall|m: int| 0 <= m < b ==> lookup_row_issue(
                (#[trigger] rows[m])@,
                idx,
                cols,
            ) is None,
            None => forall|m: int|
                0 <= m < rows.len() ==> lookup_row_issue((#[trigger] rows[m])@, idx, cols)
                is None,
        },
    decreases rows.len(),
{
    if rows.len() > 0 && lookup_row_issue(rows[0]@, idx, cols) is None {
        let d = rows.drop_first();
        lemma_first_bad_lookup_row_props(d, idx, cols);
        match first_bad_lookup_row(d, idx, cols) {
            Some(b) => {
                assert(rows[b + 1] == d[b]);
                assert forall|m: int|
                    0 <= m < b + 1 implies lookup_row_issue((#[trigger] rows[m])@, idx, cols)
                    is None by {
                    if m > 0 {
                        assert(rows[m] == d[m - 1]);
                    }
                }
            },
            None => {
                assert forall|m: int|
                    0 <= m < rows.len() implies lookup_row_issue((#[trigger] rows[m])@, idx, cols)
                    is None by {
                    if m > 0 {
                        assert(rows[m] == d[m - 1]);
                    }
                }
            },
        }
    }
}

/// Projects every raw lookup row onto the two named columns, stopping
/// at the first row that lacks one of them.
pub fn parse_lookup_rows(
    rows: &Vec<Vec<String>>,
    idx: &LookupIndexes,
    cols: &LookupColumns,
) -> (r: Result<Vec<LookupRow>, PipelineError>)
    ensures
        r is Ok <==> first_bad_lookup_row(rows@, *idx, *cols) is None,
        r matches Ok(v) ==> v@.len() == rows@.len() && forall|m: int|
            0 <= m < rows@.len() ==> v@[m] == lookup_of_row((#[trigger] rows@[m])@, *idx),
        r matches Err(e) ==> ({
            let b = first_bad_lookup_row(rows@, *idx, *cols);
            &&& b is Some
            &&& match lookup_row_issue(rows@[b->Some_0]@, *idx, *cols) {
                Some(column) => e matches PipelineError::Schema { column: c } && c@ == column,
                None => false,
            }
        }),
{
    let mut out: Vec<LookupRow> = Vec::new();
    let mut i: usize = 0;
    while i < rows.len()
        invariant
            i <= rows@.len(),
            out@.len() == i,
            forall|m: int|
                0 <= m < i ==> lookup_row_issue((#[trigger] rows@[m])@, *idx, *cols) is None,
            forall|m: int| 0 <= m < i ==> out@[m] == lookup_of_row((#[trigger] rows@[m])@, *idx),
        decreases rows@.len() - i,
    {
        let row = &rows[i];
        if idx.species_code >= row.len() {
            proof {
                lemma_first_bad_lookup_row_props(rows@, *idx, *cols);
            }
            return Err(PipelineError::Schema { column: cols.species_code.clone() });
        }
        if idx.species_name >= row.len() {
            proof {
                lemma_first_bad_lookup_row_props(rows@, *idx, *cols);
            }
            return Err(PipelineError::Schema { column: cols.species_name.clone() });
        }
        out.push(LookupRow {
            species_code: row[idx.species_code].clone(),
            species_name: row[idx.species_name].clone(),
        });
        i = i + 1;
    }
    proof {
        lemma_first_bad_lookup_row_props(rows@, *idx, *cols);
    }
    Ok(out)
}

/// Normalizes a raw observation table: resolves the schema against the
/// header once, then types every row. A missing column aborts with the
/// schema failure before any row is read.
pub fn normalize_observations(table: &RawTable, cols: &ObservationColumns) -> (r: Result<
    Vec<Observation>,
    PipelineError,
>)
    ensures
        first_missing_obs_column(table.header@, *cols) matches Some(c) ==> r matches Err(e)
            && e matches PipelineError::Schema { column } && column@ == c,
        first_missing_obs_column(table.header@, *cols) is None ==> ({
            let idx = obs_indexes_spec(table.header@, *cols);
            &&& (r is Ok <==> first_bad_obs_row(table.rows@, idx, *cols) is None)
            &&& (r matches Ok(v) ==> v@.len() == table.rows@.len() && forall|m: int|
                0 <= m < table.rows@.len() ==> v@[m] == obs_of_row(
                    (#[trigger] table.rows@[m])@,
                    idx,
                ))
            &&& (r matches Err(e) ==> ({
                let b = first_bad_obs_row(table.rows@, idx, *cols);
                &&& b is Some
                &&& match obs_row_issue(table.rows@[b->Some_0]@, idx, *cols) {
                    Some(issue) => if issue.0 {
                        e matches PipelineError::Schema { column } && column@ == issue.1
                    } else {
                        e matches PipelineError::Type { column, row } && column@ == issue.1
                            && row == b->Some_0
                    },
                    None => false,
                }
            }))
        }),
{
    let idx = match resolve_observation_columns(&table.header, cols) {
        Ok(idx) => idx,
        Err(e) => {
            return Err(e);
        },
    };
    parse_observations(&table.rows, &idx, cols)
}

/// Normalizes the raw lookup table: resolves its two columns against
/// the header, then projects every row onto them.
pub fn normalize_lookup(table: &RawTable, cols: &LookupColumns) -> (r: Result<
    Vec<LookupRow>,
    PipelineError,
>)
    ensures
        first_missing_lookup_column(table.header@, *cols) matches Some(c) ==> r matches Err(e)
            && e matches PipelineError::Schema { column } && column@ == c,
        first_missing_lookup_column(table.header@, *cols) is None ==> ({
            let idx = lookup_indexes_spec(table.header@, *cols);
            &&& (r is Ok <==> first_bad_lookup_row(table.rows@, idx, *cols) is None)
            &&& (r matches Ok(v) ==> v@.len() == table.rows@.len() && forall|m: int|
                0 <= m < table.rows@.len() ==> v@[m] == lookup_of_row(
                    (#[trigger] table.rows@[m])@,
                    idx,
                ))
            &&& (r matches Err(e) ==> ({
                let b = first_bad_lookup_row(table.rows@, idx, *cols);
                &&& b is Some
                &&& match lookup_row_issue(table.rows@[b->Some_0]@, idx, *cols) {
                    Some(column) => e matches PipelineError::Schema { column: c } && c@
                        == column,
                    None => false,
                }
            }))
        }),
{
    let idx = match resolve_lookup_columns(&table.header, cols) {
        Ok(idx) => idx,
        Err(e) => {
            return Err(e);
        },
    };
    parse_lookup_rows(&table.rows, &idx, cols)
}


} // verus!
