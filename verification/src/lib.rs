//! Verified core of a tabular aggregation pipeline over bird-survey data.
//!
//! The library ingests an observation log and a small code-to-name lookup
//! table, normalizes raw text rows into typed records, filters out invalid
//! rows, groups the remainder by `(region_code, species_code)`, sums and
//! counts each group, orders the summaries by total count (descending,
//! stable), and enriches them with species names through an inner join.
//! Every stage carries a contract that pins its output down exactly.

pub mod air;
pub mod filter;
pub mod group;
pub mod join;
pub mod normalize;
pub mod pipeline;
pub mod rows;
pub mod sort;
pub mod text;
