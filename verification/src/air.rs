//! The integer-valued heart of an air-pollution report: the air quality
//! index. The accompanying component concentrations are floating-point
//! measurements and live with the I/O layer, outside the verified core.

use vstd::prelude::*;

verus! {

/// The air-quality-index part of one air-pollution sample.
#[derive(Clone, Copy, PartialEq, Eq, Structural, Debug)]
pub struct Main {
    pub aqi: u8,
}

impl Main {
    /// The first sample of a report, if the report holds any; reports
    /// list samples in chronological order, so this is the current one.
    pub fn first_of(list: &Vec<Main>) -> (r: Option<Main>)
        ensures
            list@.len() > 0 ==> r == Some(list@[0]),
            list@.len() == 0 ==> r is None,
    {
        if list.len() > 0 {
            Some(list[0])
        } else {
            None
        }
    }
}

} // verus!
