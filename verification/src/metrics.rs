//! The population counters kept live during insertion. Every counter is an
//! integer; the derived floating-point estimators (sparsity, false-positive
//! and inter-set error probabilities, emersion, safeness) are computed by the
//! caller from these counters and are not part of this crate.

use vstd::prelude::*;

verus! {

/// Counters describing the state of a filter, updated on every insertion.
/// Areas are labeled `1..=area_number`; index `0` of each vector is unused
/// and stays zero.
#[derive(Clone, Debug)]
pub struct Metrics {
    /// Number of cells in the filter.
    pub cells: usize,
    /// Number of hash probes per content.
    pub hash_number: usize,
    /// Number of completed insertions.
    pub members: usize,
    /// Number of probes that found their target cell already marked.
    pub collisions: usize,
    /// Number of areas.
    pub area_number: usize,
    /// Per area, the number of insertions made with that label.
    pub area_members: Vec<usize>,
    /// Per area, the number of cells currently holding that label.
    pub area_cells: Vec<usize>,
    /// Per area, the number of probes that found their own label in place.
    pub area_self_collisions: Vec<usize>,
}

impl Metrics {
    /// Returns the number of inserted elements for the given area index, or
    /// nothing when the index lies outside the counter vector.
    pub fn get_area_members(&self, index: usize) -> (r: Option<usize>)
        ensures
            index < self.area_members@.len() ==> r == Some(self.area_members@[index as int]),
            index >= self.area_members@.len() ==> r is None,
    {
        if index < self.area_members.len() {
            Some(self.area_members[index])
        } else {
            None
        }
    }
}

} // verus!
