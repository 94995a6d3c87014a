//! The general laws of the filter, stated over the model and proved once and
//! for all: monotonicity of cells, the cell range, counter consistency, what
//! `check` answers after an insertion, idempotence of re-insertion, the
//! overwrite rule, and determinism of the index computation.

use vstd::prelude::*;
use crate::counting::{
    count_nonzero,
    sum_from,
    lemma_count_partition,
    lemma_sum_from_matches_counts,
};
use crate::model::{
    FilterState,
    insert_tx,
    min_cells,
    wf_state,
    lemma_min_cells_is_min,
    lemma_probes_fold_filter,
};
use crate::sbf::SbfView;

verus! {

/// Monotonicity: an insertion never lowers a cell. Over its lifetime every
/// cell's value is non-decreasing.
pub proof fn lemma_insert_monotone(s: FilterState, idxs: Seq<int>, area: u16)
    requires
        forall|j: int| 0 <= j < idxs.len() ==> 0 <= #[trigger] idxs[j] < s.filter.len(),
    ensures
        insert_tx(s, idxs, area).filter.len() == s.filter.len(),
        forall|c: int|
            0 <= c < s.filter.len() ==> #[trigger] insert_tx(s, idxs, area).filter[c]
                >= s.filter[c],
{
    lemma_probes_fold_filter(s, idxs, area);
}

/// Cell range: in a well-formed state every cell value lies in
/// `{0} union {1..=a}`.
pub proof fn lemma_cell_range(s: FilterState, a: int)
    requires
        wf_state(s, a),
    ensures
        forall|i: int| 0 <= i < s.filter.len() ==> 0 <= #[trigger] s.filter[i] <= a,
{
}

/// Counter consistency: in a well-formed state the per-area cell counters
/// sum to the number of non-empty cells, and the per-area member counters
/// sum to `members`.
pub proof fn lemma_counter_consistency(s: FilterState, a: int)
    requires
        wf_state(s, a),
    ensures
        sum_from(s.area_cells, 1) == count_nonzero(s.filter),
        sum_from(s.area_members, 1) == s.members,
{
    lemma_sum_from_matches_counts(s.area_cells, s.filter, a, 1);
    lemma_count_partition(s.filter, a);
}

/// Check dominance, one direction holding always: right after inserting a
/// content, checking that same content answers at least the inserted label,
/// since every probed cell rose to at least `area`.
pub proof fn lemma_check_at_least_inserted(s: FilterState, idxs: Seq<int>, area: u16)
    requires
        idxs.len() >= 1,
        forall|j: int| 0 <= j < idxs.len() ==> 0 <= #[trigger] idxs[j] < s.filter.len(),
    ensures
        min_cells(insert_tx(s, idxs, area).filter, idxs) >= area,
{
    lemma_probes_fold_filter(s, idxs, area);
    let f2 = insert_tx(s, idxs, area).filter;
    assert forall|j: int| 0 <= j < idxs.len() implies f2[#[trigger] idxs[j]] >= area by {
        assert(idxs.contains(idxs[j]));
    }
    lemma_min_cells_is_min(f2, idxs);
    let j = choose|j: int|
        0 <= j < idxs.len() && min_cells(f2, idxs) == f2[#[trigger] idxs[j]] as int;
    assert(f2[idxs[j]] >= area);
}

/// Check dominance, exactly: right after inserting a content whose probed
/// cells all held at most the inserted label, checking that content answers
/// exactly the label — so in particular no more than it. (A probed cell that
/// already held a higher label keeps it, and the answer then exceeds the
/// label: those starting states are excluded here.)
pub proof fn lemma_check_after_insert(s: FilterState, idxs: Seq<int>, area: u16)
    requires
        idxs.len() >= 1,
        forall|j: int| 0 <= j < idxs.len() ==> 0 <= #[trigger] idxs[j] < s.filter.len(),
        forall|j: int| 0 <= j < idxs.len() ==> s.filter[#[trigger] idxs[j]] <= area,
    ensures
        min_cells(insert_tx(s, idxs, area).filter, idxs) == area,
{
    lemma_probes_fold_filter(s, idxs, area);
    let f2 = insert_tx(s, idxs, area).filter;
    assert forall|j: int| 0 <= j < idxs.len() implies f2[#[trigger] idxs[j]] == area by {
        assert(idxs.contains(idxs[j]));
    }
    lemma_min_cells_is_min(f2, idxs);
    let j = choose|j: int|
        0 <= j < idxs.len() && min_cells(f2, idxs) == f2[#[trigger] idxs[j]] as int;
    assert(f2[idxs[j]] == area);
}

/// Idempotence of re-insertion: inserting the same content under the same
/// label twice leaves the cell array exactly as one insertion left it (the
/// counters may advance).
pub proof fn lemma_insert_idempotent(s: FilterState, idxs: Seq<int>, area: u16)
    requires
        forall|j: int| 0 <= j < idxs.len() ==> 0 <= #[trigger] idxs[j] < s.filter.len(),
    ensures
        insert_tx(insert_tx(s, idxs, area), idxs, area).filter == insert_tx(
            s,
            idxs,
            area,
        ).filter,
{
    lemma_probes_fold_filter(s, idxs, area);
    let s1 = insert_tx(s, idxs, area);
    lemma_probes_fold_filter(s1, idxs, area);
    assert(insert_tx(s1, idxs, area).filter =~= s1.filter);
}

/// The overwrite rule: inserting one content and then another under the next
/// higher label leaves every cell probed by both at the higher label,
/// provided the cell did not already hold a label above it. (A cell already
/// above the higher label keeps its value: that starting state is excluded
/// here.)
pub proof fn lemma_overwrite(
    s: FilterState,
    idxs1: Seq<int>,
    idxs2: Seq<int>,
    area: u16,
    next: u16,
    c: int,
)
    requires
        forall|j: int| 0 <= j < idxs1.len() ==> 0 <= #[trigger] idxs1[j] < s.filter.len(),
        forall|j: int| 0 <= j < idxs2.len() ==> 0 <= #[trigger] idxs2[j] < s.filter.len(),
        next as int == area as int + 1,
        idxs1.contains(c),
        idxs2.contains(c),
        0 <= c < s.filter.len(),
        s.filter[c] <= next,
    ensures
        insert_tx(insert_tx(s, idxs1, area), idxs2, next).filter[c] == next,
{
    lemma_probes_fold_filter(s, idxs1, area);
    let s1 = insert_tx(s, idxs1, area);
    lemma_probes_fold_filter(s1, idxs2, next);
}

/// Every probe index of any content lies inside the cell array, and there is
/// one probe per salt. This is what lets the other laws be applied to a
/// filter's own index sequence.
pub proof fn lemma_indices_in_range(v: SbfView, content: Seq<u8>)
    requires
        v.cells >= 1,
    ensures
        v.indices(content).len() == v.salts.len(),
        forall|j: int|
            0 <= j < v.indices(content).len() ==> 0 <= #[trigger] v.indices(content)[j] < v.cells,
{
}

/// Determinism: with the same salts, algorithm, cell count and cell array,
/// the probe indices and the check answer are functions of the content
/// alone.
pub proof fn lemma_determinism(v1: SbfView, v2: SbfView, content: Seq<u8>)
    requires
        v1.salts == v2.salts,
        v1.hash_function == v2.hash_function,
        v1.cells == v2.cells,
        v1.state.filter == v2.state.filter,
    ensures
        v1.indices(content) == v2.indices(content),
        v1.check_value(content) == v2.check_value(content),
{
}

} // verus!
