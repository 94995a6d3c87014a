//! The mathematical model of a filter: the cell array together with the
//! population counters, the transition that one probe of an insertion applies
//! to it, and the lemmas showing that the transitions preserve the filter's
//! invariants.

use vstd::prelude::*;
use crate::counting::{
    count_eq,
    sum_from,
    lemma_count_eq_bounds,
    lemma_count_eq_update,
    lemma_sum_from_update,
};

verus! {

/// The mutable part of a filter: the cells and the counters the metrics
/// subsystem maintains. Areas are labeled `1..=A`; index `0` of each counter
/// vector is unused and stays zero.
pub ghost struct FilterState {
    /// The cell array; each cell holds `0` (empty) or an area label.
    pub filter: Seq<u16>,
    /// Total number of completed insertions.
    pub members: int,
    /// Number of probes that found their target cell already non-zero.
    pub collisions: int,
    /// Per area, the number of insertions made with that label.
    pub area_members: Seq<int>,
    /// Per area, the number of cells currently holding that label.
    pub area_cells: Seq<int>,
    /// Per area, the number of probes that found their own label in place.
    pub area_self_collisions: Seq<int>,
}

/// The larger of two cell values.
pub open spec fn max_u16(x: u16, y: u16) -> u16 {
    if x < y {
        y
    } else {
        x
    }
}

/// The monotone write rule, applied by one probe of `insert(_, area)` to the
/// cell at index `i`:
/// - an empty cell takes the label and is counted for it;
/// - a lower label is overwritten, its cell count moving to `area`, and the
///   probe counts as a collision;
/// - an equal label stands, counting as a collision and a self-collision;
/// - a higher label stands, counting as a collision only.
pub open spec fn probe_step(s: FilterState, i: int, area: u16) -> FilterState {
    let v = s.filter[i] as int;
    if v == 0 {
        FilterState {
            filter: s.filter.update(i, area),
            area_cells: s.area_cells.update(area as int, s.area_cells[area as int] + 1),
            ..s
        }
    } else if v < area as int {
        FilterState {
            filter: s.filter.update(i, area),
            area_cells: s.area_cells.update(v, s.area_cells[v] - 1).update(
                area as int,
                s.area_cells[area as int] + 1,
            ),
            collisions: s.collisions + 1,
            ..s
        }
    } else if v == area as int {
        FilterState {
            collisions: s.collisions + 1,
            area_self_collisions: s.area_self_collisions.update(
                v,
                s.area_self_collisions[v] + 1,
            ),
            ..s
        }
    } else {
        FilterState { collisions: s.collisions + 1, ..s }
    }
}

/// The write rule applied probe after probe, in probe order.
pub open spec fn probes_fold(s: FilterState, idxs: Seq<int>, area: u16) -> FilterState
    decreases idxs.len(),
{
    if idxs.len() == 0 {
        s
    } else {
        probes_fold(probe_step(s, idxs[0], area), idxs.drop_first(), area)
    }
}

/// One whole insertion: every probe is applied, then the member counters
/// advance by one.
pub open spec fn insert_tx(s: FilterState, idxs: Seq<int>, area: u16) -> FilterState {
    let t = probes_fold(s, idxs, area);
    FilterState {
        members: t.members + 1,
        area_members: t.area_members.update(area as int, t.area_members[area as int] + 1),
        ..t
    }
}

/// Probes can be folded from either end: appending one more index applies
/// one more step to the folded state.
pub proof fn lemma_probes_fold_snoc(s: FilterState, idxs: Seq<int>, x: int, area: u16)
    ensures
        probes_fold(s, idxs.push(x), area) == probe_step(probes_fold(s, idxs, area), x, area),
    decreases idxs.len(),
{
    reveal_with_fuel(probes_fold, 2);
    if idxs.len() == 0 {
        assert(idxs.push(x)[0] == x);
        assert(idxs.push(x).drop_first() =~= Seq::<int>::empty());
    } else {
        assert(idxs.push(x)[0] == idxs[0]);
        assert(idxs.push(x).drop_first() =~= idxs.drop_first().push(x));
        lemma_probes_fold_snoc(probe_step(s, idxs[0], area), idxs.drop_first(), x, area);
    }
}

/// The minimum cell value over the probed indices; what `check` returns.
pub open spec fn min_cells(filter: Seq<u16>, idxs: Seq<int>) -> int
    decreases idxs.len(),
{
    if idxs.len() == 0 {
        0
    } else if idxs.len() == 1 {
        filter[idxs[0]] as int
    } else {
        let rest = min_cells(filter, idxs.drop_first());
        if filter[idxs[0]] as int <= rest {
            filter[idxs[0]] as int
        } else {
            rest
        }
    }
}

/// Well-formedness of the filter state for an area count `a`: counter vectors
/// sized `a + 1` with slot `0` unused, every cell in `{0} union {1..=a}`, the
/// per-area cell counters agreeing with the cell array, and the member
/// counters summing to `members`.
pub open spec fn wf_state(s: FilterState, a: int) -> bool {
    &&& a >= 1
    &&& s.area_members.len() == a + 1
    &&& s.area_cells.len() == a + 1
    &&& s.area_self_collisions.len() == a + 1
    &&& forall|i: int| 0 <= i < s.filter.len() ==> (#[trigger] s.filter[i]) as int <= a
    &&& forall|b: int| 1 <= b <= a ==> #[trigger] s.area_cells[b] == count_eq(s.filter, b)
    &&& s.area_cells[0] == 0
    &&& s.area_members[0] == 0
    &&& s.area_self_collisions[0] == 0
    &&& forall|b: int| 0 <= b <= a ==> #[trigger] s.area_members[b] >= 0
    &&& forall|b: int| 0 <= b <= a ==> #[trigger] s.area_cells[b] >= 0
    &&& forall|b: int| 0 <= b <= a ==> #[trigger] s.area_self_collisions[b] >= 0
    &&& s.members >= 0
    &&& s.collisions >= 0
    &&& s.members == sum_from(s.area_members, 1)
}

/// Bounds tying the collision counters to the number of probes made: each
/// insertion makes `k` probes, each adding at most one collision and at most
/// one self-collision of its own area.
pub open spec fn wf_counters(s: FilterState, a: int, k: int) -> bool {
    &&& s.collisions <= s.members * k
    &&& forall|b: int|
        1 <= b <= a ==> #[trigger] s.area_self_collisions[b] <= k * s.area_members[b]
}

/// One probe preserves well-formedness, does not touch the member counters,
/// adds at most one collision and self-collision, and rewrites the probed
/// cell to the larger of its old value and the inserted label.
pub proof fn lemma_probe_step(s: FilterState, i: int, area: u16, a: int)
    requires
        wf_state(s, a),
        0 <= i < s.filter.len(),
        1 <= area as int <= a,
    ensures
        wf_state(probe_step(s, i, area), a),
        probe_step(s, i, area).filter =~= s.filter.update(i, max_u16(s.filter[i], area)),
        probe_step(s, i, area).members == s.members,
        probe_step(s, i, area).area_members == s.area_members,
        s.collisions <= probe_step(s, i, area).collisions <= s.collisions + 1,
        forall|b: int|
            0 <= b < s.area_self_collisions.len() && b != area as int
                ==> #[trigger] probe_step(s, i, area).area_self_collisions[b]
                == s.area_self_collisions[b],
        s.area_self_collisions[area as int] <= probe_step(s, i, area).area_self_collisions[
            area as int
        ] <= s.area_self_collisions[area as int] + 1,
{
    let t = probe_step(s, i, area);
    let v = s.filter[i] as int;
    if v == 0 || v < area as int {
        assert forall|b: int| 1 <= b <= a implies #[trigger] t.area_cells[b] == count_eq(
            t.filter,
            b,
        ) by {
            lemma_count_eq_update(s.filter, i, area, b);
        }
        assert forall|b: int| 0 <= b <= a implies #[trigger] t.area_cells[b] >= 0 by {
            if b >= 1 {
                lemma_count_eq_bounds(t.filter, b);
            }
        }
    } else {
        assert(t.filter =~= s.filter.update(i, max_u16(s.filter[i], area)));
    }
}

/// A run of probes preserves well-formedness; the member counters stand
/// still, the collision counters advance by at most one per probe, every
/// other area's self-collisions are untouched, and each cell ends at the
/// larger of its old value and the label if some probe hit it, unchanged
/// otherwise.
pub proof fn lemma_probes_fold(s: FilterState, idxs: Seq<int>, area: u16, a: int)
    requires
        wf_state(s, a),
        forall|j: int| 0 <= j < idxs.len() ==> 0 <= #[trigger] idxs[j] < s.filter.len(),
        1 <= area as int <= a,
    ensures
        wf_state(probes_fold(s, idxs, area), a),
        probes_fold(s, idxs, area).filter.len() == s.filter.len(),
        forall|c: int|
            0 <= c < s.filter.len() ==> #[trigger] probes_fold(s, idxs, area).filter[c] == (
            if idxs.contains(c) {
                max_u16(s.filter[c], area)
            } else {
                s.filter[c]
            }),
        probes_fold(s, idxs, area).members == s.members,
        probes_fold(s, idxs, area).area_members == s.area_members,
        s.collisions <= probes_fold(s, idxs, area).collisions <= s.collisions + idxs.len(),
        forall|b: int|
            0 <= b < s.area_self_collisions.len() && b != area as int
                ==> #[trigger] probes_fold(s, idxs, area).area_self_collisions[b]
                == s.area_self_collisions[b],
        s.area_self_collisions[area as int] <= probes_fold(s, idxs, area).area_self_collisions[
            area as int
        ] <= s.area_self_collisions[area as int] + idxs.len(),
    decreases idxs.len(),
{
    lemma_probes_fold_filter(s, idxs, area);
    if idxs.len() > 0 {
        let u = probe_step(s, idxs[0], area);
        let rest = idxs.drop_first();
        lemma_probe_step(s, idxs[0], area, a);
        lemma_probes_fold(u, rest, area, a);
    }
}

/// What a run of probes does to the cells alone, with no invariant assumed:
/// a cell some probe hits ends at the larger of its old value and the label,
/// every other cell is untouched.
pub proof fn lemma_probes_fold_filter(s: FilterState, idxs: Seq<int>, area: u16)
    requires
        forall|j: int| 0 <= j < idxs.len() ==> 0 <= #[trigger] idxs[j] < s.filter.len(),
    ensures
        probes_fold(s, idxs, area).filter.len() == s.filter.len(),
        forall|c: int|
            0 <= c < s.filter.len() ==> #[trigger] probes_fold(s, idxs, area).filter[c] == (
            if idxs.contains(c) {
                max_u16(s.filter[c], area)
            } else {
                s.filter[c]
            }),
    decreases idxs.len(),
{
    if idxs.len() > 0 {
        let u = probe_step(s, idxs[0], area);
        let rest = idxs.drop_first();
        assert(u.filter =~= s.filter.update(idxs[0], max_u16(s.filter[idxs[0]], area)));
        lemma_probes_fold_filter(u, rest, area);
        let t = probes_fold(s, idxs, area);
        assert forall|c: int| 0 <= c < s.filter.len() implies #[trigger] t.filter[c] == (
        if idxs.contains(c) {
            max_u16(s.filter[c], area)
        } else {
            s.filter[c]
        }) by {
            if idxs.contains(c) {
                let j = choose|j: int| 0 <= j < idxs.len() && idxs[j] == c;
                if c == idxs[0] {
                } else {
                    assert(rest[j - 1] == c);
                    assert(rest.contains(c));
                }
            } else {
                assert(c != idxs[0]);
                assert forall|j: int| 0 <= j < rest.len() implies #[trigger] rest[j] != c by {
                    assert(idxs[j + 1] == rest[j]);
                }
                assert(!rest.contains(c));
            }
        }
    } else {
        assert forall|c: int| 0 <= c < s.filter.len() implies !idxs.contains(c) by {}
    }
}

/// A whole insertion preserves well-formedness and the collision bounds,
/// advances `members` and the inserted area's member counter by one, leaves
/// the other member counters alone, and acts on the cells exactly as the
/// probe run does.
pub proof fn lemma_insert_tx(s: FilterState, idxs: Seq<int>, area: u16, a: int, k: int)
    requires
        wf_state(s, a),
        wf_counters(s, a, k),
        forall|j: int| 0 <= j < idxs.len() ==> 0 <= #[trigger] idxs[j] < s.filter.len(),
        1 <= area as int <= a,
        idxs.len() <= k,
    ensures
        wf_state(insert_tx(s, idxs, area), a),
        wf_counters(insert_tx(s, idxs, area), a, k),
        insert_tx(s, idxs, area).filter == probes_fold(s, idxs, area).filter,
        insert_tx(s, idxs, area).members == s.members + 1,
        insert_tx(s, idxs, area).area_members == s.area_members.update(
            area as int,
            s.area_members[area as int] + 1,
        ),
        insert_tx(s, idxs, area).collisions == probes_fold(s, idxs, area).collisions,
        insert_tx(s, idxs, area).area_self_collisions == probes_fold(
            s,
            idxs,
            area,
        ).area_self_collisions,
{
    lemma_probes_fold(s, idxs, area, a);
    let t = probes_fold(s, idxs, area);
    let u = insert_tx(s, idxs, area);
    lemma_sum_from_update(t.area_members, area as int, t.area_members[area as int] + 1, 1);
    assert(u.members == sum_from(u.area_members, 1));
    assert(u.collisions <= u.members * k) by (nonlinear_arith)
        requires
            u.collisions <= s.members * k + idxs.len(),
            idxs.len() <= k,
            u.members == s.members + 1,
    ;
    assert forall|b: int| 1 <= b <= a implies #[trigger] u.area_self_collisions[b] <= k
        * u.area_members[b] by {
        if b == area as int {
            assert(u.area_self_collisions[b] <= k * u.area_members[b]) by (nonlinear_arith)
                requires
                    u.area_self_collisions[b] <= s.area_self_collisions[b] + idxs.len(),
                    s.area_self_collisions[b] <= k * s.area_members[b],
                    idxs.len() <= k,
                    u.area_members[b] == s.area_members[b] + 1,
            ;
        }
    }
}

/// Extending the probed indices by one more index takes the minimum of the
/// running minimum and the newly probed cell.
pub proof fn lemma_min_cells_push(filter: Seq<u16>, idxs: Seq<int>, x: int)
    requires
        idxs.len() >= 1,
    ensures
        min_cells(filter, idxs.push(x)) == (if (filter[x] as int) <= min_cells(filter, idxs) {
            filter[x] as int
        } else {
            min_cells(filter, idxs)
        }),
    decreases idxs.len(),
{
    let p = idxs.push(x);
    if idxs.len() == 1 {
        assert(p.drop_first() =~= seq![x]);
        assert(min_cells(filter, seq![x]) == filter[seq![x][0]] as int);
        assert(seq![x][0] == x);
        assert(p[0] == idxs[0]);
        assert(min_cells(filter, p) == (if filter[p[0]] as int <= min_cells(filter, p.drop_first()) {
            filter[p[0]] as int
        } else {
            min_cells(filter, p.drop_first())
        }));
    } else {
        assert(p.drop_first() =~= idxs.drop_first().push(x));
        lemma_min_cells_push(filter, idxs.drop_first(), x);
        assert(p[0] == idxs[0]);
        assert(min_cells(filter, p) == (if filter[p[0]] as int <= min_cells(filter, p.drop_first()) {
            filter[p[0]] as int
        } else {
            min_cells(filter, p.drop_first())
        }));
    }
}

/// The minimum over the probes is a probed cell's value and is at most every
/// probed cell's value.
pub proof fn lemma_min_cells_is_min(filter: Seq<u16>, idxs: Seq<int>)
    requires
        idxs.len() >= 1,
    ensures
        exists|j: int|
            0 <= j < idxs.len() && min_cells(filter, idxs) == filter[#[trigger] idxs[j]] as int,
        forall|j: int|
            0 <= j < idxs.len() ==> min_cells(filter, idxs) <= filter[#[trigger] idxs[j]] as int,
    decreases idxs.len(),
{
    let rest = idxs.drop_first();
    if idxs.len() == 1 {
        assert(0 <= 0 < idxs.len() && min_cells(filter, idxs) == filter[idxs[0]] as int);
    }
    if idxs.len() > 1 {
        lemma_min_cells_is_min(filter, rest);
        let m = min_cells(filter, idxs);
        assert forall|j: int| 0 <= j < idxs.len() implies m <= filter[#[trigger] idxs[j]] as int by {
            if j > 0 {
                assert(rest[j - 1] == idxs[j]);
            }
        }
        if filter[idxs[0]] as int <= min_cells(filter, rest) {
            assert(0 <= 0 < idxs.len() && min_cells(filter, idxs) == filter[idxs[0]] as int);
        } else {
            let j = choose|j: int|
                0 <= j < rest.len() && min_cells(filter, rest) == filter[#[trigger] rest[j]] as int;
            assert(idxs[j + 1] == rest[j]);
            assert(min_cells(filter, idxs) == filter[idxs[j + 1]] as int);
        }
    }
}

} // verus!
