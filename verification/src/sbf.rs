//! The spatial Bloom filter itself: construction, insertion under the
//! monotone write rule, the minimum-over-probes membership check, and the
//! verified integer readings that the metrics estimators are computed from.

use vstd::prelude::*;
use crate::counting::{
    count_eq,
    sum_from,
    lemma_count_eq_all_zero,
    lemma_count_eq_at_least_one,
    lemma_count_eq_below_len,
    lemma_count_nonzero_bounds,
    lemma_count_partition,
    lemma_sum_from_all_zero,
    lemma_sum_from_bounds_entry,
    lemma_sum_from_matches_counts,
    lemma_sum_from_monotone,
};
use crate::error::Error;
use crate::hashing::{cell_index, indices_of, probe_index};
use crate::metrics::Metrics;
use crate::model::{
    FilterState,
    insert_tx,
    max_u16,
    min_cells,
    probe_step,
    probes_fold,
    wf_counters,
    wf_state,
    lemma_insert_tx,
    lemma_min_cells_is_min,
    lemma_min_cells_push,
    lemma_probes_fold,
    lemma_probes_fold_snoc,
    lemma_probe_step,
};
use crate::rng::random_salts;

pub use crate::hashing::HashFunction;

verus! {

/// The view of a vector of counters as a sequence of unbounded integers.
pub open spec fn to_int_seq(s: Seq<usize>) -> Seq<int> {
    Seq::new(s.len(), |i: int| s[i] as int)
}

/// The view of the salt table as a sequence of byte sequences.
pub open spec fn salts_view(salts: Seq<Vec<u8>>) -> Seq<Seq<u8>> {
    Seq::new(salts.len(), |i: int| salts[i]@)
}

/// The mathematical reading of a whole filter: the immutable construction
/// parameters beside the mutable [`FilterState`].
pub ghost struct SbfView {
    /// The salt table, one salt per probe.
    pub salts: Seq<Seq<u8>>,
    /// The digest algorithm.
    pub hash_function: HashFunction,
    /// The number of cells.
    pub cells: int,
    /// The number of probes per content.
    pub hash_number: int,
    /// The number of areas.
    pub area_number: int,
    /// The cells and counters.
    pub state: FilterState,
}

impl SbfView {
    /// Well-formedness: positive sizes, an area count representable as a cell
    /// value, the state invariants of [`wf_state`] and [`wf_counters`], and
    /// room in the machine integers for the collision counters.
    pub open spec fn wf(self) -> bool {
        &&& self.cells >= 1
        &&& self.state.filter.len() == self.cells
        &&& self.hash_number >= 1
        &&& self.salts.len() == self.hash_number
        &&& 1 <= self.area_number <= u16::MAX
        &&& wf_state(self.state, self.area_number)
        &&& wf_counters(self.state, self.area_number, self.hash_number)
        &&& self.state.members * self.hash_number <= usize::MAX
    }

    /// The probe indices this filter assigns to a content.
    pub open spec fn indices(self, content: Seq<u8>) -> Seq<int> {
        indices_of(self.hash_function, self.salts, content, self.cells)
    }

    /// What `check` returns for a content: the minimum probed cell value.
    pub open spec fn check_value(self, content: Seq<u8>) -> int {
        min_cells(self.state.filter, self.indices(content))
    }
}

/// A spatial Bloom filter over `u16` cells. Each cell holds `0` (empty) or
/// the label of one of `area_number` disjoint areas; larger labels have
/// write priority.
#[derive(Clone, Debug)]
pub struct SBF {
    /// One salt per probe, drawn at construction, immutable afterwards.
    salts: Vec<Vec<u8>>,
    /// The cell array.
    filter: Vec<u16>,
    /// The digest algorithm used to derive cell indices.
    hash_function: HashFunction,
    /// The population counters, updated by `insert`.
    pub metrics: Metrics,
}

impl View for SBF {
    type V = SbfView;

    closed spec fn view(&self) -> SbfView {
        SbfView {
            salts: salts_view(self.salts@),
            hash_function: self.hash_function,
            cells: self.metrics.cells as int,
            hash_number: self.metrics.hash_number as int,
            area_number: self.metrics.area_number as int,
            state: FilterState {
                filter: self.filter@,
                members: self.metrics.members as int,
                collisions: self.metrics.collisions as int,
                area_members: to_int_seq(self.metrics.area_members@),
                area_cells: to_int_seq(self.metrics.area_cells@),
                area_self_collisions: to_int_seq(self.metrics.area_self_collisions@),
            },
        }
    }
}

/// Builds a vector of `n` zero cells.
fn zero_u16_vec(n: usize) -> (r: Vec<u16>)
    ensures
        r@.len() == n,
        forall|i: int| 0 <= i < n ==> (#[trigger] r@[i]) == 0,
{
    let mut out: Vec<u16> = Vec::new();
    let mut i: usize = 0;
    while i < n
        invariant
            i <= n,
            out@.len() == i,
            forall|t: int| 0 <= t < i ==> (#[trigger] out@[t]) == 0,
        decreases n - i,
    {
        out.push(0);
        i = i + 1;
    }
    out
}

/// Builds a vector of `n` zero counters.
fn zero_usize_vec(n: usize) -> (r: Vec<usize>)
    ensures
        r@.len() == n,
        forall|i: int| 0 <= i < n ==> (#[trigger] r@[i]) == 0,
{
    let mut out: Vec<usize> = Vec::new();
    let mut i: usize = 0;
    while i < n
        invariant
            i <= n,
            out@.len() == i,
            forall|t: int| 0 <= t < i ==> (#[trigger] out@[t]) == 0,
        decreases n - i,
    {
        out.push(0);
        i = i + 1;
    }
    out
}

impl SBF {
    /// Builds a filter of `cells` zeroed cells, `hash_number` probes with
    /// salts of `max_input_size` random bytes each, and `area_number` areas,
    /// with every counter zero. Fails with `IndexOutOfBounds` exactly when
    /// the area count cannot be represented as a cell value.
    pub fn new(
        cells: usize,
        hash_number: usize,
        max_input_size: usize,
        hash_function: HashFunction,
        area_number: usize,
    ) -> (r: Result<SBF, Error>)
        requires
            cells >= 1,
            hash_number >= 1,
            area_number >= 1,
        ensures
            (r is Ok) == (area_number <= u16::MAX),
            r matches Err(e) ==> e == Error::IndexOutOfBounds,
            r matches Ok(s) ==> {
                &&& s@.wf()
                &&& s@.cells == cells
                &&& s@.hash_number == hash_number
                &&& s@.area_number == area_number
                &&& s@.hash_function == hash_function
                &&& forall|j: int|
                    0 <= j < hash_number ==> (#[trigger] s@.salts[j]).len() == max_input_size
                &&& forall|i: int| 0 <= i < cells ==> (#[trigger] s@.state.filter[i]) == 0
                &&& s@.state.members == 0
                &&& s@.state.collisions == 0
                &&& forall|b: int|
                    0 <= b <= area_number ==> (#[trigger] s@.state.area_members[b]) == 0
                &&& forall|b: int|
                    0 <= b <= area_number ==> (#[trigger] s@.state.area_cells[b]) == 0
                &&& forall|b: int|
                    0 <= b <= area_number ==> (#[trigger] s@.state.area_self_collisions[b]) == 0
            },
    {
        if area_number > u16::MAX as usize {
            return Err(Error::IndexOutOfBounds);
        }
        let filter = zero_u16_vec(cells);
        let area_members = zero_usize_vec(area_number + 1);
        let area_cells = zero_usize_vec(area_number + 1);
        let area_self_collisions = zero_usize_vec(area_number + 1);
        let salts = random_salts(hash_number, max_input_size);
        let s = SBF {
            salts,
            filter,
            hash_function,
            metrics: Metrics {
                cells,
                hash_number,
                members: 0,
                collisions: 0,
                area_number,
                area_members,
                area_cells,
                area_self_collisions,
            },
        };
        proof {
            let v = s@;
            assert forall|b: int| 1 <= b <= v.area_number implies #[trigger] v.state.area_cells[b]
                == count_eq(v.state.filter, b) by {
                lemma_count_eq_all_zero(v.state.filter, b);
            }
            lemma_sum_from_all_zero(v.state.area_members, 1);
        }
        Ok(s)
    }

    /// Computes the probe indices for a content, one per salt, in salt
    /// order. Every index lies inside the cell array.
    pub fn calc_indexes(&self, content: &[u8]) -> (r: Vec<usize>)
        requires
            self@.wf(),
        ensures
            r@.len() == self@.hash_number,
            forall|j: int|
                0 <= j < r@.len() ==> (#[trigger] r@[j]) as int == self@.indices(content@)[j],
            forall|j: int| 0 <= j < r@.len() ==> (#[trigger] r@[j]) < self@.cells,
    {
        let m = self.filter.len();
        let k = self.salts.len();
        let mut out: Vec<usize> = Vec::new();
        let mut j: usize = 0;
        while j < k
            invariant
                j <= k,
                k == self@.hash_number,
                m == self@.cells,
                self@.wf(),
                out@.len() == j,
                forall|t: int|
                    0 <= t < j ==> (#[trigger] out@[t]) as int == self@.indices(content@)[t],
                forall|t: int| 0 <= t < j ==> (#[trigger] out@[t]) < m,
            decreases k - j,
        {
            let idx = probe_index(self.hash_function, &self.salts[j], content, m);
            out.push(idx);
            j = j + 1;
        }
        out
    }

    /// Returns the value of the cell at `index`, or `IndexOutOfBounds` when
    /// the index lies outside the cell array.
    pub fn get_cell(&self, index: usize) -> (r: Result<u16, Error>)
        ensures
            index < self@.state.filter.len() ==> r == Ok::<u16, Error>(
                self@.state.filter[index as int],
            ),
            index >= self@.state.filter.len() ==> r == Err::<u16, Error>(Error::IndexOutOfBounds),
    {
        if index < self.filter.len() {
            Ok(self.filter[index])
        } else {
            Err(Error::IndexOutOfBounds)
        }
    }

    /// Applies the monotone write rule of one probe to the cell at `index`
    /// and updates the cell and collision counters accordingly; returns the
    /// cell's new value, which is the larger of its old value and `area`.
    fn set_cell(&mut self, index: usize, area: u16) -> (r: Result<u16, Error>)
        requires
            wf_state(old(self)@.state, old(self)@.area_number),
            1 <= area as int <= old(self)@.area_number,
            old(self)@.area_number <= u16::MAX,
            old(self)@.state.collisions + 1 <= usize::MAX,
            old(self)@.state.area_self_collisions[area as int] + 1 <= usize::MAX,
        ensures
            index < old(self)@.state.filter.len() ==> {
                &&& r == Ok::<u16, Error>(max_u16(old(self)@.state.filter[index as int], area))
                &&& final(self)@.state == probe_step(old(self)@.state, index as int, area)
            },
            index >= old(self)@.state.filter.len() ==> r == Err::<u16, Error>(
                Error::IndexOutOfBounds,
            ) && final(self)@ == old(self)@,
            final(self)@.salts == old(self)@.salts,
            final(self)@.hash_function == old(self)@.hash_function,
            final(self)@.cells == old(self)@.cells,
            final(self)@.hash_number == old(self)@.hash_number,
            final(self)@.area_number == old(self)@.area_number,
    {
        if index >= self.filter.len() {
            return Err(Error::IndexOutOfBounds);
        }
        let ghost s0 = old(self)@.state;
        let v = self.filter[index];
        if v == 0 {
            self.filter.set(index, area);
            let c = self.metrics.area_cells[area as usize];
            proof {
                lemma_count_eq_below_len(s0.filter, area as int, index as int);
                assert(c as int == s0.area_cells[area as int]);
                assert(c as int == count_eq(s0.filter, area as int));
                assert((c as int) < s0.filter.len());
            }
            self.metrics.area_cells.set(area as usize, c + 1);
            proof {
                assert(to_int_seq(self.metrics.area_cells@) =~= s0.area_cells.update(
                    area as int,
                    s0.area_cells[area as int] + 1,
                ));
                assert(self@.state == probe_step(s0, index as int, area));
            }
            Ok(area)
        } else if v < area {
            self.filter.set(index, area);
            let vc = self.metrics.area_cells[v as usize];
            proof {
                lemma_count_eq_at_least_one(s0.filter, v as int, index as int);
                assert(vc as int == s0.area_cells[v as int]);
                assert((vc as int) >= 1);
            }
            self.metrics.area_cells.set(v as usize, vc - 1);
            let c = self.metrics.area_cells[area as usize];
            proof {
                lemma_count_eq_below_len(s0.filter, area as int, index as int);
                assert(c as int == s0.area_cells[area as int]);
                assert((c as int) < s0.filter.len());
            }
            self.metrics.area_cells.set(area as usize, c + 1);
            self.metrics.collisions = self.metrics.collisions + 1;
            proof {
                assert(to_int_seq(self.metrics.area_cells@) =~= s0.area_cells.update(
                    v as int,
                    s0.area_cells[v as int] - 1,
                ).update(area as int, s0.area_cells[area as int] + 1));
                assert(self@.state == probe_step(s0, index as int, area));
            }
            Ok(area)
        } else if v == area {
            self.metrics.collisions = self.metrics.collisions + 1;
            let sc = self.metrics.area_self_collisions[v as usize];
            self.metrics.area_self_collisions.set(v as usize, sc + 1);
            proof {
                assert(to_int_seq(self.metrics.area_self_collisions@)
                    =~= s0.area_self_collisions.update(
                    v as int,
                    s0.area_self_collisions[v as int] + 1,
                ));
                assert(self@.state == probe_step(s0, index as int, area));
            }
            Ok(v)
        } else {
            self.metrics.collisions = self.metrics.collisions + 1;
            proof {
                assert(self@.state == probe_step(s0, index as int, area));
            }
            Ok(v)
        }
    }

    /// Inserts a content under the given area label. Every probed cell rises
    /// to the larger of its old value and `area` (the monotone write rule),
    /// and the counters advance as one insertion. It never fails: probe
    /// indices are within the cell array by construction.
    pub fn insert(&mut self, content: &[u8], area: u16) -> (r: Result<(), Error>)
        requires
            old(self)@.wf(),
            1 <= area as int <= old(self)@.area_number,
            (old(self)@.state.members + 1) * old(self)@.hash_number <= usize::MAX,
        ensures
            r is Ok,
            final(self)@.wf(),
            final(self)@.state == insert_tx(old(self)@.state, old(self)@.indices(content@), area),
            final(self)@.salts == old(self)@.salts,
            final(self)@.hash_function == old(self)@.hash_function,
            final(self)@.cells == old(self)@.cells,
            final(self)@.hash_number == old(self)@.hash_number,
            final(self)@.area_number == old(self)@.area_number,
    {
        let idxs = self.calc_indexes(content);
        let ghost orig = old(self)@;
        let ghost is = orig.indices(content@);
        let k = idxs.len();
        let mut t: usize = 0;
        proof {
            assert(is.take(0) =~= Seq::<int>::empty());
        }
        while t < k
            invariant
                t <= k,
                k == idxs@.len(),
                orig.wf(),
                is == orig.indices(content@),
                1 <= area as int <= orig.area_number,
                (orig.state.members + 1) * orig.hash_number <= usize::MAX,
                k == orig.hash_number,
                forall|j: int| 0 <= j < k ==> (#[trigger] idxs@[j]) as int == is[j],
                forall|j: int| 0 <= j < k ==> (#[trigger] idxs@[j]) < orig.cells,
                self@.state == probes_fold(orig.state, is.take(t as int), area),
                self@.salts == orig.salts,
                self@.hash_function == orig.hash_function,
                self@.cells == orig.cells,
                self@.hash_number == orig.hash_number,
                self@.area_number == orig.area_number,
            decreases k - t,
        {
            proof {
                lemma_probes_fold(orig.state, is.take(t as int), area, orig.area_number);
                assert(self@.state.collisions + 1 <= usize::MAX) by (nonlinear_arith)
                    requires
                        self@.state.collisions <= orig.state.collisions + is.take(t as int).len(),
                        is.take(t as int).len() == t,
                        orig.state.collisions <= orig.state.members * orig.hash_number,
                        (orig.state.members + 1) * orig.hash_number <= usize::MAX,
                        t < orig.hash_number,
                ;
                lemma_sum_from_bounds_entry(orig.state.area_members, 1, area as int);
                assert(self@.state.area_self_collisions[area as int] + 1 <= usize::MAX)
                    by (nonlinear_arith)
                    requires
                        self@.state.area_self_collisions[area as int]
                            <= orig.state.area_self_collisions[area as int] + is.take(
                            t as int,
                        ).len(),
                        is.take(t as int).len() == t,
                        orig.state.area_self_collisions[area as int] <= orig.hash_number
                            * orig.state.area_members[area as int],
                        orig.state.area_members[area as int] <= orig.state.members,
                        orig.state.area_members[area as int] >= 0,
                        orig.hash_number >= 1,
                        (orig.state.members + 1) * orig.hash_number <= usize::MAX,
                        t < orig.hash_number,
                ;
            }
            let idx = idxs[t];
            let res = self.set_cell(idx, area);
            proof {
                assert(is.take(t as int + 1) =~= is.take(t as int).push(is[t as int]));
                lemma_probes_fold_snoc(orig.state, is.take(t as int), is[t as int], area);
            }
            t = t + 1;
        }
        proof {
            assert(is.take(k as int) =~= is);
            lemma_probes_fold(orig.state, is, area, orig.area_number);
            assert(self@.state.members + 1 <= usize::MAX) by (nonlinear_arith)
                requires
                    self@.state.members == orig.state.members,
                    (orig.state.members + 1) * orig.hash_number <= usize::MAX,
                    orig.hash_number >= 1,
            ;
            lemma_sum_from_bounds_entry(orig.state.area_members, 1, area as int);
            assert(self@.state.area_members[area as int] + 1 <= usize::MAX) by (nonlinear_arith)
                requires
                    self@.state.area_members[area as int] <= orig.state.members,
                    (orig.state.members + 1) * orig.hash_number <= usize::MAX,
                    orig.hash_number >= 1,
            ;
        }
        let ghost folded = probes_fold(orig.state, is, area);
        let m2 = self.metrics.members;
        self.metrics.members = m2 + 1;
        let am = self.metrics.area_members[area as usize];
        self.metrics.area_members.set(area as usize, am + 1);
        proof {
            assert(to_int_seq(self.metrics.area_members@) =~= folded.area_members.update(
                area as int,
                folded.area_members[area as int] + 1,
            ));
            assert(self@.state == insert_tx(orig.state, is, area));
            lemma_insert_tx(orig.state, is, area, orig.area_number, orig.hash_number);
            assert(self@.state.members * self@.hash_number <= usize::MAX) by (nonlinear_arith)
                requires
                    self@.state.members == orig.state.members + 1,
                    self@.hash_number == orig.hash_number,
                    (orig.state.members + 1) * orig.hash_number <= usize::MAX,
            ;
        }
        Ok(())
    }

    /// Returns the minimum cell value over the content's probes: `0` means
    /// "not present", any other value names the inferred area. It never
    /// fails: probe indices are within the cell array by construction.
    pub fn check(&self, content: &[u8]) -> (r: Result<u16, Error>)
        requires
            self@.wf(),
        ensures
            r matches Ok(v) && v as int == self@.check_value(content@),
    {
        let idxs = self.calc_indexes(content);
        let ghost is = self@.indices(content@);
        let k = idxs.len();
        let mut best: u16 = self.filter[idxs[0]];
        let mut t: usize = 1;
        proof {
            assert(is.take(1) =~= seq![is[0]]);
            assert(min_cells(self@.state.filter, seq![is[0]]) == self@.state.filter[is[0]] as int);
        }
        while t < k
            invariant
                1 <= t <= k,
                k == idxs@.len(),
                self@.wf(),
                is == self@.indices(content@),
                k == self@.hash_number,
                forall|j: int| 0 <= j < k ==> (#[trigger] idxs@[j]) as int == is[j],
                forall|j: int| 0 <= j < k ==> (#[trigger] idxs@[j]) < self@.cells,
                best as int == min_cells(self@.state.filter, is.take(t as int)),
            decreases k - t,
        {
            let c = self.filter[idxs[t]];
            proof {
                lemma_min_cells_push(self@.state.filter, is.take(t as int), is[t as int]);
                assert(is.take(t as int + 1) =~= is.take(t as int).push(is[t as int]));
            }
            if c < best {
                best = c;
            }
            t = t + 1;
        }
        proof {
            assert(is.take(k as int) =~= is);
        }
        Ok(best)
    }

    /// The total number of cells holding a label in `from..=area_number`:
    /// the suffix sum of the per-area cell counters. With `from == 1` this
    /// is the number of non-empty cells of the whole filter.
    pub fn area_cells_from(&self, from: usize) -> (r: usize)
        requires
            self@.wf(),
            1 <= from,
        ensures
            r as int == sum_from(self@.state.area_cells, from as int),
    {
        let s = &self.metrics.area_cells;
        let len = s.len();
        let mut acc: usize = 0;
        let mut b: usize = len;
        while b > from
            invariant
                from <= b <= len || b == len,
                len == s@.len(),
                s@ == self.metrics.area_cells@,
                self@.wf(),
                1 <= from,
                acc as int == sum_from(self@.state.area_cells, b as int),
            decreases b,
        {
            b = b - 1;
            proof {
                let cs = self@.state.area_cells;
                lemma_sum_from_monotone(cs, 1, b as int);
                lemma_sum_from_matches_counts(cs, self@.state.filter, self@.area_number, 1);
                lemma_count_partition(self@.state.filter, self@.area_number);
                lemma_count_nonzero_bounds(self@.state.filter);
            }
            acc = acc + s[b];
        }
        acc
    }

    /// The total number of insertions made with a label in
    /// `from..=area_number`: the suffix sum of the per-area member counters.
    /// With `from == 1` this is `members`.
    pub fn area_members_from(&self, from: usize) -> (r: usize)
        requires
            self@.wf(),
            1 <= from,
        ensures
            r as int == sum_from(self@.state.area_members, from as int),
    {
        let s = &self.metrics.area_members;
        let len = s.len();
        let mut acc: usize = 0;
        let mut b: usize = len;
        while b > from
            invariant
                from <= b <= len || b == len,
                len == s@.len(),
                s@ == self.metrics.area_members@,
                self@.wf(),
                1 <= from,
                acc as int == sum_from(self@.state.area_members, b as int),
            decreases b,
        {
            b = b - 1;
            proof {
                let ms = self@.state.area_members;
                lemma_sum_from_monotone(ms, 1, b as int);
            }
            acc = acc + s[b];
        }
        acc
    }

    /// The numerator and denominator of an area's empirical emersion: the
    /// cells the area holds, against its effective writing budget
    /// `hash_number * area_members[area] - area_self_collisions[area]`.
    /// Nothing is returned when the area holds no cells.
    pub fn area_emersion_counts(&self, area: usize) -> (r: Option<(usize, usize)>)
        requires
            self@.wf(),
            1 <= area as int <= self@.area_number,
        ensures
            (r is Some) == (self@.state.area_cells[area as int] != 0),
            r matches Some(p) ==> p.0 as int == self@.state.area_cells[area as int] && p.1 as int
                == self@.hash_number * self@.state.area_members[area as int]
                - self@.state.area_self_collisions[area as int],
    {
        let c = self.metrics.area_cells[area];
        if c == 0 {
            return None;
        }
        let k = self.metrics.hash_number;
        let am = self.metrics.area_members[area];
        let sc = self.metrics.area_self_collisions[area];
        proof {
            lemma_sum_from_bounds_entry(self@.state.area_members, 1, area as int);
            assert(self@.hash_number * self@.state.area_members[area as int] <= usize::MAX)
                by (nonlinear_arith)
                requires
                    self@.state.area_members[area as int] <= self@.state.members,
                    self@.state.area_members[area as int] >= 0,
                    self@.hash_number >= 1,
                    self@.state.members * self@.hash_number <= usize::MAX,
            ;
            assert(self@.state.area_self_collisions[area as int] <= self@.hash_number
                * self@.state.area_members[area as int]);
            assert(sc as int == self@.state.area_self_collisions[area as int]);
            assert(am as int == self@.state.area_members[area as int]);
        }
        let prod = k * am;
        Some((c, prod - sc))
    }
}

} // verus!
