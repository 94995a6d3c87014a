//! A combinatorial table of all subsets of a fixed list of elements, keyed
//! by position: index `0` holds the whole list, subset sizes descend from
//! there, and the last index holds the empty subset. Within one size,
//! subsets come in lexicographic order of their element positions.

use vstd::prelude::*;
use itertools::Itertools;

verus! {

/// All `k`-element combinations of `s`, in lexicographic order of element
/// positions: first every combination containing `s[0]`, then those of the
/// rest.
pub open spec fn combos(s: Seq<u64>, k: nat) -> Seq<Seq<u64>>
    decreases s.len(),
{
    if k == 0 {
        seq![Seq::<u64>::empty()]
    } else if s.len() < k {
        Seq::<Seq<u64>>::empty()
    } else {
        combos(s.drop_first(), (k - 1) as nat).map_values(|c: Seq<u64>| seq![s[0]] + c) + combos(
            s.drop_first(),
            k,
        )
    }
}

/// The combination table read top down: the combinations of size `from`,
/// then of every smaller size down to zero.
pub open spec fn hierarchy_table(s: Seq<u64>, from: int) -> Seq<Seq<u64>>
    decreases from + 1 when from >= -1
{
    if from < 0 {
        Seq::<Seq<u64>>::empty()
    } else {
        combos(s, from as nat) + hierarchy_table(s, from - 1)
    }
}

/// The view of a table of element vectors as a sequence of sequences.
pub open spec fn table_view(t: Seq<Vec<u64>>) -> Seq<Seq<u64>> {
    Seq::new(t.len(), |i: int| t[i]@)
}

/// Relies on `itertools::Itertools::combinations`: all `k`-element
/// combinations of the iterated elements, each a vector, emitted in
/// lexicographic order of element positions.
#[verifier::external_body]
fn combinations_of(v: &Vec<u64>, k: usize) -> (r: Vec<Vec<u64>>)
    ensures
        table_view(r@) == combos(v@, k as nat),
{
    v.iter().cloned().combinations(k).collect()
}

/// Copies a vector of elements.
fn copy_vec(v: &Vec<u64>) -> (r: Vec<u64>)
    ensures
        r@ == v@,
{
    let mut out: Vec<u64> = Vec::new();
    let mut i: usize = 0;
    while i < v.len()
        invariant
            i <= v@.len(),
            out@ =~= v@.take(i as int),
        decreases v@.len() - i,
    {
        out.push(v[i]);
        i = i + 1;
    }
    assert(out@ =~= v@);
    out
}

/// Compares two element vectors for equality.
fn vecs_equal(a: &Vec<u64>, b: &Vec<u64>) -> (r: bool)
    ensures
        r == (a@ == b@),
{
    if a.len() != b.len() {
        assert(a@.len() != b@.len());
        return false;
    }
    let mut i: usize = 0;
    while i < a.len()
        invariant
            i <= a@.len(),
            a@.len() == b@.len(),
            forall|j: int| 0 <= j < i ==> a@[j] == b@[j],
        decreases a@.len() - i,
    {
        if a[i] != b[i] {
            return false;
        }
        i = i + 1;
    }
    proof {
        assert(a@ =~= b@);
    }
    true
}

/// The table of all subsets of a fixed element list, keyed by position.
#[derive(Clone, Debug, PartialEq, Eq)]
pub struct HierarchyTree {
    table: Vec<Vec<u64>>,
}

impl View for HierarchyTree {
    type V = Seq<Seq<u64>>;

    closed spec fn view(&self) -> Seq<Seq<u64>> {
        table_view(self.table@)
    }
}

impl HierarchyTree {
    /// Builds the table over the given elements: all combinations of every
    /// size, the whole list first, sizes descending, the empty subset last.
    pub fn new(elements: Vec<u64>) -> (r: HierarchyTree)
        ensures
            r@ == hierarchy_table(elements@, elements@.len() as int),
    {
        let n = elements.len();
        let mut table: Vec<Vec<u64>> = Vec::new();
        let mut k: usize = n;
        while k > 0
            invariant
                k <= n,
                n == elements@.len(),
                table_view(table@) + hierarchy_table(elements@, k as int) == hierarchy_table(
                    elements@,
                    n as int,
                ),
            decreases k,
        {
            let ghost before = table_view(table@);
            let mut part = combinations_of(&elements, k);
            let ghost part_view = table_view(part@);
            table.append(&mut part);
            proof {
                assert(table_view(table@) =~= before + part_view);
                assert(before + part_view + hierarchy_table(elements@, k - 1) =~= before
                    + hierarchy_table(elements@, k as int));
            }
            k = k - 1;
        }
        let ghost before = table_view(table@);
        let mut last = combinations_of(&elements, 0);
        let ghost last_view = table_view(last@);
        table.append(&mut last);
        proof {
            assert(hierarchy_table(elements@, -1) =~= Seq::<Seq<u64>>::empty());
            assert(hierarchy_table(elements@, 0) =~= combos(elements@, 0));
            assert(table_view(table@) =~= before + last_view);
            assert(before + last_view =~= before + hierarchy_table(elements@, 0));
        }
        HierarchyTree { table }
    }

    /// The number of entries in the table.
    pub fn size(&self) -> (r: usize)
        ensures
            r == self@.len(),
    {
        self.table.len()
    }

    /// Returns the subset at a position, or nothing when the position lies
    /// outside the table.
    pub fn idx_to_vec(&self, n: usize) -> (r: Option<Vec<u64>>)
        ensures
            n < self@.len() ==> (r matches Some(v) && v@ == self@[n as int]),
            n >= self@.len() ==> r is None,
    {
        if n < self.table.len() {
            Some(copy_vec(&self.table[n]))
        } else {
            None
        }
    }

    /// Returns the first position holding the given subset, or nothing when
    /// no position holds it.
    pub fn vec_to_idx(&self, v: &Vec<u64>) -> (r: Option<usize>)
        ensures
            r matches Some(i) ==> i < self@.len() && self@[i as int] == v@ && (forall|j: int|
                0 <= j < i ==> self@[j] != v@),
            r is None ==> forall|j: int| 0 <= j < self@.len() ==> self@[j] != v@,
    {
        let mut i: usize = 0;
        while i < self.table.len()
            invariant
                i <= self@.len(),
                self@.len() == self.table@.len(),
                forall|j: int| 0 <= j < i ==> self@[j] != v@,
            decreases self@.len() - i,
        {
            if vecs_equal(&self.table[i], v) {
                return Some(i);
            }
            i = i + 1;
        }
        None
    }

    /// An iterator standing at the top of the table: the whole element list.
    pub fn top_iter(&self) -> (r: Iter<'_>)
        ensures
            r@.table == self@,
            r@.position == 0,
    {
        Iter { tree: self, position: 0 }
    }

    /// An iterator standing past the bottom of the table; its current subset
    /// is empty.
    pub fn bottom_iter(&self) -> (r: Iter<'_>)
        ensures
            r@.table == self@,
            r@.position == usize::MAX,
    {
        Iter { tree: self, position: usize::MAX }
    }
}

/// The mathematical reading of an [`Iter`]: the table it walks and its
/// current position.
pub ghost struct IterView {
    /// The table entries.
    pub table: Seq<Seq<u64>>,
    /// The current position.
    pub position: int,
}

/// A position in a [`HierarchyTree`].
pub struct Iter<'a> {
    tree: &'a HierarchyTree,
    position: usize,
}

impl<'a> View for Iter<'a> {
    type V = IterView;

    closed spec fn view(&self) -> IterView {
        IterView { table: self.tree@, position: self.position as int }
    }
}

impl<'a> Iter<'a> {
    /// The subset at the current position; empty when the position lies
    /// outside the table.
    pub fn current_vec(&self) -> (r: Vec<u64>)
        ensures
            r@ == (if 0 <= self@.position < self@.table.len() {
                self@.table[self@.position]
            } else {
                Seq::<u64>::empty()
            }),
    {
        match self.tree.idx_to_vec(self.position) {
            Some(v) => v,
            None => Vec::new(),
        }
    }

    /// The current position.
    pub fn current_idx(&self) -> (r: usize)
        ensures
            r == self@.position,
    {
        self.position
    }

    /// The children of the current subset: every subset one element
    /// smaller, in lexicographic order of element positions. The current
    /// subset must not be empty.
    pub fn children(&self) -> (r: Vec<Vec<u64>>)
        requires
            0 <= self@.position < self@.table.len(),
            self@.table[self@.position].len() >= 1,
        ensures
            table_view(r@) == combos(
                self@.table[self@.position],
                (self@.table[self@.position].len() - 1) as nat,
            ),
    {
        let cur = self.current_vec();
        let n = cur.len();
        combinations_of(&cur, n - 1)
    }
}

} // verus!
