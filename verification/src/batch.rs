//! Batch type-set builder and the columnar batch handle.

use vstd::prelude::*;

use crate::archetype::{Archetype, ArchetypeModel};
use crate::type_info::{lemma_canonical_unique, lemma_ti_lt_total, strictly_sorted, ti_less,
    TypeInfo};

verus! {

/// Position at which a descriptor belongs in a canonical sequence: the
/// first index whose element is not below `t`.
fn insert_pos(v: &Vec<TypeInfo>, t: &TypeInfo) -> (j: usize)
    requires
        strictly_sorted(v@),
    ensures
        j <= v@.len(),
        forall|k: int| 0 <= k < j ==> crate::type_info::ti_lt(v@[k], *t),
        j < v@.len() ==> !crate::type_info::ti_lt(v@[j as int], *t),
{
    let n = v.len();
    let mut j: usize = 0;
    while j < n
        invariant
            j <= n,
            n == v@.len(),
            forall|k: int| 0 <= k < j ==> crate::type_info::ti_lt(v@[k], *t),
        decreases n - j,
    {
        if !ti_less(&v[j], t) {
            return j;
        }
        j += 1;
    }
    j
}

/// Insert a descriptor into a canonical sequence, keeping it sorted and
/// free of duplicates: a descriptor already present is not added again.
fn insert_canonical(v: &mut Vec<TypeInfo>, t: TypeInfo)
    requires
        strictly_sorted(old(v)@),
    ensures
        strictly_sorted(final(v)@),
        final(v)@.to_set() == old(v)@.to_set().insert(t),
{
    broadcast use vstd::set::group_set_axioms;

    let j = insert_pos(v, &t);
    if j < v.len() && v[j] == t {
        proof {
            assert(old(v)@.contains(t));
            assert(old(v)@.to_set().contains(t));
            assert(v@.to_set() =~= old(v)@.to_set().insert(t));
        }
    } else {
        proof {
            if j < v@.len() {
                lemma_ti_lt_total(v@[j as int], t);
                assert(crate::type_info::ti_lt(t, v@[j as int]));
            }
        }
        v.insert(j, t);
        proof {
            let nv = v@;
            let ov = old(v)@;
            assert(nv == ov.insert(j as int, t));
            assert forall|a: int, b: int| 0 <= a < b < nv.len() implies crate::type_info::ti_lt(
                nv[a],
                nv[b],
            ) by {
                if a < j && b < j {
                    assert(nv[a] == ov[a] && nv[b] == ov[b]);
                } else if a < j && b == j {
                    assert(nv[a] == ov[a] && nv[b] == t);
                } else if a < j && b > j {
                    assert(nv[a] == ov[a] && nv[b] == ov[b - 1]);
                } else if a == j {
                    assert(nv[a] == t && nv[b] == ov[b - 1]);
                    if b - 1 > j {
                        crate::type_info::lemma_ti_lt_transitive(t, ov[j as int], ov[b - 1]);
                    }
                } else {
                    assert(nv[a] == ov[a - 1] && nv[b] == ov[b - 1]);
                }
            }
            assert forall|x: TypeInfo| nv.to_set().contains(x) implies ov.to_set().insert(
                t,
            ).contains(x) by {
                let k = choose|k: int| 0 <= k < nv.len() && nv[k] == x;
                if k < j {
                    assert(ov[k] == x);
                    assert(ov.contains(x));
                } else if k == j {
                } else {
                    assert(ov[k - 1] == x);
                    assert(ov.contains(x));
                }
            }
            assert forall|x: TypeInfo| ov.to_set().insert(t).contains(x) implies nv.to_set()
                .contains(x) by {
                if x == t {
                    assert(nv[j as int] == x);
                    assert(nv.contains(x));
                } else {
                    let k = choose|k: int| 0 <= k < ov.len() && ov[k] == x;
                    if k < j {
                        assert(nv[k] == x);
                    } else {
                        assert(nv[k + 1] == x);
                    }
                    assert(nv.contains(x));
                }
            }
            assert(nv.to_set() =~= ov.to_set().insert(t));
        }
    }
}

/// Canonicalize a registration list: sort the descriptors and drop
/// duplicate registrations, so that the result is the one strictly sorted
/// sequence holding exactly the registered set of types.
fn canonicalize(types: &Vec<TypeInfo>) -> (r: Vec<TypeInfo>)
    ensures
        strictly_sorted(r@),
        r@.to_set() == types@.to_set(),
{
    broadcast use vstd::set::group_set_axioms;

    let n = types.len();
    let mut out: Vec<TypeInfo> = Vec::new();
    let mut j: usize = 0;
    proof {
        assert(out@.to_set() =~= types@.subrange(0, 0).to_set());
    }
    while j < n
        invariant
            j <= n,
            n == types@.len(),
            strictly_sorted(out@),
            out@.to_set() == types@.subrange(0, j as int).to_set(),
        decreases n - j,
    {
        insert_canonical(&mut out, types[j]);
        proof {
            let pre = types@.subrange(0, j as int);
            let post = types@.subrange(0, j as int + 1);
            assert(post == pre.push(types@[j as int]));
            pre.lemma_push_to_set_commute(types@[j as int]);
            assert(post.to_set() =~= pre.to_set().insert(types@[j as int]));
        }
        j += 1;
    }
    proof {
        assert(types@.subrange(0, n as int) == types@);
    }
    out
}

/// A collection of component types requested for one batch.
///
/// Registrations accumulate in order and may repeat; converting the
/// collection into a batch canonicalizes them: the batch's archetype is
/// keyed by the sorted, duplicate-free sequence of the registered types.
#[derive(Clone, Debug)]
pub struct ColumnBatchType {
    types: Vec<TypeInfo>,
}

impl View for ColumnBatchType {
    type V = Seq<TypeInfo>;

    closed spec fn view(&self) -> Seq<TypeInfo> {
        self.types@
    }
}

impl Default for ColumnBatchType {
    /// An empty collection.
    fn default() -> (r: Self)
        ensures
            r@ == Seq::<TypeInfo>::empty(),
    {
        ColumnBatchType { types: Vec::new() }
    }
}

impl ColumnBatchType {
    /// Create an empty collection of component types.
    pub fn new() -> (r: Self)
        ensures
            r@ == Seq::<TypeInfo>::empty(),
    {
        ColumnBatchType { types: Vec::new() }
    }

    /// Update to include components described by `info`.
    pub fn add(&mut self, info: TypeInfo)
        ensures
            final(self)@ == old(self)@.push(info),
    {
        self.types.push(info);
    }

    /// Construct a [`ColumnBatch`] for entities with these components: a
    /// fresh archetype keyed by the canonical sequence of the registered
    /// types, with no committed slots and no capacity.
    pub fn into_batch(self) -> (r: ColumnBatch)
        ensures
            r@.wf(),
            r@.types.to_set() == self@.to_set(),
            r@.len == 0,
            r@.cap == 0,
    {
        let canonical = canonicalize(&self.types);
        ColumnBatch { archetype: Archetype::new(canonical) }
    }
}

/// Data describing a collection of entities which have the same set of
/// components.
///
/// The "column" name reflects the column-major layout exposed through
/// [`ColumnBatch::storage_for`]: each component type's values live in one
/// contiguous column of the underlying archetype.
pub struct ColumnBatch {
    pub(crate) archetype: Archetype,
}

impl View for ColumnBatch {
    type V = ArchetypeModel;

    closed spec fn view(&self) -> ArchetypeModel {
        self.archetype@
    }
}

impl ColumnBatch {
    /// Create a batch with certain component types.
    pub fn new(ty: ColumnBatchType) -> (r: Self)
        ensures
            r@.wf(),
            r@.types.to_set() == ty@.to_set(),
            r@.len == 0,
            r@.cap == 0,
    {
        ty.into_batch()
    }

    /// Allocate storage for `n` additional entities: every column grows in
    /// lock-step to at least `len + n` slots, existing contents are kept,
    /// and the committed length does not move.
    pub fn reserve(&mut self, n: u32)
        requires
            old(self)@.wf(),
            old(self)@.len + n <= u32::MAX,
        ensures
            final(self)@.wf(),
            final(self)@.types == old(self)@.types,
            final(self)@.len == old(self)@.len,
            final(self)@.cap >= old(self)@.len + n,
            final(self)@.cap >= old(self)@.cap,
            final(self)@.columns.len() == old(self)@.columns.len(),
            forall|c: int, i: int|
                0 <= c < old(self)@.columns.len() && 0 <= i < old(self)@.cap ==> final(self)@.columns[c][i]
                    == old(self)@.columns[c][i],
    {
        self.archetype.reserve(n);
    }

    /// Storage for components described by `info`: the position of their
    /// column, or `None` if `info` was not in the [`ColumnBatchType`]. The
    /// column behind a returned position always holds exactly `capacity`
    /// slots.
    pub fn storage_for(&self, info: &TypeInfo) -> (r: Option<usize>)
        requires
            self@.wf(),
        ensures
            (r is Some) <==> self@.types.contains(*info),
            r is Some ==> r.unwrap() < self@.types.len() && self@.types[r.unwrap() as int]
                == *info,
            r is Some ==> self@.columns[r.unwrap() as int].len() == self@.cap,
    {
        self.archetype.index_of(info)
    }

    /// Write one component value into slot `i` of the column at `col`.
    pub fn write(&mut self, col: usize, i: usize, value: u64)
        requires
            old(self)@.wf(),
            col < old(self)@.columns.len(),
            i < old(self)@.cap,
        ensures
            final(self)@.wf(),
            final(self)@.types == old(self)@.types,
            final(self)@.len == old(self)@.len,
            final(self)@.cap == old(self)@.cap,
            final(self)@.columns.len() == old(self)@.columns.len(),
            final(self)@.columns[col as int][i as int] == Some(value),
            forall|c2: int, i2: int|
                0 <= c2 < old(self)@.columns.len() && 0 <= i2 < old(self)@.cap && !(c2 == col
                    && i2 == i) ==> (#[trigger] final(self)@.columns[c2][i2]) == old(self)@.columns[c2][i2],
    {
        self.archetype.write(col, i, value);
    }

    /// Write a run of component values into the first slots of one column:
    /// slot `j` receives `values[j]`.
    pub fn write_column(&mut self, col: usize, values: &Vec<u64>)
        requires
            old(self)@.wf(),
            col < old(self)@.columns.len(),
            values@.len() <= old(self)@.cap,
        ensures
            final(self)@.wf(),
            final(self)@.types == old(self)@.types,
            final(self)@.len == old(self)@.len,
            final(self)@.cap == old(self)@.cap,
            final(self)@.columns.len() == old(self)@.columns.len(),
            forall|i: int|
                0 <= i < values@.len() ==> (#[trigger] final(self)@.columns[col as int][i]) == Some(
                    values@[i],
                ),
            forall|i: int|
                values@.len() <= i < old(self)@.cap ==> (#[trigger] final(self)@.columns[col as int][i])
                    == old(self)@.columns[col as int][i],
            forall|c2: int, i2: int|
                0 <= c2 < old(self)@.columns.len() && 0 <= i2 < old(self)@.cap && c2 != col ==> (
                #[trigger] final(self)@.columns[c2][i2]) == old(self)@.columns[c2][i2],
    {
        self.archetype.write_column(col, values);
    }

    /// Indicate that the first `n` entities have been fully written.
    ///
    /// For every type in this batch's [`ColumnBatchType`], the first `n`
    /// slots of its column must have been written; under that precondition
    /// the commit only advances the logical length — no column changes.
    pub fn set_len(&mut self, n: u32)
        requires
            old(self)@.wf(),
            old(self)@.len <= n <= old(self)@.cap,
            forall|c: int, i: int|
                0 <= c < old(self)@.columns.len() && 0 <= i < n ==> (#[trigger] old(self)@.columns[c][i])
                    is Some,
        ensures
            final(self)@.wf(),
            final(self)@ == (ArchetypeModel { len: n as nat, ..old(self)@ }),
    {
        self.archetype.set_len(n);
    }

    /// Read the committed component value in slot `i` of the column at
    /// `col`.
    pub fn read(&self, col: usize, i: usize) -> (r: u64)
        requires
            self@.wf(),
            col < self@.columns.len(),
            i < self@.len,
        ensures
            self@.columns[col as int][i as int] == Some(r),
    {
        self.archetype.read(col, i)
    }

    /// Number of committed slots of the underlying archetype.
    pub fn len(&self) -> (r: u32)
        ensures
            r == self@.len,
    {
        self.archetype.len()
    }

    /// Number of allocated slots per column of the underlying archetype.
    pub fn capacity(&self) -> (r: u32)
        ensures
            r == self@.cap,
    {
        self.archetype.capacity()
    }

    /// Number of slots the given column currently holds.
    pub fn column_len(&self, col: usize) -> (r: usize)
        requires
            col < self@.columns.len(),
        ensures
            r == self@.columns[col as int].len(),
    {
        self.archetype.column_len(col)
    }

    /// The canonical type sequence of the underlying archetype.
    pub fn types(&self) -> (r: &Vec<TypeInfo>)
        ensures
            r@ == self@.types,
    {
        self.archetype.types()
    }

    /// Hand the committed batch off to the storage layer: yield the
    /// underlying archetype.
    pub fn into_archetype(self) -> (r: Archetype)
        ensures
            r@ == self@,
    {
        self.archetype
    }
}

/// Finalizing is order-independent: two batches built from registration
/// lists holding the same set of types carry the same canonical type
/// sequence, whatever the registration orders were.
pub proof fn lemma_finalize_order_independent(
    regs1: Seq<TypeInfo>,
    regs2: Seq<TypeInfo>,
    m1: ArchetypeModel,
    m2: ArchetypeModel,
)
    requires
        regs1.to_set() == regs2.to_set(),
        m1.wf(),
        m1.types.to_set() == regs1.to_set(),
        m2.wf(),
        m2.types.to_set() == regs2.to_set(),
    ensures
        m1.types == m2.types,
{
    lemma_canonical_unique(m1.types, m2.types);
}

/// Storage is absent exactly for the unregistered types: a batch built
/// from a registration list has a column for a type if and only if the
/// list contains that type.
pub proof fn lemma_absent_iff_unregistered(regs: Seq<TypeInfo>, m: ArchetypeModel, t: TypeInfo)
    requires
        m.types.to_set() == regs.to_set(),
    ensures
        m.types.contains(t) <==> regs.contains(t),
{
    broadcast use vstd::set::group_set_axioms;

    assert(m.types.contains(t) ==> m.types.to_set().contains(t));
    assert(regs.contains(t) ==> regs.to_set().contains(t));
}

/// All write views share one length: on a well-formed batch — in
/// particular right after a reserve — every column holds exactly
/// `capacity` slots.
pub proof fn lemma_views_share_capacity(m: ArchetypeModel, c: int)
    requires
        m.wf(),
        0 <= c < m.columns.len(),
    ensures
        m.columns[c].len() == m.cap,
{
}

/// Committing after a full write reads back exactly what was written: if
/// every column's first `n` slots hold the values of `vals` and the batch
/// commits `n`, the committed batch reports length `n` and slot `i` of
/// every column holds the value written there.
pub proof fn lemma_commit_reads_back(
    pre: ArchetypeModel,
    post: ArchetypeModel,
    vals: Seq<Seq<u64>>,
    n: nat,
)
    requires
        pre.wf(),
        pre.len <= n <= pre.cap,
        vals.len() == pre.columns.len(),
        forall|c: int, i: int|
            0 <= c < pre.columns.len() && 0 <= i < n ==> pre.columns[c][i] == Some(vals[c][i]),
        post == (ArchetypeModel { len: n, ..pre }),
    ensures
        post.wf(),
        post.len == n,
        forall|c: int, i: int|
            0 <= c < post.columns.len() && 0 <= i < post.len ==> post.columns[c][i] == Some(
                vals[c][i],
            ),
{
}

} // verus!
