//! Column-major archetype storage.
//!
//! An archetype owns one column per component type of its canonical type
//! sequence. Every column holds `cap` slots; the first `len` slots of every
//! column are committed (initialized), the rest are free to be written
//! before the next commit. A slot is modeled as `Option<u64>`: `None` marks
//! a slot that has not been written since it was allocated.

use vstd::prelude::*;

use crate::type_info::{strictly_sorted, TypeInfo};

verus! {

/// Mathematical model of an archetype: the canonical type sequence, one
/// column of slots per type, the committed length, and the slot capacity.
pub ghost struct ArchetypeModel {
    /// Canonical (strictly sorted) sequence of component types.
    pub types: Seq<TypeInfo>,
    /// One column per type, each holding `cap` slots.
    pub columns: Seq<Seq<Option<u64>>>,
    /// Number of committed slots, at most `cap`.
    pub len: nat,
    /// Number of allocated slots per column.
    pub cap: nat,
}

impl ArchetypeModel {
    /// Well-formedness: the sequence is canonical, there is exactly one
    /// column per type, every column holds exactly `cap` slots, and every
    /// committed slot holds a value.
    pub open spec fn wf(self) -> bool {
        &&& strictly_sorted(self.types)
        &&& self.columns.len() == self.types.len()
        &&& self.len <= self.cap
        &&& forall|c: int|
            0 <= c < self.columns.len() ==> (#[trigger] self.columns[c]).len() == self.cap
        &&& forall|c: int, i: int|
            0 <= c < self.columns.len() && 0 <= i < self.len ==> (#[trigger] self.columns[c][i])
                is Some
    }
}

/// Columnar storage for all entities that share one canonical set of
/// component types.
pub struct Archetype {
    types: Vec<TypeInfo>,
    columns: Vec<Vec<Option<u64>>>,
    len: u32,
    cap: u32,
}

impl View for Archetype {
    type V = ArchetypeModel;

    closed spec fn view(&self) -> ArchetypeModel {
        ArchetypeModel {
            types: self.types@,
            columns: self.columns@.map_values(|col: Vec<Option<u64>>| col@),
            len: self.len as nat,
            cap: self.cap as nat,
        }
    }
}

/// Append `None` slots to one column until it holds `target` slots.
fn grow_column(col: &mut Vec<Option<u64>>, target: usize)
    requires
        old(col)@.len() <= target,
    ensures
        final(col)@.len() == target,
        forall|i: int| 0 <= i < old(col)@.len() ==> final(col)@[i] == old(col)@[i],
        forall|i: int| old(col)@.len() <= i < target ==> final(col)@[i] is None,
{
    while col.len() < target
        invariant
            old(col)@.len() <= col@.len() <= target,
            forall|i: int| 0 <= i < old(col)@.len() ==> col@[i] == old(col)@[i],
            forall|i: int| old(col)@.len() <= i < col@.len() ==> col@[i] is None,
        decreases target - col@.len(),
    {
        col.push(None);
    }
}

impl Archetype {
    /// Create an empty archetype for the given canonical type sequence:
    /// one empty column per type, no committed slots, no capacity.
    pub fn new(types: Vec<TypeInfo>) -> (r: Self)
        requires
            strictly_sorted(types@),
        ensures
            r@.wf(),
            r@.types == types@,
            r@.len == 0,
            r@.cap == 0,
            forall|c: int| 0 <= c < r@.columns.len() ==> (#[trigger] r@.columns[c]).len() == 0,
    {
        let n = types.len();
        let mut columns: Vec<Vec<Option<u64>>> = Vec::new();
        while columns.len() < n
            invariant
                columns@.len() <= n,
                forall|c: int| 0 <= c < columns@.len() ==> (#[trigger] columns@[c])@.len() == 0,
            decreases n - columns@.len(),
        {
            columns.push(Vec::new());
        }
        Archetype { types, columns, len: 0, cap: 0 }
    }

    /// The canonical type sequence this archetype was built from.
    pub fn types(&self) -> (r: &Vec<TypeInfo>)
        ensures
            r@ == self@.types,
    {
        &self.types
    }

    /// Number of committed slots.
    pub fn len(&self) -> (r: u32)
        ensures
            r == self@.len,
    {
        self.len
    }

    /// Number of allocated slots per column.
    pub fn capacity(&self) -> (r: u32)
        ensures
            r == self@.cap,
    {
        self.cap
    }

    /// Number of slots the given column currently holds; always equal to
    /// the capacity on a well-formed archetype.
    pub fn column_len(&self, col: usize) -> (r: usize)
        requires
            col < self@.columns.len(),
        ensures
            r == self@.columns[col as int].len(),
    {
        self.columns[col].len()
    }

    /// Position of a component type in the canonical sequence, or `None`
    /// if the archetype has no column for it.
    pub fn index_of(&self, info: &TypeInfo) -> (r: Option<usize>)
        ensures
            (r is Some) <==> self@.types.contains(*info),
            r is Some ==> r.unwrap() < self@.types.len() && self@.types[r.unwrap() as int]
                == *info,
    {
        let n = self.types.len();
        let mut j: usize = 0;
        while j < n
            invariant
                j <= n,
                n == self@.types.len(),
                forall|k: int| 0 <= k < j ==> self@.types[k] != *info,
            decreases n - j,
        {
            if self.types[j] == *info {
                return Some(j);
            }
            j += 1;
        }
        None
    }

    /// Grow every column in lock-step so that at least `n` more slots than
    /// the committed length are allocated. Existing slot contents are kept;
    /// newly allocated slots are unwritten.
    pub fn reserve(&mut self, n: u32)
        requires
            old(self)@.wf(),
            old(self)@.len + n <= u32::MAX,
        ensures
            final(self)@.wf(),
            final(self)@.types == old(self)@.types,
            final(self)@.len == old(self)@.len,
            final(self)@.cap >= old(self)@.len + n,
            final(self)@.cap >= old(self)@.cap,
            final(self)@.columns.len() == old(self)@.columns.len(),
            forall|c: int, i: int|
                0 <= c < old(self)@.columns.len() && 0 <= i < old(self)@.cap ==> final(self)@.columns[c][i] == old(self)@.columns[c][i],
            forall|c: int, i: int|
                0 <= c < old(self)@.columns.len() && old(self)@.cap <= i < final(self)@.cap
                    ==> (#[trigger] final(self)@.columns[c][i]) is None,
    {
        let target = self.len + n;
        if self.cap < target {
            let t = target as usize;
            let ncols = self.columns.len();
            let mut c: usize = 0;
            while c < ncols
                invariant
                    c <= ncols,
                    ncols == self.columns@.len(),
                    self.columns@.len() == old(self).columns@.len(),
                    self.types == old(self).types,
                    self.len == old(self).len,
                    self.cap == old(self).cap,
                    old(self)@.wf(),
                    t == old(self).len + n,
                    old(self).cap < t,
                    forall|d: int| c <= d < ncols ==> self.columns@[d] == old(self).columns@[d],
                    forall|d: int| 0 <= d < c ==> (#[trigger] self.columns@[d])@.len() == t,
                    forall|d: int, i: int|
                        0 <= d < c && 0 <= i < old(self).cap ==> (#[trigger] self.columns@[d]@[i])
                            == old(self).columns@[d]@[i],
                    forall|d: int, i: int|
                        0 <= d < c && old(self).cap <= i < t ==> (#[trigger] self.columns@[d]@[i])
                            is None,
                decreases ncols - c,
            {
                proof {
                    assert(old(self)@.columns[c as int] == old(self).columns@[c as int]@);
                    assert(self.columns@[c as int]@.len() == old(self).cap);
                }
                grow_column(&mut self.columns[c], t);
                c += 1;
            }
            self.cap = target;
            proof {
                assert forall|c2: int| 0 <= c2 < self.columns@.len() implies #[trigger] self@.columns[c2]
                    == self.columns@[c2]@ by {}
                assert forall|c2: int| 0 <= c2 < self.columns@.len() implies #[trigger] old(self)@.columns[c2]
                    == old(self).columns@[c2]@ by {}
                assert forall|c2: int| 0 <= c2 < self@.columns.len() implies (
                #[trigger] self@.columns[c2]).len() == self@.cap by {}
                assert forall|c2: int, i2: int|
                    0 <= c2 < self@.columns.len() && 0 <= i2 < self@.len implies (
                #[trigger] self@.columns[c2][i2]) is Some by {
                    assert(self.columns@[c2]@[i2] == old(self).columns@[c2]@[i2]);
                    assert(old(self)@.columns[c2][i2] is Some);
                }
                assert(self@.wf());
            }
        }
    }

    /// Write a value into one slot of one column. Only that slot changes.
    pub fn write(&mut self, col: usize, i: usize, value: u64)
        requires
            old(self)@.wf(),
            col < old(self)@.columns.len(),
            i < old(self)@.cap,
        ensures
            final(self)@.wf(),
            final(self)@.types == old(self)@.types,
            final(self)@.len == old(self)@.len,
            final(self)@.cap == old(self)@.cap,
            final(self)@.columns.len() == old(self)@.columns.len(),
            final(self)@.columns[col as int][i as int] == Some(value),
            forall|c2: int, i2: int|
                0 <= c2 < old(self)@.columns.len() && 0 <= i2 < old(self)@.cap && !(c2 == col
                    && i2 == i) ==> (#[trigger] final(self)@.columns[c2][i2]) == old(self)@.columns[c2][i2],
    {
        proof {
            assert(old(self)@.columns.len() == self.columns@.len());
            assert(old(self)@.columns[col as int] == self.columns@[col as int]@);
        }
        let column = &mut self.columns[col];
        column[i] = Some(value);
        proof {
            assert forall|c2: int| 0 <= c2 < self.columns@.len() implies #[trigger] self@.columns[c2]
                == self.columns@[c2]@ by {}
            assert forall|c2: int| 0 <= c2 < self.columns@.len() implies #[trigger] old(self)@.columns[c2]
                == old(self).columns@[c2]@ by {}
            assert(self@.columns[col as int] == old(self)@.columns[col as int].update(
                i as int,
                Some(value),
            ));
            assert forall|c2: int| 0 <= c2 < self@.columns.len() implies (
            #[trigger] self@.columns[c2]).len() == self@.cap by {
                if c2 != col {
                    assert(self@.columns[c2] == old(self)@.columns[c2]);
                }
            }
            assert forall|c2: int, i2: int|
                0 <= c2 < self@.columns.len() && 0 <= i2 < self@.len implies (
            #[trigger] self@.columns[c2][i2]) is Some by {
                if !(c2 == col && i2 == i as int) {
                    assert(self@.columns[c2][i2] == old(self)@.columns[c2][i2]);
                    assert(old(self)@.columns[c2][i2] is Some);
                }
            }
            assert(self@.wf());
        }
    }

    /// Write a run of values into the first slots of one column: slot `j`
    /// receives `values[j]`. Slots past the run and other columns are kept.
    pub fn write_column(&mut self, col: usize, values: &Vec<u64>)
        requires
            old(self)@.wf(),
            col < old(self)@.columns.len(),
            values@.len() <= old(self)@.cap,
        ensures
            final(self)@.wf(),
            final(self)@.types == old(self)@.types,
            final(self)@.len == old(self)@.len,
            final(self)@.cap == old(self)@.cap,
            final(self)@.columns.len() == old(self)@.columns.len(),
            forall|i: int|
                0 <= i < values@.len() ==> (#[trigger] final(self)@.columns[col as int][i])
                    == Some(values@[i]),
            forall|i: int|
                values@.len() <= i < old(self)@.cap ==> (#[trigger] final(self)@.columns[col as int][i]) == old(self)@.columns[col as int][i],
            forall|c2: int, i2: int|
                0 <= c2 < old(self)@.columns.len() && 0 <= i2 < old(self)@.cap && c2 != col
                    ==> (#[trigger] final(self)@.columns[c2][i2]) == old(self)@.columns[c2][i2],
    {
        let m = values.len();
        let mut j: usize = 0;
        while j < m
            invariant
                j <= m,
                m == values@.len(),
                self@.wf(),
                col < self@.columns.len(),
                m <= self@.cap,
                self@.types == old(self)@.types,
                self@.len == old(self)@.len,
                self@.cap == old(self)@.cap,
                self@.columns.len() == old(self)@.columns.len(),
                forall|i: int|
                    0 <= i < j ==> (#[trigger] self@.columns[col as int][i]) == Some(values@[i]),
                forall|i: int|
                    j <= i < old(self)@.cap ==> (#[trigger] self@.columns[col as int][i]) == old(self)@.columns[col as int][i],
                forall|c2: int, i2: int|
                    0 <= c2 < old(self)@.columns.len() && 0 <= i2 < old(self)@.cap && c2 != col
                        ==> (#[trigger] self@.columns[c2][i2]) == old(self)@.columns[c2][i2],
            decreases m - j,
        {
            self.write(col, j, values[j]);
            j += 1;
        }
    }

    /// Commit: declare the first `n` slots of every column initialized and
    /// advance the logical length to `n`. The columns themselves are kept
    /// unchanged. The caller must have written every slot below `n` of
    /// every column since it was allocated; the committed length never
    /// moves backward.
    pub fn set_len(&mut self, n: u32)
        requires
            old(self)@.wf(),
            old(self)@.len <= n <= old(self)@.cap,
            forall|c: int, i: int|
                0 <= c < old(self)@.columns.len() && 0 <= i < n ==> (#[trigger] old(self)@.columns[c][i]) is Some,
        ensures
            final(self)@.wf(),
            final(self)@ == (ArchetypeModel { len: n as nat, ..old(self)@ }),
    {
        self.len = n;
    }

    /// Read one committed slot.
    pub fn read(&self, col: usize, i: usize) -> (r: u64)
        requires
            self@.wf(),
            col < self@.columns.len(),
            i < self@.len,
        ensures
            self@.columns[col as int][i as int] == Some(r),
    {
        proof {
            assert(self@.columns.len() == self.columns@.len());
            assert(self@.columns[col as int] == self.columns@[col as int]@);
        }
        let column = &self.columns[col];
        let slot = column[i];
        slot.unwrap()
    }
}

} // verus!
