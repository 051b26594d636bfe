//! A registry of archetypes keyed by their canonical type sequence.
//!
//! The storage layer keeps one archetype per canonical type sequence;
//! looking a sequence up either finds the existing archetype or creates a
//! fresh one, so two lookups with the same sequence always answer with the
//! same archetype.

use vstd::prelude::*;

use crate::archetype::{Archetype, ArchetypeModel};
use crate::type_info::{strictly_sorted, TypeInfo};

verus! {

/// Exact copy of a descriptor sequence.
fn copy_types(v: &Vec<TypeInfo>) -> (r: Vec<TypeInfo>)
    ensures
        r@ == v@,
{
    let n = v.len();
    let mut r: Vec<TypeInfo> = Vec::new();
    let mut j: usize = 0;
    while j < n
        invariant
            j <= n,
            n == v@.len(),
            r@ == v@.subrange(0, j as int),
        decreases n - j,
    {
        r.push(v[j]);
        proof {
            assert(r@ =~= v@.subrange(0, j as int + 1));
        }
        j += 1;
    }
    proof {
        assert(v@.subrange(0, n as int) == v@);
    }
    r
}

/// Element-wise equality of two descriptor sequences.
fn types_eq(a: &Vec<TypeInfo>, b: &Vec<TypeInfo>) -> (r: bool)
    ensures
        r == (a@ == b@),
{
    let n = a.len();
    if n != b.len() {
        proof {
            assert(a@ != b@);
        }
        return false;
    }
    let mut j: usize = 0;
    while j < n
        invariant
            j <= n,
            n == a@.len() == b@.len(),
            forall|k: int| 0 <= k < j ==> a@[k] == b@[k],
        decreases n - j,
    {
        if a[j] != b[j] {
            return false;
        }
        j += 1;
    }
    proof {
        assert(a@ =~= b@);
    }
    true
}

/// The archetypes the storage layer owns, keyed by canonical type sequence.
pub struct ArchetypeStore {
    archetypes: Vec<Archetype>,
}

impl View for ArchetypeStore {
    type V = Seq<ArchetypeModel>;

    closed spec fn view(&self) -> Seq<ArchetypeModel> {
        self.archetypes@.map_values(|a: Archetype| a@)
    }
}

/// Well-formedness of the registry: every archetype is well-formed and no
/// two archetypes share a canonical type sequence.
pub open spec fn store_wf(s: Seq<ArchetypeModel>) -> bool {
    &&& forall|a: int| 0 <= a < s.len() ==> (#[trigger] s[a]).wf()
    &&& forall|a: int, b: int|
        0 <= a < s.len() && 0 <= b < s.len() && a != b ==> (#[trigger] s[a].types) != (
        #[trigger] s[b].types)
}

impl ArchetypeStore {
    /// An empty registry.
    pub fn new() -> (r: Self)
        ensures
            r@ == Seq::<ArchetypeModel>::empty(),
            store_wf(r@),
    {
        let r = ArchetypeStore { archetypes: Vec::new() };
        proof {
            assert(r@ =~= Seq::<ArchetypeModel>::empty());
        }
        r
    }

    /// Number of archetypes the registry holds.
    pub fn count(&self) -> (r: usize)
        ensures
            r == self@.len(),
    {
        self.archetypes.len()
    }

    /// The archetype at a position.
    pub fn get(&self, idx: usize) -> (r: &Archetype)
        requires
            idx < self@.len(),
        ensures
            r@ == self@[idx as int],
    {
        &self.archetypes[idx]
    }

    /// Find or create the archetype whose canonical type sequence equals
    /// `types`: deterministic given the sequence. When a matching archetype
    /// already exists, the registry is left unchanged and its position is
    /// answered; otherwise exactly one fresh, empty archetype is appended.
    pub fn archetype_for(&mut self, types: &Vec<TypeInfo>) -> (idx: usize)
        requires
            store_wf(old(self)@),
            strictly_sorted(types@),
        ensures
            store_wf(final(self)@),
            idx < final(self)@.len(),
            final(self)@[idx as int].types == types@,
            (exists|a: int| 0 <= a < old(self)@.len() && (#[trigger] old(self)@[a].types)
                == types@) ==> final(self)@ == old(self)@,
            !(exists|a: int| 0 <= a < old(self)@.len() && (#[trigger] old(self)@[a].types)
                == types@) ==> final(self)@.len() == old(self)@.len() + 1 && idx == old(
                self,
            )@.len() && final(self)@.subrange(0, old(self)@.len() as int) == old(self)@
                && final(self)@[idx as int].len == 0 && final(self)@[idx as int].cap == 0,
    {
        let n = self.archetypes.len();
        let mut j: usize = 0;
        while j < n
            invariant
                j <= n,
                n == self@.len(),
                self@ == old(self)@,
                store_wf(old(self)@),
                self.archetypes@.len() == n,
                strictly_sorted(types@),
                forall|k: int| 0 <= k < j ==> (#[trigger] self@[k].types) != types@,
            decreases n - j,
        {
            proof {
                assert(self@[j as int] == self.archetypes@[j as int]@);
            }
            if types_eq(self.archetypes[j].types(), types) {
                proof {
                    assert(store_wf(self@));
                }
                return j;
            }
            j += 1;
        }
        let fresh = Archetype::new(copy_types(types));
        self.archetypes.push(fresh);
        proof {
            assert forall|k: int| 0 <= k < self.archetypes@.len() implies #[trigger] self@[k]
                == self.archetypes@[k]@ by {}
            assert forall|k: int| 0 <= k < n implies #[trigger] old(self)@[k]
                == old(self).archetypes@[k]@ by {}
            assert(self@.len() == n + 1);
            assert forall|k: int| 0 <= k < n implies #[trigger] self@[k] == old(self)@[k] by {
                assert(self.archetypes@[k] == old(self).archetypes@[k]);
            }
            assert(self@.subrange(0, n as int) =~= old(self)@);
            assert(self@[n as int].types == types@);
            assert forall|a: int| 0 <= a < self@.len() implies (#[trigger] self@[a]).wf() by {
                if a < n {
                    assert(self@[a] == old(self)@[a]);
                }
            }
            assert forall|a: int, b: int|
                0 <= a < self@.len() && 0 <= b < self@.len() && a != b implies (
            #[trigger] self@[a].types) != (#[trigger] self@[b].types) by {
                if a < n && b < n {
                    assert(self@[a] == old(self)@[a] && self@[b] == old(self)@[b]);
                } else if a == n {
                    assert(self@[b] == old(self)@[b]);
                    assert(old(self)@[b].types != types@);
                } else {
                    assert(self@[a] == old(self)@[a]);
                    assert(old(self)@[a].types != types@);
                }
            }
            assert(store_wf(self@));
        }
        n
    }
}

/// Lookup is idempotent: a well-formed registry holds at most one archetype
/// per canonical type sequence, so any two positions answering the same
/// sequence are one and the same position — the same archetype, not a
/// duplicate.
pub proof fn lemma_archetype_for_idempotent(s: Seq<ArchetypeModel>, i: int, j: int)
    requires
        store_wf(s),
        0 <= i < s.len(),
        0 <= j < s.len(),
        s[i].types == s[j].types,
    ensures
        i == j,
{
}

} // verus!
