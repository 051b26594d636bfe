//! Component type descriptors and their canonical order.

use vstd::prelude::*;

verus! {

/// Describes one component type: a stable type identity together with the
/// size and alignment of one value of the type.
///
/// Descriptors are totally ordered (identity first, then size, then
/// alignment), so every set of descriptors has exactly one sorted sequence.
#[derive(Clone, Copy, Debug, PartialEq, Eq, Structural)]
pub struct TypeInfo {
    /// Stable identity of the component type.
    pub id: u64,
    /// Size in bytes of one component value.
    pub size: usize,
    /// Alignment in bytes of one component value.
    pub align: usize,
}

impl TypeInfo {
    /// Build a descriptor from its parts.
    pub fn new(id: u64, size: usize, align: usize) -> (r: Self)
        ensures
            r == (TypeInfo { id, size, align }),
    {
        TypeInfo { id, size, align }
    }
}

/// Strict total order on descriptors: lexicographic on identity, then size,
/// then alignment.
pub open spec fn ti_lt(a: TypeInfo, b: TypeInfo) -> bool {
    ||| a.id < b.id
    ||| (a.id == b.id && a.size < b.size)
    ||| (a.id == b.id && a.size == b.size && a.align < b.align)
}

/// A sequence is canonical when it is strictly increasing: sorted and free
/// of duplicates.
pub open spec fn strictly_sorted(s: Seq<TypeInfo>) -> bool {
    forall|i: int, j: int| 0 <= i < j < s.len() ==> ti_lt(s[i], s[j])
}

/// Executable comparison, equivalent to the specification order [`ti_lt`].
pub fn ti_less(a: &TypeInfo, b: &TypeInfo) -> (r: bool)
    ensures
        r == ti_lt(*a, *b),
{
    a.id < b.id || (a.id == b.id && (a.size < b.size || (a.size == b.size && a.align < b.align)))
}

/// The order is total: any two descriptors are comparable or equal.
pub proof fn lemma_ti_lt_total(a: TypeInfo, b: TypeInfo)
    ensures
        ti_lt(a, b) || ti_lt(b, a) || a == b,
{
}

/// The order is irreflexive and asymmetric.
pub proof fn lemma_ti_lt_asymmetric(a: TypeInfo, b: TypeInfo)
    ensures
        !(ti_lt(a, b) && ti_lt(b, a)),
        ti_lt(a, b) ==> a != b,
{
}

/// The order is transitive.
pub proof fn lemma_ti_lt_transitive(a: TypeInfo, b: TypeInfo, c: TypeInfo)
    ensures
        ti_lt(a, b) && ti_lt(b, c) ==> ti_lt(a, c),
{
}

/// There is exactly one canonical sequence per set of descriptors: two
/// strictly sorted sequences holding the same set are equal.
pub proof fn lemma_canonical_unique(s1: Seq<TypeInfo>, s2: Seq<TypeInfo>)
    requires
        strictly_sorted(s1),
        strictly_sorted(s2),
        s1.to_set() == s2.to_set(),
    ensures
        s1 == s2,
    decreases s1.len(),
{
    broadcast use vstd::set::group_set_axioms;

    if s1.len() == 0 {
        if s2.len() > 0 {
            assert(s2.contains(s2[0]));
            assert(s1.to_set().contains(s2[0]));
            assert(s1.contains(s2[0]));
        }
        assert(s1 =~= s2);
    } else if s2.len() == 0 {
        assert(s1.contains(s1[0]));
        assert(s2.to_set().contains(s1[0]));
        assert(s2.contains(s1[0]));
    } else {
        assert(s1.contains(s1[0]));
        assert(s2.to_set().contains(s1[0]));
        let j = choose|j: int| 0 <= j < s2.len() && s2[j] == s1[0];
        assert(s2.contains(s2[0]));
        assert(s1.to_set().contains(s2[0]));
        let i = choose|i: int| 0 <= i < s1.len() && s1[i] == s2[0];
        if s1[0] != s2[0] {
            assert(j != 0);
            assert(ti_lt(s2[0], s2[j]));
            assert(i != 0);
            assert(ti_lt(s1[0], s1[i]));
            assert(false);
        }
        let t1 = s1.subrange(1, s1.len() as int);
        let t2 = s2.subrange(1, s2.len() as int);
        assert(strictly_sorted(t1));
        assert(strictly_sorted(t2));
        assert(t1.to_set() =~= s1.to_set().remove(s1[0])) by {
            lemma_tail_set(s1);
        }
        assert(t2.to_set() =~= s2.to_set().remove(s2[0])) by {
            lemma_tail_set(s2);
        }
        lemma_canonical_unique(t1, t2);
        assert(s1 =~= s2) by {
            assert(forall|k: int| 1 <= k < s1.len() ==> s1[k] == t1[k - 1] && s2[k] == t2[k - 1]);
        }
    }
}

/// In a strictly sorted, non-empty sequence, dropping the head removes
/// exactly the head from the underlying set.
proof fn lemma_tail_set(s: Seq<TypeInfo>)
    requires
        strictly_sorted(s),
        s.len() > 0,
    ensures
        s.subrange(1, s.len() as int).to_set() == s.to_set().remove(s[0]),
{
    broadcast use vstd::set::group_set_axioms;

    let t = s.subrange(1, s.len() as int);
    assert forall|x: TypeInfo| t.to_set().contains(x) implies s.to_set().remove(s[0]).contains(
        x,
    ) by {
        let k = choose|k: int| 0 <= k < t.len() && t[k] == x;
        assert(s[k + 1] == x);
        assert(s.contains(x));
        assert(ti_lt(s[0], s[k + 1]));
        lemma_ti_lt_asymmetric(s[0], s[k + 1]);
    }
    assert forall|x: TypeInfo| s.to_set().remove(s[0]).contains(x) implies t.to_set().contains(
        x,
    ) by {
        let k = choose|k: int| 0 <= k < s.len() && s[k] == x;
        assert(k != 0);
        assert(t[k - 1] == x);
        assert(t.contains(x));
    }
    assert(t.to_set() =~= s.to_set().remove(s[0]));
}

} // verus!
