use vstd::prelude::*;

verus! {

/// How many elements of `s` satisfy `p`.
pub open spec fn conta<T>(s: Seq<T>, p: spec_fn(T) -> bool) -> nat
    decreases s.len(),
{
    if s.len() == 0 {
        0
    } else {
        conta(s.drop_last(), p) + if p(s.last()) { 1nat } else { 0nat }
    }
}

/// A count never exceeds the length of the sequence.
pub proof fn lema_conta_limite<T>(s: Seq<T>, p: spec_fn(T) -> bool)
    ensures
        conta(s, p) <= s.len(),
    decreases s.len(),
{
    if s.len() > 0 {
        lema_conta_limite(s.drop_last(), p);
    }
}

/// Two sequences whose elements agree pointwise on two predicates have equal counts.
pub proof fn lema_conta_ext<T>(
    s1: Seq<T>,
    p1: spec_fn(T) -> bool,
    s2: Seq<T>,
    p2: spec_fn(T) -> bool,
)
    requires
        s1.len() == s2.len(),
        forall|k: int| 0 <= k < s1.len() ==> p1(s1[k]) == p2(s2[k]),
    ensures
        conta(s1, p1) == conta(s2, p2),
    decreases s1.len(),
{
    if s1.len() > 0 {
        let a = s1.drop_last();
        let b = s2.drop_last();
        assert forall|k: int| 0 <= k < a.len() implies p1(a[k]) == p2(b[k]) by {
            assert(a[k] == s1[k]);
            assert(b[k] == s2[k]);
        }
        lema_conta_ext(a, p1, b, p2);
        assert(p1(s1.last()) == p2(s2.last()));
    }
}

/// Replacing one element changes the count by what the old and new elements contribute.
pub proof fn lema_conta_update<T>(s: Seq<T>, k: int, v: T, p: spec_fn(T) -> bool)
    requires
        0 <= k < s.len(),
    ensures
        conta(s.update(k, v), p) + (if p(s[k]) { 1nat } else { 0nat }) == conta(s, p) + (if p(v) {
            1nat
        } else {
            0nat
        }),
    decreases s.len(),
{
    let t = s.update(k, v);
    if k == s.len() - 1 {
        assert(t.drop_last() =~= s.drop_last());
    } else {
        lema_conta_update(s.drop_last(), k, v, p);
        assert(t.drop_last() =~= s.drop_last().update(k, v));
        assert(t.last() == s.last());
    }
}

/// A count of zero means that no element satisfies the predicate.
pub proof fn lema_conta_zero<T>(s: Seq<T>, p: spec_fn(T) -> bool)
    requires
        conta(s, p) == 0,
    ensures
        forall|k: int| 0 <= k < s.len() ==> !p(#[trigger] s[k]),
    decreases s.len(),
{
    if s.len() > 0 {
        lema_conta_zero(s.drop_last(), p);
        assert forall|k: int| 0 <= k < s.len() implies !p(#[trigger] s[k]) by {
            if k < s.len() - 1 {
                assert(s[k] == s.drop_last()[k]);
            }
        }
    }
}

/// No element satisfies the predicate: the count is zero.
pub proof fn lema_conta_nenhum<T>(s: Seq<T>, p: spec_fn(T) -> bool)
    requires
        forall|k: int| 0 <= k < s.len() ==> !p(#[trigger] s[k]),
    ensures
        conta(s, p) == 0,
    decreases s.len(),
{
    if s.len() > 0 {
        let a = s.drop_last();
        assert forall|k: int| 0 <= k < a.len() implies !p(#[trigger] a[k]) by {
            assert(a[k] == s[k]);
        }
        lema_conta_nenhum(a, p);
        assert(!p(s[s.len() - 1]));
    }
}

/// The count of a disjoint union is the sum of the counts.
pub proof fn lema_conta_soma<T>(
    s: Seq<T>,
    p: spec_fn(T) -> bool,
    q1: spec_fn(T) -> bool,
    q2: spec_fn(T) -> bool,
)
    requires
        forall|k: int| 0 <= k < s.len() ==> (p(s[k]) <==> (q1(s[k]) || q2(s[k]))),
        forall|k: int| 0 <= k < s.len() ==> !(q1(s[k]) && q2(s[k])),
    ensures
        conta(s, p) == conta(s, q1) + conta(s, q2),
    decreases s.len(),
{
    if s.len() > 0 {
        let a = s.drop_last();
        assert forall|k: int| 0 <= k < a.len() implies (p(a[k]) <==> (q1(a[k]) || q2(a[k])))
            && !(q1(a[k]) && q2(a[k])) by {
            assert(a[k] == s[k]);
        }
        lema_conta_soma(a, p, q1, q2);
        assert(p(s.last()) <==> (q1(s.last()) || q2(s.last())));
        assert(!(q1(s.last()) && q2(s.last())));
    }
}

} // verus!
