//! Facts about sequences used by the contracts of the library.

use vstd::prelude::*;

verus! {

/// The index of the first element of `s` that satisfies `p`, or -1 when none does.
pub open spec fn first_index<A>(s: Seq<A>, p: spec_fn(A) -> bool) -> int
    decreases s.len(),
{
    if s.len() == 0 {
        -1
    } else if p(s[0]) {
        0
    } else {
        let r = first_index(s.drop_first(), p);
        if r < 0 {
            -1
        } else {
            r + 1
        }
    }
}

/// What `first_index` is: the least index whose element satisfies `p`, or -1.
pub proof fn lemma_first_index<A>(s: Seq<A>, p: spec_fn(A) -> bool)
    ensures
        -1 <= first_index(s, p) < s.len(),
        first_index(s, p) == -1 <==> (forall|i: int| 0 <= i < s.len() ==> !p(#[trigger] s[i])),
        first_index(s, p) >= 0 ==> p(s[first_index(s, p)]),
        forall|i: int| 0 <= i < first_index(s, p) ==> !p(#[trigger] s[i]),
    decreases s.len(),
{
    if s.len() > 0 && !p(s[0]) {
        let t = s.drop_first();
        lemma_first_index(t, p);
        assert forall|i: int| 1 <= i < s.len() implies s[i] == #[trigger] t[i - 1] by {}
        if first_index(t, p) == -1 {
            assert forall|i: int| 0 <= i < s.len() implies !p(#[trigger] s[i]) by {
                if i > 0 {
                    assert(s[i] == t[i - 1]);
                }
            }
        } else {
            assert forall|i: int| 0 <= i < first_index(s, p) implies !p(#[trigger] s[i]) by {
                if i > 0 {
                    assert(s[i] == t[i - 1]);
                }
            }
        }
        if first_index(t, p) >= 0 {
            assert(s[first_index(s, p)] == t[first_index(t, p)]);
        }
    }
}

/// The first index is the one a left-to-right search stops at.
pub proof fn lemma_first_index_is<A>(s: Seq<A>, p: spec_fn(A) -> bool, i: int)
    requires
        0 <= i < s.len(),
        p(s[i]),
        forall|k: int| 0 <= k < i ==> !p(#[trigger] s[k]),
    ensures
        first_index(s, p) == i,
{
    lemma_first_index(s, p);
    if first_index(s, p) == -1 {
        assert(!p(s[i]));
    } else if first_index(s, p) < i {
        let f = first_index(s, p);
        assert(!p(s[f]));
    } else if first_index(s, p) > i {
        assert(!p(s[i]));
    }
}

/// When no element satisfies `p`, the first index is -1.
pub proof fn lemma_first_index_none<A>(s: Seq<A>, p: spec_fn(A) -> bool)
    requires
        forall|k: int| 0 <= k < s.len() ==> !p(#[trigger] s[k]),
    ensures
        first_index(s, p) == -1,
{
    lemma_first_index(s, p);
    if first_index(s, p) >= 0 {
        let f = first_index(s, p);
        assert(!p(s[f]));
    }
}

/// Replacing an element by one that `p` judges alike leaves the first index as it was.
pub proof fn lemma_first_index_update<A>(s: Seq<A>, p: spec_fn(A) -> bool, j: int, x: A)
    requires
        0 <= j < s.len(),
        p(x) == p(s[j]),
    ensures
        first_index(s.update(j, x), p) == first_index(s, p),
{
    let t = s.update(j, x);
    lemma_first_index(s, p);
    lemma_first_index(t, p);
    assert forall|k: int| 0 <= k < s.len() implies p(#[trigger] t[k]) == p(s[k]) by {
        if k == j {
            assert(t[k] == x);
        }
    }
    let f = first_index(s, p);
    let g = first_index(t, p);
    if f == -1 && g >= 0 {
        assert(p(t[g]) && !p(s[g]));
    } else if g == -1 && f >= 0 {
        assert(p(s[f]) && !p(t[f]));
    } else if f >= 0 && g >= 0 && f < g {
        assert(p(s[f]) && !p(t[f]));
    } else if f >= 0 && g >= 0 && g < f {
        assert(p(t[g]) && !p(s[g]));
    }
}

} // verus!
