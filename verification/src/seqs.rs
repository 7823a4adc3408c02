//! Sequence helpers shared by the lookup tables of the library.
use vstd::prelude::*;

verus! {

/// Index of the first element of `s` satisfying `p`, or `s.len()` when none does.
pub open spec fn first_index<T>(s: Seq<T>, p: spec_fn(T) -> bool) -> int
    decreases s.len(),
{
    if s.len() == 0 {
        0
    } else if p(s[0]) {
        0
    } else {
        1 + first_index(s.drop_first(), p)
    }
}

/// The first element of `s` satisfying `p`, if any.
pub open spec fn find_first<T>(s: Seq<T>, p: spec_fn(T) -> bool) -> Option<T> {
    let k = first_index(s, p);
    if k < s.len() {
        Some(s[k])
    } else {
        None
    }
}

/// `first_index` is characterised by: no earlier element matches, and the element there does.
pub proof fn lemma_first_index<T>(s: Seq<T>, p: spec_fn(T) -> bool)
    ensures
        0 <= first_index(s, p) <= s.len(),
        forall|j: int| 0 <= j < first_index(s, p) ==> !p(#[trigger] s[j]),
        first_index(s, p) < s.len() ==> p(s[first_index(s, p)]),
    decreases s.len(),
{
    if s.len() > 0 && !p(s[0]) {
        lemma_first_index(s.drop_first(), p);
        assert forall|j: int| 0 <= j < first_index(s, p) implies !p(#[trigger] s[j]) by {
            if j > 0 {
                assert(s[j] == s.drop_first()[j - 1]);
            }
        }
    }
}

/// Any index with no earlier match and a match there (or the end) is `first_index`.
pub proof fn lemma_first_index_is<T>(s: Seq<T>, p: spec_fn(T) -> bool, k: int)
    requires
        0 <= k <= s.len(),
        forall|j: int| 0 <= j < k ==> !p(#[trigger] s[j]),
        k == s.len() || p(s[k]),
    ensures
        first_index(s, p) == k,
    decreases s.len(),
{
    if s.len() > 0 && k > 0 {
        assert(!p(s[0]));
        assert forall|j: int| 0 <= j < k - 1 implies !p(#[trigger] s.drop_first()[j]) by {
            assert(s.drop_first()[j] == s[j + 1]);
        }
        if k < s.len() {
            assert(s.drop_first()[k - 1] == s[k]);
        }
        lemma_first_index_is(s.drop_first(), p, k - 1);
    }
}

/// Appending an element keeps an earlier first match and otherwise tests the new element.
pub proof fn lemma_first_index_push<T>(s: Seq<T>, p: spec_fn(T) -> bool, x: T)
    ensures
        first_index(s, p) < s.len() ==> first_index(s.push(x), p) == first_index(s, p),
        first_index(s, p) == s.len() ==> first_index(s.push(x), p) == (if p(x) {
            s.len() as int
        } else {
            s.len() + 1int
        }),
{
    lemma_first_index(s, p);
    let k = first_index(s, p);
    assert forall|j: int| 0 <= j < k implies !p(#[trigger] s.push(x)[j]) by {
        assert(s.push(x)[j] == s[j]);
    }
    if k < s.len() {
        assert(s.push(x)[k] == s[k]);
        lemma_first_index_is(s.push(x), p, k);
    } else {
        if p(x) {
            lemma_first_index_is(s.push(x), p, k);
        } else {
            assert forall|j: int| 0 <= j < s.len() + 1 implies !p(#[trigger] s.push(x)[j]) by {
                if j < s.len() {
                    assert(s.push(x)[j] == s[j]);
                }
            }
            lemma_first_index_is(s.push(x), p, s.len() + 1int);
        }
    }
}

/// The first match in `a + b` is the first in `a` when `a` has one, else the first in `b`
/// past `a`.
pub proof fn lemma_first_index_append<T>(a: Seq<T>, b: Seq<T>, p: spec_fn(T) -> bool)
    ensures
        first_index(a + b, p) == if first_index(a, p) < a.len() {
            first_index(a, p)
        } else {
            a.len() + first_index(b, p)
        },
{
    lemma_first_index(a, p);
    lemma_first_index(b, p);
    let ab = a + b;
    if first_index(a, p) < a.len() {
        let k = first_index(a, p);
        assert forall|j: int| 0 <= j < k implies !p(#[trigger] ab[j]) by {
            assert(ab[j] == a[j]);
        }
        assert(ab[k] == a[k]);
        lemma_first_index_is(ab, p, k);
    } else {
        let k = a.len() + first_index(b, p);
        assert forall|j: int| 0 <= j < k implies !p(#[trigger] ab[j]) by {
            if j < a.len() {
                assert(ab[j] == a[j]);
            } else {
                assert(ab[j] == b[j - a.len()]);
            }
        }
        if k < ab.len() {
            assert(ab[k] == b[first_index(b, p)]);
        }
        lemma_first_index_is(ab, p, k);
    }
}

/// A first match found in a prefix is the first match of any extension of it.
pub proof fn lemma_find_first_prefix<T>(a: Seq<T>, b: Seq<T>, p: spec_fn(T) -> bool)
    requires
        a.len() <= b.len(),
        b.subrange(0, a.len() as int) == a,
        find_first(a, p) is Some,
    ensures
        find_first(b, p) == find_first(a, p),
{
    let rest = b.subrange(a.len() as int, b.len() as int);
    assert(b =~= a + rest);
    lemma_first_index_append(a, rest, p);
    lemma_first_index(a, p);
    assert(b[first_index(a, p)] == a[first_index(a, p)]);
}

} // verus!
