//! Small helpers for sets kept as duplicate-free sequences: the quorum
//! sets of both protocol families deduplicate their votes by
//! structural equality and only ever grow.

use vstd::prelude::*;

verus! {

/// Inserting into such a set: a duplicate leaves the set unchanged.
pub open spec fn set_insert<T>(s: Seq<T>, x: T) -> Seq<T> {
    if s.contains(x) {
        s
    } else {
        s.push(x)
    }
}

/// Inserting a fresh element into a duplicate-free set keeps it
/// duplicate-free.
pub proof fn lemma_set_insert_no_duplicates<T>(s: Seq<T>, x: T)
    requires
        s.no_duplicates(),
    ensures
        set_insert(s, x).no_duplicates(),
{
    if !s.contains(x) {
        let t = s.push(x);
        assert forall|i: int, j: int|
            0 <= i < t.len() && 0 <= j < t.len() && i != j implies t[i] != t[j] by {
            if i == s.len() {
                assert(t[j] == s[j]);
                assert(s[j] != x) by {
                    if s[j] == x {
                        assert(s.contains(x));
                    }
                }
            } else if j == s.len() {
                assert(t[i] == s[i]);
                assert(s[i] != x) by {
                    if s[i] == x {
                        assert(s.contains(x));
                    }
                }
            }
        }
    }
}

/// Insertion keeps every element, and puts the new one in.
pub proof fn lemma_set_insert_contains<T>(s: Seq<T>, x: T)
    ensures
        forall|y: T| s.contains(y) ==> #[trigger] set_insert(s, x).contains(y),
        set_insert(s, x).contains(x),
{
    assert forall|y: T| s.contains(y) implies #[trigger] set_insert(s, x).contains(y) by {
        let k = choose|k: int| 0 <= k < s.len() && s[k] == y;
        assert(set_insert(s, x)[k] == y);
    }
    if s.contains(x) {
    } else {
        assert(s.push(x)[s.len() as int] == x);
    }
}

/// Every sequence is a prefix of itself.
pub proof fn lemma_prefix_refl<T>(s: Seq<T>)
    ensures
        s.is_prefix_of(s),
{
    assert(s =~= s.subrange(0, s.len() as int));
}

/// A set keeps its existing elements in place when one is inserted.
pub proof fn lemma_prefix_set_insert<T>(s: Seq<T>, x: T)
    ensures
        s.is_prefix_of(set_insert(s, x)),
{
    if s.contains(x) {
        lemma_prefix_refl(s);
    } else {
        assert(s =~= s.push(x).subrange(0, s.len() as int));
    }
}

/// Prefixes compose.
pub proof fn lemma_prefix_trans<T>(a: Seq<T>, b: Seq<T>, c: Seq<T>)
    requires
        a.is_prefix_of(b),
        b.is_prefix_of(c),
    ensures
        a.is_prefix_of(c),
{
    assert(a =~= c.subrange(0, a.len() as int));
}

/// Whether a set of node or operation ids already holds `x`.
pub fn contains_u32(v: &Vec<u32>, x: u32) -> (r: bool)
    ensures
        r == v@.contains(x),
{
    let mut i: usize = 0;
    while i < v.len()
        invariant
            0 <= i <= v@.len(),
            forall|j: int| 0 <= j < i ==> v@[j] != x,
        decreases v@.len() - i,
    {
        if v[i] == x {
            return true;
        }
        i = i + 1;
    }
    false
}

} // verus!
