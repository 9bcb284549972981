//! Facts about sequences used by the laws of the filters in this crate.
use vstd::prelude::*;

verus! {

/// `a` can be obtained from `b` by deleting elements.
pub open spec fn is_subsequence<T>(a: Seq<T>, b: Seq<T>) -> bool
    decreases b.len(),
{
    if a.len() == 0 {
        true
    } else if b.len() == 0 {
        false
    } else if a[0] == b[0] {
        is_subsequence(a.drop_first(), b.drop_first()) || is_subsequence(a, b.drop_first())
    } else {
        is_subsequence(a, b.drop_first())
    }
}

pub proof fn lemma_subsequence_empty<T>(b: Seq<T>)
    ensures
        is_subsequence(Seq::<T>::empty(), b),
{
}

/// Deleting a prefix of the larger sequence keeps the relation.
pub proof fn lemma_subsequence_prepend<T>(a: Seq<T>, x: Seq<T>, b: Seq<T>)
    requires
        is_subsequence(a, b),
    ensures
        is_subsequence(a, x + b),
    decreases x.len(),
{
    if x.len() > 0 {
        lemma_subsequence_prepend(a, x.drop_first(), b);
        assert((x + b).drop_first() == x.drop_first() + b);
        if a.len() > 0 && a[0] == (x + b)[0] {
        }
    }
}

/// A common prefix can be added to both sides.
pub proof fn lemma_subsequence_common_prefix<T>(x: Seq<T>, a: Seq<T>, b: Seq<T>)
    requires
        is_subsequence(a, b),
    ensures
        is_subsequence(x + a, x + b),
    decreases x.len(),
{
    if x.len() > 0 {
        lemma_subsequence_common_prefix(x.drop_first(), a, b);
        assert((x + a).drop_first() == x.drop_first() + a);
        assert((x + b).drop_first() == x.drop_first() + b);
        assert((x + a)[0] == (x + b)[0]);
    }
}

/// Appending to the larger sequence keeps the relation.
pub proof fn lemma_subsequence_push_right<T>(a: Seq<T>, b: Seq<T>, x: T)
    requires
        is_subsequence(a, b),
    ensures
        is_subsequence(a, b.push(x)),
    decreases b.len(),
{
    if a.len() > 0 && b.len() > 0 {
        assert(b.push(x).drop_first() == b.drop_first().push(x));
        assert(b.push(x)[0] == b[0]);
        if a[0] == b[0] && is_subsequence(a.drop_first(), b.drop_first()) {
            lemma_subsequence_push_right(a.drop_first(), b.drop_first(), x);
        } else {
            lemma_subsequence_push_right(a, b.drop_first(), x);
        }
    }
}

/// Appending the same element to both sides keeps the relation.
pub proof fn lemma_subsequence_push_both<T>(a: Seq<T>, b: Seq<T>, x: T)
    requires
        is_subsequence(a, b),
    ensures
        is_subsequence(a.push(x), b.push(x)),
    decreases b.len(),
{
    if b.len() == 0 {
        assert(a.len() == 0);
        assert(a.push(x).drop_first().len() == 0);
        assert(is_subsequence(a.push(x).drop_first(), b.push(x).drop_first()));
        assert(a.push(x)[0] == b.push(x)[0]);
    } else {
        assert(b.push(x).drop_first() == b.drop_first().push(x));
        assert(b.push(x)[0] == b[0]);
        if a.len() == 0 {
            assert(a.push(x)[0] == x);
            assert(a.push(x).drop_first().len() == 0);
            if x != b[0] {
                lemma_subsequence_push_both(a, b.drop_first(), x);
                assert(is_subsequence(a.push(x), b.push(x).drop_first()));
            } else {
                assert(is_subsequence(a.push(x).drop_first(), b.push(x).drop_first()));
            }
        } else {
            assert(a.push(x).drop_first() == a.drop_first().push(x));
            assert(a.push(x)[0] == a[0]);
            if a[0] == b[0] && is_subsequence(a.drop_first(), b.drop_first()) {
                lemma_subsequence_push_both(a.drop_first(), b.drop_first(), x);
                assert(is_subsequence(a.push(x).drop_first(), b.push(x).drop_first()));
            } else {
                lemma_subsequence_push_both(a, b.drop_first(), x);
                assert(is_subsequence(a.push(x), b.push(x).drop_first()));
            }
        }
    }
}

/// The items of `s` at the positions where `keep` holds, in order.
pub open spec fn keep_where<T>(s: Seq<T>, keep: Seq<bool>) -> Seq<T>
    decreases s.len(),
{
    if s.len() == 0 {
        Seq::empty()
    } else {
        let rest = keep_where(s.drop_last(), keep.drop_last());
        if keep.last() {
            rest.push(s.last())
        } else {
            rest
        }
    }
}

/// The items of `s` at the positions where `keep` holds, in order.
pub fn keep_where_vec(s: &Vec<u32>, keep: &Vec<bool>) -> (r: Vec<u32>)
    requires
        s@.len() == keep@.len(),
    ensures
        r@ == keep_where(s@, keep@),
{
    let mut r: Vec<u32> = Vec::new();
    let mut i: usize = 0;
    while i < s.len()
        invariant
            i <= s@.len(),
            s@.len() == keep@.len(),
            r@ == keep_where(s@.take(i as int), keep@.take(i as int)),
        decreases s@.len() - i,
    {
        proof {
            assert(s@.take(i + 1).drop_last() == s@.take(i as int));
            assert(keep@.take(i + 1).drop_last() == keep@.take(i as int));
        }
        if keep[i] {
            r.push(s[i]);
        }
        i = i + 1;
    }
    proof {
        assert(s@.take(s@.len() as int) == s@);
        assert(keep@.take(keep@.len() as int) == keep@);
    }
    r
}

} // verus!
