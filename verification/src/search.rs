//! Generic specifications for searching and filtering sequences.
use vstd::prelude::*;

verus! {

/// The index of the first element of `s` that satisfies `p`.
pub open spec fn first_index<T>(s: Seq<T>, p: spec_fn(T) -> bool) -> Option<int>
    decreases s.len(),
{
    if s.len() == 0 {
        None
    } else if p(s[0]) {
        Some(0)
    } else {
        match first_index(s.drop_first(), p) {
            Some(i) => Some(i + 1),
            None => None,
        }
    }
}

/// The first element of `s` that satisfies `p`.
pub open spec fn first_where<T>(s: Seq<T>, p: spec_fn(T) -> bool) -> Option<T> {
    match first_index(s, p) {
        Some(i) => Some(s[i]),
        None => None,
    }
}

/// The elements of `s` that satisfy `p`, in order.
pub open spec fn keep<T>(s: Seq<T>, p: spec_fn(T) -> bool) -> Seq<T>
    decreases s.len(),
{
    if s.len() == 0 {
        seq![]
    } else if p(s.last()) {
        keep(s.drop_last(), p).push(s.last())
    } else {
        keep(s.drop_last(), p)
    }
}

/// The number of elements of `s` that satisfy `p`.
pub open spec fn count<T>(s: Seq<T>, p: spec_fn(T) -> bool) -> nat {
    keep(s, p).len()
}

/// A `first_index` result is the first satisfying position.
pub proof fn lemma_first_index<T>(s: Seq<T>, p: spec_fn(T) -> bool)
    ensures
        match first_index(s, p) {
            Some(i) => 0 <= i < s.len() && p(s[i]) && forall|j: int| 0 <= j < i ==> !p(s[j]),
            None => forall|j: int| 0 <= j < s.len() ==> !p(s[j]),
        },
    decreases s.len(),
{
    if s.len() > 0 {
        lemma_first_index(s.drop_first(), p);
        if !p(s[0]) {
            match first_index(s.drop_first(), p) {
                Some(i) => {
                    assert forall|j: int| 0 <= j < i + 1 implies !p(s[j]) by {
                        if j > 0 {
                            assert(s[j] == s.drop_first()[j - 1]);
                        }
                    }
                },
                None => {
                    assert forall|j: int| 0 <= j < s.len() implies !p(s[j]) by {
                        if j > 0 {
                            assert(s[j] == s.drop_first()[j - 1]);
                        }
                    }
                },
            }
        }
    }
}

/// The first satisfying position is determined by the elements alone: if
/// `i` satisfies `p` and nothing before it does, `first_index` is `i`.
pub proof fn lemma_first_index_is<T>(s: Seq<T>, p: spec_fn(T) -> bool, i: int)
    requires
        0 <= i < s.len(),
        p(s[i]),
        forall|j: int| 0 <= j < i ==> !p(s[j]),
    ensures
        first_index(s, p) == Some(i),
{
    lemma_first_index(s, p);
    match first_index(s, p) {
        Some(k) => {
            if k < i {
            } else if k > i {
            }
        },
        None => {},
    }
}

/// No element satisfies `p`, so `first_index` is `None`.
pub proof fn lemma_first_index_none<T>(s: Seq<T>, p: spec_fn(T) -> bool)
    requires
        forall|j: int| 0 <= j < s.len() ==> !p(s[j]),
    ensures
        first_index(s, p) is None,
{
    lemma_first_index(s, p);
}

/// Extending a prefix by one element extends `keep` by that element when it
/// satisfies `p`.
pub proof fn lemma_keep_take<T>(s: Seq<T>, p: spec_fn(T) -> bool, i: int)
    requires
        0 <= i < s.len(),
    ensures
        keep(s.take(i + 1), p) == (if p(s[i]) {
            keep(s.take(i), p).push(s[i])
        } else {
            keep(s.take(i), p)
        }),
{
    assert(s.take(i + 1).drop_last() =~= s.take(i));
    assert(s.take(i + 1).last() == s[i]);
}

/// `keep` over the whole sequence is `keep` over its full prefix.
pub proof fn lemma_take_full<T>(s: Seq<T>)
    ensures
        s.take(s.len() as int) == s,
{
    assert(s.take(s.len() as int) =~= s);
}

/// Everything `keep` returns satisfies `p` and comes from `s`.
pub proof fn lemma_keep_members<T>(s: Seq<T>, p: spec_fn(T) -> bool)
    ensures
        forall|k: int| 0 <= k < keep(s, p).len() ==> p(#[trigger] keep(s, p)[k]) && s.contains(
            keep(s, p)[k],
        ),
        keep(s, p).len() <= s.len(),
    decreases s.len(),
{
    if s.len() > 0 {
        lemma_keep_members(s.drop_last(), p);
        let r = keep(s.drop_last(), p);
        assert forall|k: int| 0 <= k < keep(s, p).len() implies p(#[trigger] keep(s, p)[k])
            && s.contains(keep(s, p)[k]) by {
            if k < r.len() {
                assert(keep(s, p)[k] == r[k]);
                assert(s.drop_last().contains(r[k]));
                let w = choose|w: int| 0 <= w < s.drop_last().len() && s.drop_last()[w] == r[k];
                assert(s[w] == r[k]);
            } else {
                assert(keep(s, p)[k] == s.last());
                assert(s[s.len() - 1] == s.last());
            }
        }
    }
}

/// `keep` holds exactly the elements of `s` that satisfy `p`.
pub proof fn lemma_keep_contains<T>(s: Seq<T>, p: spec_fn(T) -> bool, x: T)
    ensures
        keep(s, p).contains(x) <==> (s.contains(x) && p(x)),
    decreases s.len(),
{
    lemma_keep_members(s, p);
    if s.len() > 0 {
        lemma_keep_contains(s.drop_last(), p, x);
        let r = keep(s.drop_last(), p);
        if s.contains(x) && p(x) {
            let k = choose|k: int| 0 <= k < s.len() && s[k] == x;
            if k == s.len() - 1 {
                assert(keep(s, p) == r.push(s.last()));
                assert(keep(s, p)[r.len() as int] == x);
            } else {
                assert(s.drop_last()[k] == x);
                let m = choose|m: int| 0 <= m < r.len() && r[m] == x;
                if p(s.last()) {
                    assert(keep(s, p)[m] == x);
                } else {
                    assert(keep(s, p)[m] == x);
                }
            }
        }
        if keep(s, p).contains(x) {
            let m = choose|m: int| 0 <= m < keep(s, p).len() && keep(s, p)[m] == x;
            assert(p(keep(s, p)[m]) && s.contains(keep(s, p)[m]));
        }
    }
}

} // verus!
