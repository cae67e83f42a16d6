//! Lookups and selections over sequences, stated once and reused by
//! every list the screen reads.
use vstd::prelude::*;

verus! {

/// `k` is the first place in `s` where `p` holds.
pub open spec fn is_first<A>(s: Seq<A>, p: spec_fn(A) -> bool, k: int) -> bool {
    &&& 0 <= k < s.len()
    &&& p(s[k])
    &&& forall|j: int| 0 <= j < k ==> !p(#[trigger] s[j])
}

/// The first place in `s` where `p` holds, if any.
pub open spec fn first_where<A>(s: Seq<A>, p: spec_fn(A) -> bool) -> Option<int> {
    if exists|k: int| is_first(s, p, k) {
        Some(choose|k: int| is_first(s, p, k))
    } else {
        None
    }
}

/// A first place, once found, is the one `first_where` names.
pub proof fn lemma_first_found<A>(s: Seq<A>, p: spec_fn(A) -> bool, k: int)
    requires
        is_first(s, p, k),
    ensures
        first_where(s, p) == Some(k),
{
    let c = choose|k: int| is_first(s, p, k);
    assert(is_first(s, p, c));
    if c < k {
        assert(!p(s[c]));
    } else if k < c {
        assert(!p(s[k]));
    }
}

/// No place satisfies `p`, so there is no first one.
pub proof fn lemma_none_found<A>(s: Seq<A>, p: spec_fn(A) -> bool)
    requires
        forall|j: int| 0 <= j < s.len() ==> !p(#[trigger] s[j]),
    ensures
        first_where(s, p) is None,
{
    if exists|k: int| is_first(s, p, k) {
        let k = choose|k: int| is_first(s, p, k);
        assert(p(s[k]));
    }
}

/// What `first_where` names is a first place.
pub proof fn lemma_first_is_first<A>(s: Seq<A>, p: spec_fn(A) -> bool)
    ensures
        first_where(s, p) matches Some(k) ==> is_first(s, p, k),
        first_where(s, p) is None ==> forall|j: int| 0 <= j < s.len() ==> !p(#[trigger] s[j]),
{
    if first_where(s, p) is None {
        assert forall|j: int| 0 <= j < s.len() implies !p(#[trigger] s[j]) by {
            if p(s[j]) {
                lemma_least_place(s, p, j);
            }
        }
    }
}

proof fn lemma_least_place<A>(s: Seq<A>, p: spec_fn(A) -> bool, j: int)
    requires
        0 <= j < s.len(),
        p(s[j]),
    ensures
        exists|k: int| is_first(s, p, k),
    decreases j,
{
    if forall|i: int| 0 <= i < j ==> !p(#[trigger] s[i]) {
        assert(is_first(s, p, j));
    } else {
        let i = choose|i: int| 0 <= i < j && p(#[trigger] s[i]);
        lemma_least_place(s, p, i);
    }
}

/// The places in `s` (in order) where `p` holds of the place and the
/// element there.
pub open spec fn positions<A>(s: Seq<A>, p: spec_fn(int, A) -> bool) -> Seq<usize>
    decreases s.len(),
{
    if s.len() == 0 {
        Seq::<usize>::empty()
    } else {
        let before = positions(s.drop_last(), p);
        if p(s.len() - 1, s.last()) {
            before.push((s.len() - 1) as usize)
        } else {
            before
        }
    }
}

/// One more element considered.
pub proof fn lemma_positions_step<A>(s: Seq<A>, p: spec_fn(int, A) -> bool, i: int)
    requires
        0 <= i < s.len(),
    ensures
        positions(s.take(i + 1), p) == (if p(i, s[i]) {
            positions(s.take(i), p).push(i as usize)
        } else {
            positions(s.take(i), p)
        }),
{
    assert(s.take(i + 1).drop_last() =~= s.take(i));
    assert(s.take(i + 1).last() == s[i]);
}

/// Every position found is in range and satisfies the predicate there.
pub proof fn lemma_positions_hold<A>(s: Seq<A>, p: spec_fn(int, A) -> bool)
    requires
        s.len() <= usize::MAX,
    ensures
        forall|k: int| 0 <= k < positions(s, p).len() ==> {
            let at = #[trigger] positions(s, p)[k];
            at < s.len() && p(at as int, s[at as int])
        },
    decreases s.len(),
{
    if s.len() > 0 {
        lemma_positions_hold(s.drop_last(), p);
        assert forall|k: int| 0 <= k < positions(s, p).len() implies {
            let at = #[trigger] positions(s, p)[k];
            at < s.len() && p(at as int, s[at as int])
        } by {
            let before = positions(s.drop_last(), p);
            if k < before.len() {
                let at = before[k];
                assert(positions(s, p)[k] == at);
                assert(at < s.drop_last().len() && p(at as int, s.drop_last()[at as int]));
                assert(s.drop_last()[at as int] == s[at as int]);
            } else {
                assert(p(s.len() - 1, s.last()));
                assert(positions(s, p)[k] == (s.len() - 1) as usize);
            }
        }
    }
}

/// How many elements of `s` satisfy `p`.
pub open spec fn count<A>(s: Seq<A>, p: spec_fn(A) -> bool) -> nat
    decreases s.len(),
{
    if s.len() == 0 {
        0
    } else {
        count(s.drop_last(), p) + if p(s.last()) {
            1nat
        } else {
            0nat
        }
    }
}

/// One more element counted.
pub proof fn lemma_count_step<A>(s: Seq<A>, p: spec_fn(A) -> bool, i: int)
    requires
        0 <= i < s.len(),
    ensures
        count(s.take(i + 1), p) == count(s.take(i), p) + if p(s[i]) {
            1nat
        } else {
            0nat
        },
{
    assert(s.take(i + 1).drop_last() =~= s.take(i));
}

/// A count never passes the length.
pub proof fn lemma_count_le<A>(s: Seq<A>, p: spec_fn(A) -> bool)
    ensures
        count(s, p) <= s.len(),
    decreases s.len(),
{
    if s.len() > 0 {
        lemma_count_le(s.drop_last(), p);
    }
}

/// What storing a keyed value does to a list: it replaces the entry at
/// `at` — the first under its key — or joins the end when there is none.
pub open spec fn stored_at<T>(old: Seq<T>, new: Seq<T>, at: Option<int>) -> bool {
    match at {
        Some(k) => 0 <= k < old.len() && new == old.update(k, new[k]),
        None => new == old.push(new.last()),
    }
}

/// The place a value was stored at.
pub open spec fn store_place<T>(old: Seq<T>, at: Option<int>) -> int {
    match at {
        Some(k) => k,
        None => old.len() as int,
    }
}

/// A value stored under its key is the first one found under it.
pub proof fn lemma_found_where_stored<T>(old: Seq<T>, new: Seq<T>, p: spec_fn(T) -> bool)
    requires
        stored_at(old, new, first_where(old, p)),
        p(new[store_place(old, first_where(old, p))]),
    ensures
        first_where(new, p) == Some(store_place(old, first_where(old, p))),
{
    lemma_first_is_first(old, p);
    let k = store_place(old, first_where(old, p));
    assert forall|j: int| 0 <= j < k implies !p(#[trigger] new[j]) by {
        assert(new[j] == old[j]);
    }
    assert(is_first(new, p, k));
    lemma_first_found(new, p, k);
}

} // verus!
