//! Small facts about finite sequences that the tables of this crate rely on.
use vstd::prelude::*;

verus! {

/// The index of the first element of `s` that satisfies `p`.
pub open spec fn position<T>(s: Seq<T>, p: spec_fn(T) -> bool) -> Option<int>
    decreases s.len(),
{
    if s.len() == 0 {
        None
    } else if p(s[0]) {
        Some(0)
    } else {
        match position(s.skip(1), p) {
            Some(i) => Some(i + 1),
            None => None,
        }
    }
}

/// The first element of `s` that satisfies `p`.
pub open spec fn first_where<T>(s: Seq<T>, p: spec_fn(T) -> bool) -> Option<T> {
    match position(s, p) {
        Some(i) => Some(s[i]),
        None => None,
    }
}

/// Whether some element of `s` satisfies `p`.
pub open spec fn some_where<T>(s: Seq<T>, p: spec_fn(T) -> bool) -> bool {
    position(s, p) is Some
}

/// `position` finds an element, and no earlier one qualifies; when it finds
/// none, there is none.
pub proof fn lemma_position<T>(s: Seq<T>, p: spec_fn(T) -> bool)
    ensures
        position(s, p) matches Some(i) ==> 0 <= i < s.len() && p(s[i]) && (forall|j: int|
            0 <= j < i ==> !p(#[trigger] s[j])),
        position(s, p) is None ==> forall|j: int| 0 <= j < s.len() ==> !p(#[trigger] s[j]),
    decreases s.len(),
{
    if s.len() > 0 && !p(s[0]) {
        let t = s.skip(1);
        lemma_position(t, p);
        assert forall|j: int| 1 <= j < s.len() implies s[j] == t[j - 1] by {}
        match position(t, p) {
            Some(i) => {
                assert forall|j: int| 0 <= j < i + 1 implies !p(#[trigger] s[j]) by {
                    if j > 0 {
                        assert(!p(t[j - 1]));
                    }
                }
            },
            None => {
                assert forall|j: int| 0 <= j < s.len() implies !p(#[trigger] s[j]) by {
                    if j > 0 {
                        assert(!p(t[j - 1]));
                    }
                }
            },
        }
    }
}

/// The index that a left-to-right search stops at is the position.
pub proof fn lemma_position_is<T>(s: Seq<T>, p: spec_fn(T) -> bool, i: int)
    requires
        0 <= i < s.len(),
        p(s[i]),
        forall|j: int| 0 <= j < i ==> !p(#[trigger] s[j]),
    ensures
        position(s, p) == Some(i),
{
    lemma_position(s, p);
}

/// A search that passes every element finds nothing.
pub proof fn lemma_position_none<T>(s: Seq<T>, p: spec_fn(T) -> bool)
    requires
        forall|j: int| 0 <= j < s.len() ==> !p(#[trigger] s[j]),
    ensures
        position(s, p) == None::<int>,
{
    lemma_position(s, p);
}

/// Filtering one more element.
pub proof fn lemma_filter_step<T>(s: Seq<T>, p: spec_fn(T) -> bool, i: int)
    requires
        0 <= i < s.len(),
    ensures
        s.take(i + 1).filter(p) == if p(s[i]) {
            s.take(i).filter(p).push(s[i])
        } else {
            s.take(i).filter(p)
        },
{
    reveal(Seq::filter);
    assert(s.take(i + 1).drop_last() =~= s.take(i));
}

/// Filtering nothing.
pub proof fn lemma_filter_start<T>(s: Seq<T>, p: spec_fn(T) -> bool)
    ensures
        s.take(0).filter(p) == Seq::<T>::empty(),
        s.take(s.len() as int) == s,
{
    reveal(Seq::filter);
    assert(s.take(0) =~= Seq::<T>::empty());
    assert(s.take(s.len() as int) =~= s);
}

// ── Changing a sequence ──────────────────────────────────────────────────
/// Something is found exactly where some element qualifies.
pub proof fn lemma_some_where<T>(s: Seq<T>, p: spec_fn(T) -> bool, i: int)
    requires
        0 <= i < s.len(),
        p(s[i]),
    ensures
        some_where(s, p),
        p(first_where(s, p)->0),
        s.contains(first_where(s, p)->0),
{
    lemma_position(s, p);
}

/// Replacing an element by one that qualifies just as well does not move the
/// position.
pub proof fn lemma_position_update<T>(s: Seq<T>, p: spec_fn(T) -> bool, i: int, x: T)
    requires
        0 <= i < s.len(),
        p(x) == p(s[i]),
    ensures
        position(s.update(i, x), p) == position(s, p),
{
    let t = s.update(i, x);
    lemma_position(s, p);
    match position(s, p) {
        Some(k) => {
            assert forall|j: int| 0 <= j < k implies !p(#[trigger] t[j]) by {
                assert(!p(s[j]));
            }
            assert(p(t[k])) by {
                assert(p(s[k]));
            }
            lemma_position_is(t, p, k);
        },
        None => {
            assert forall|j: int| 0 <= j < t.len() implies !p(#[trigger] t[j]) by {
                assert(!p(s[j]));
            }
            lemma_position_none(t, p);
        },
    }
}

/// An element at the end is found where nothing is found before it.
pub proof fn lemma_position_push<T>(s: Seq<T>, p: spec_fn(T) -> bool, x: T)
    ensures
        position(s.push(x), p) == match position(s, p) {
            Some(i) => Some(i),
            None => if p(x) {
                Some(s.len() as int)
            } else {
                None
            },
        },
        first_where(s.push(x), p) == match first_where(s, p) {
            Some(y) => Some(y),
            None => if p(x) {
                Some(x)
            } else {
                None
            },
        },
{
    let t = s.push(x);
    lemma_position(s, p);
    match position(s, p) {
        Some(k) => {
            assert(p(t[k]));
            assert forall|j: int| 0 <= j < k implies !p(#[trigger] t[j]) by {
                assert(!p(s[j]));
            }
            lemma_position_is(t, p, k);
        },
        None => {
            assert forall|j: int| 0 <= j < s.len() implies !p(#[trigger] t[j]) by {
                assert(!p(s[j]));
            }
            if p(x) {
                lemma_position_is(t, p, s.len() as int);
            } else {
                lemma_position_none(t, p);
            }
        },
    }
}

/// What a filter lets through is still found, and first.
pub proof fn lemma_first_filter<T>(s: Seq<T>, q: spec_fn(T) -> bool, p: spec_fn(T) -> bool)
    requires
        forall|x: T| #[trigger] p(x) ==> q(x),
    ensures
        first_where(s.filter(q), p) == first_where(s, p),
    decreases s.len(),
{
    reveal(Seq::filter);
    if s.len() > 0 {
        let r = s.drop_last();
        lemma_first_filter(r, q, p);
        assert(r.push(s.last()) =~= s);
        lemma_position_push(r, p, s.last());
        if q(s.last()) {
            lemma_position_push(r.filter(q), p, s.last());
        }
    }
}

/// What a filter holds back is not found.
pub proof fn lemma_none_filter<T>(s: Seq<T>, q: spec_fn(T) -> bool, p: spec_fn(T) -> bool)
    requires
        forall|x: T| #[trigger] p(x) ==> !q(x),
    ensures
        position(s.filter(q), p) is None,
    decreases s.len(),
{
    reveal(Seq::filter);
    if s.len() > 0 {
        let r = s.drop_last();
        lemma_none_filter(r, q, p);
        if q(s.last()) {
            lemma_position_push(r.filter(q), p, s.last());
        }
    }
}

/// A filter keeps elements of the sequence that qualify.
pub proof fn lemma_filter_from<T>(s: Seq<T>, q: spec_fn(T) -> bool)
    ensures
        forall|i: int|
            0 <= i < s.filter(q).len() ==> s.contains(#[trigger] s.filter(q)[i]) && q(
                s.filter(q)[i],
            ),
    decreases s.len(),
{
    reveal(Seq::filter);
    if s.len() > 0 {
        let r = s.drop_last();
        lemma_filter_from(r, q);
        assert forall|i: int| 0 <= i < s.filter(q).len() implies s.contains(
            #[trigger] s.filter(q)[i],
        ) && q(s.filter(q)[i]) by {
            if i < r.filter(q).len() {
                let x = r.filter(q)[i];
                assert(r.contains(x));
                let k = choose|k: int| 0 <= k < r.len() && r[k] == x;
                assert(s[k] == x);
            } else {
                assert(s[s.len() - 1] == s.last());
            }
        }
    }
}

/// Nothing that qualifies is lost by a filter.
pub proof fn lemma_filter_keeps<T>(s: Seq<T>, q: spec_fn(T) -> bool, x: T)
    requires
        s.contains(x),
        q(x),
    ensures
        s.filter(q).contains(x),
    decreases s.len(),
{
    reveal(Seq::filter);
    let r = s.drop_last();
    let k = choose|k: int| 0 <= k < s.len() && s[k] == x;
    if k == s.len() - 1 {
        assert(s.filter(q)[r.filter(q).len() as int] == x);
    } else {
        assert(r[k] == x);
        lemma_filter_keeps(r, q, x);
        let m = choose|m: int| 0 <= m < r.filter(q).len() && r.filter(q)[m] == x;
        assert(s.filter(q)[m] == x);
    }
}

/// What a filter keeps.
pub proof fn lemma_kept<T>(s: Seq<T>, q: spec_fn(T) -> bool, x: T)
    ensures
        s.filter(q).contains(x) <==> s.contains(x) && q(x),
{
    lemma_filter_from(s, q);
    if s.filter(q).contains(x) {
        let i = choose|i: int| 0 <= i < s.filter(q).len() && s.filter(q)[i] == x;
        assert(s.contains(s.filter(q)[i]));
    }
    if s.contains(x) && q(x) {
        lemma_filter_keeps(s, q, x);
    }
}

/// What is left when an element is removed that occurs once.
pub proof fn lemma_removed<T>(s: Seq<T>, i: int, x: T)
    requires
        0 <= i < s.len(),
        forall|j: int| 0 <= j < s.len() && j != i ==> #[trigger] s[j] != s[i],
    ensures
        s.remove(i).contains(x) <==> s.contains(x) && x != s[i],
{
    let t = s.remove(i);
    if t.contains(x) {
        let j = choose|j: int| 0 <= j < t.len() && t[j] == x;
        let k = if j < i { j } else { j + 1 };
        assert(s[k] == x);
    }
    if s.contains(x) && x != s[i] {
        let k = choose|k: int| 0 <= k < s.len() && s[k] == x;
        let j = if k < i { k } else { k - 1 };
        assert(t[j] == x);
    }
}

// ── Distinct keys ────────────────────────────────────────────────────────
/// Whether no two elements have the same key.
pub open spec fn distinct<T, K>(s: Seq<T>, key: spec_fn(T) -> K) -> bool {
    forall|i: int, j: int|
        0 <= i < j < s.len() ==> key(#[trigger] s[i]) != key(#[trigger] s[j])
}

/// Replacing an element by one with the same key.
pub proof fn lemma_distinct_update<T, K>(s: Seq<T>, key: spec_fn(T) -> K, i: int, x: T)
    requires
        distinct(s, key),
        0 <= i < s.len(),
        key(x) == key(s[i]),
    ensures
        distinct(s.update(i, x), key),
{
    let t = s.update(i, x);
    assert forall|a: int, b: int| 0 <= a < b < t.len() implies key(#[trigger] t[a]) != key(
        #[trigger] t[b],
    ) by {
        assert(key(s[a]) != key(s[b]));
    }
}

/// Adding an element with a new key.
pub proof fn lemma_distinct_push<T, K>(s: Seq<T>, key: spec_fn(T) -> K, x: T)
    requires
        distinct(s, key),
        forall|i: int| 0 <= i < s.len() ==> key(#[trigger] s[i]) != key(x),
    ensures
        distinct(s.push(x), key),
{
    let t = s.push(x);
    assert forall|a: int, b: int| 0 <= a < b < t.len() implies key(#[trigger] t[a]) != key(
        #[trigger] t[b],
    ) by {
        if b < s.len() {
            assert(key(s[a]) != key(s[b]));
        } else {
            assert(key(s[a]) != key(x));
        }
    }
}

/// Removing an element.
pub proof fn lemma_distinct_remove<T, K>(s: Seq<T>, key: spec_fn(T) -> K, i: int)
    requires
        distinct(s, key),
        0 <= i < s.len(),
    ensures
        distinct(s.remove(i), key),
        forall|j: int|
            0 <= j < s.remove(i).len() ==> s.contains(#[trigger] s.remove(i)[j]) && key(
                s.remove(i)[j],
            ) != key(s[i]),
{
    let t = s.remove(i);
    assert forall|a: int, b: int| 0 <= a < b < t.len() implies key(#[trigger] t[a]) != key(
        #[trigger] t[b],
    ) by {
        let x = if a < i { a } else { a + 1 };
        let y = if b < i { b } else { b + 1 };
        assert(t[a] == s[x] && t[b] == s[y]);
    }
    assert forall|j: int| 0 <= j < t.len() implies s.contains(#[trigger] t[j]) && key(t[j]) != key(
        s[i],
    ) by {
        let x = if j < i { j } else { j + 1 };
        assert(t[j] == s[x]);
    }
}

/// Keeping some elements.
pub proof fn lemma_distinct_filter<T, K>(s: Seq<T>, key: spec_fn(T) -> K, q: spec_fn(T) -> bool)
    requires
        distinct(s, key),
    ensures
        distinct(s.filter(q), key),
    decreases s.len(),
{
    reveal(Seq::filter);
    if s.len() > 0 {
        let r = s.drop_last();
        assert forall|i: int, j: int| 0 <= i < j < r.len() implies key(#[trigger] r[i]) != key(
            #[trigger] r[j],
        ) by {
            assert(key(s[i]) != key(s[j]));
        }
        lemma_distinct_filter(r, key, q);
        if q(s.last()) {
            lemma_filter_from(r, q);
            assert forall|i: int| 0 <= i < r.filter(q).len() implies key(
                #[trigger] r.filter(q)[i],
            ) != key(s.last()) by {
                let x = r.filter(q)[i];
                let k = choose|k: int| 0 <= k < r.len() && r[k] == x;
                assert(s[k] == x);
                assert(key(s[k]) != key(s[s.len() - 1]));
            }
            lemma_distinct_push(r.filter(q), key, s.last());
        }
    }
}

} // verus!
