use vstd::prelude::*;

verus! {

/// Filtering a list with one more element at its end keeps that element
/// exactly where the predicate holds of it.
pub proof fn lemma_filter_push<A>(s: Seq<A>, x: A, pred: spec_fn(A) -> bool)
    ensures
        s.push(x).filter(pred) == if pred(x) {
            s.filter(pred).push(x)
        } else {
            s.filter(pred)
        },
{
    reveal(Seq::filter);
    assert(s.push(x).drop_last() =~= s);
}

/// Filtering the empty list leaves it empty.
pub proof fn lemma_filter_empty<A>(pred: spec_fn(A) -> bool)
    ensures
        Seq::<A>::empty().filter(pred) == Seq::<A>::empty(),
{
    reveal(Seq::filter);
}

/// How often `x` occurs in `s`.
pub open spec fn occurrences<A>(s: Seq<A>, x: A) -> nat
    decreases s.len(),
{
    if s.len() == 0 {
        0
    } else {
        occurrences(s.drop_last(), x) + if s.last() == x {
            1nat
        } else {
            0nat
        }
    }
}

/// One more element at the end counts once where it is `x`.
pub proof fn lemma_occurrences_push<A>(s: Seq<A>, y: A, x: A)
    ensures
        occurrences(s.push(y), x) == occurrences(s, x) + if y == x {
            1nat
        } else {
            0nat
        },
{
    assert(s.push(y).drop_last() =~= s);
}

/// An element occurs in a list exactly where the list contains it.
pub proof fn lemma_occurrences_contains<A>(s: Seq<A>, x: A)
    ensures
        occurrences(s, x) > 0 <==> s.contains(x),
    decreases s.len(),
{
    if s.len() > 0 {
        lemma_occurrences_contains(s.drop_last(), x);
        if s.contains(x) {
            let i = choose|i: int| 0 <= i < s.len() && s[i] == x;
            if i < s.len() - 1 {
                assert(s.drop_last()[i] == x);
            }
        }
        if s.drop_last().contains(x) {
            let i = choose|i: int| 0 <= i < s.drop_last().len() && s.drop_last()[i] == x;
            assert(s[i] == x);
        }
        if s.last() == x {
            assert(s[s.len() - 1] == x);
        }
    }
}

/// Taking the element at `i` out counts once less where it is `x`.
pub proof fn lemma_occurrences_remove<A>(s: Seq<A>, i: int, x: A)
    requires
        0 <= i < s.len(),
    ensures
        occurrences(s.remove(i), x) + (if s[i] == x {
            1nat
        } else {
            0nat
        }) == occurrences(s, x),
    decreases s.len(),
{
    if i == s.len() - 1 {
        assert(s.remove(i) =~= s.drop_last());
    } else {
        assert(s.remove(i).drop_last() =~= s.drop_last().remove(i));
        assert(s.remove(i).last() == s.last());
        lemma_occurrences_remove(s.drop_last(), i, x);
    }
}

/// The list without any occurrence of `gone`.
pub open spec fn without<A>(s: Seq<A>, gone: A) -> Seq<A> {
    s.filter(|y: A| y != gone)
}

/// Appending to a list and then dropping every `gone` is dropping first and
/// appending what is not `gone`.
pub proof fn lemma_without_push<A>(s: Seq<A>, x: A, gone: A)
    ensures
        without(s.push(x), gone) == if x != gone {
            without(s, gone).push(x)
        } else {
            without(s, gone)
        },
{
    lemma_filter_push(s, x, |y: A| y != gone);
}

/// Nothing is left of the empty list.
pub proof fn lemma_without_empty<A>(gone: A)
    ensures
        without(Seq::<A>::empty(), gone) == Seq::<A>::empty(),
{
    reveal(Seq::filter);
}

/// Dropping every `gone` leaves none, and keeps the count of everything
/// else.
pub proof fn lemma_occurrences_without<A>(s: Seq<A>, gone: A, x: A)
    ensures
        occurrences(without(s, gone), x) == if x == gone {
            0nat
        } else {
            occurrences(s, x)
        },
    decreases s.len(),
{
    if s.len() == 0 {
        lemma_without_empty(gone);
    } else {
        lemma_occurrences_without(s.drop_last(), gone, x);
        assert(s.drop_last().push(s.last()) =~= s);
        lemma_without_push(s.drop_last(), s.last(), gone);
        if s.last() != gone {
            lemma_occurrences_push(without(s.drop_last(), gone), s.last(), x);
        }
    }
}

/// A list that does not hold `gone` loses nothing.
pub proof fn lemma_without_absent<A>(s: Seq<A>, gone: A)
    requires
        !s.contains(gone),
    ensures
        without(s, gone) == s,
    decreases s.len(),
{
    if s.len() == 0 {
        lemma_without_empty(gone);
    } else {
        assert forall|i: int| 0 <= i < s.drop_last().len() implies s.drop_last()[i] != gone by {
            assert(s[i] == s.drop_last()[i]);
            assert(s.contains(s[i]));
        }
        lemma_without_absent(s.drop_last(), gone);
        assert(s.drop_last().push(s.last()) =~= s);
        lemma_without_push(s.drop_last(), s.last(), gone);
        assert(s.contains(s.last())) by {
            assert(s[s.len() - 1] == s.last());
        }
    }
}

/// Dropping every `gone` a second time changes nothing.
pub proof fn lemma_without_twice<A>(s: Seq<A>, gone: A)
    ensures
        without(without(s, gone), gone) == without(s, gone),
{
    lemma_occurrences_without(s, gone, gone);
    lemma_occurrences_contains(without(s, gone), gone);
    lemma_without_absent(without(s, gone), gone);
}

/// The position of the first `x` in `s`, or the length of `s` where it
/// holds none.
pub open spec fn first_index_of<A>(s: Seq<A>, x: A) -> int
    decreases s.len(),
{
    if s.len() == 0 {
        0
    } else if s[0] == x {
        0
    } else {
        1 + first_index_of(s.drop_first(), x)
    }
}

/// The list without its first `x`; the list itself where it holds none.
pub open spec fn without_first<A>(s: Seq<A>, x: A) -> Seq<A> {
    let i = first_index_of(s, x);
    if i < s.len() {
        s.remove(i)
    } else {
        s
    }
}

/// `first_index_of` is the position before which no `x` stands and at which
/// one does.
pub proof fn lemma_first_index_of<A>(s: Seq<A>, x: A)
    ensures
        0 <= first_index_of(s, x) <= s.len(),
        first_index_of(s, x) < s.len() ==> s[first_index_of(s, x)] == x,
        forall|j: int| 0 <= j < first_index_of(s, x) ==> s[j] != x,
        first_index_of(s, x) < s.len() <==> s.contains(x),
    decreases s.len(),
{
    if s.len() > 0 && s[0] != x {
        let rest = s.drop_first();
        lemma_first_index_of(rest, x);
        let i = first_index_of(s, x);
        assert forall|j: int| 0 <= j < i implies s[j] != x by {
            if j > 0 {
                assert(rest[j - 1] == s[j]);
            }
        }
        if i < s.len() {
            assert(rest[i - 1] == s[i]);
        }
        if s.contains(x) {
            let k = choose|k: int| 0 <= k < s.len() && s[k] == x;
            assert(rest[k - 1] == x);
        }
    } else if s.len() > 0 {
        assert(s[0] == x);
    }
}

/// A position that holds `x` and has no `x` before it is the first.
pub proof fn lemma_first_index_is<A>(s: Seq<A>, x: A, i: int)
    requires
        0 <= i < s.len(),
        s[i] == x,
        forall|j: int| 0 <= j < i ==> s[j] != x,
    ensures
        first_index_of(s, x) == i,
{
    lemma_first_index_of(s, x);
    let f = first_index_of(s, x);
    assert(s.contains(x));
    if f < i {
        assert(s[f] != x);
    }
}

/// What is left after the first `x` was taken out was in the list before.
pub proof fn lemma_without_first_subset<A>(s: Seq<A>, x: A, i: int)
    requires
        0 <= i < without_first(s, x).len(),
    ensures
        s.contains(without_first(s, x)[i]),
{
    lemma_first_index_of(s, x);
    let at = first_index_of(s, x);
    if at < s.len() {
        if i < at {
            assert(s[i] == without_first(s, x)[i]);
        } else {
            assert(s[i + 1] == without_first(s, x)[i]);
        }
    } else {
        assert(s[i] == without_first(s, x)[i]);
    }
}

/// Taking the first `x` out counts `x` once less, where there was one.
pub proof fn lemma_occurrences_without_first<A>(s: Seq<A>, x: A, y: A)
    ensures
        occurrences(without_first(s, x), y) + (if y == x && s.contains(x) {
            1nat
        } else {
            0nat
        }) == occurrences(s, y),
{
    lemma_first_index_of(s, x);
    let i = first_index_of(s, x);
    if i < s.len() {
        lemma_occurrences_remove(s, i, y);
    }
}

} // verus!
