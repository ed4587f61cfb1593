//! Counting the numbers below a bound that have a property, and filtering
//! lists.

use vstd::prelude::*;

verus! {

/// How many numbers below `n` have the property `p`.
pub open spec fn count_below(n: nat, p: spec_fn(int) -> bool) -> nat
    decreases n,
{
    if n == 0 {
        0
    } else {
        count_below((n - 1) as nat, p) + if p(n - 1) { 1nat } else { 0nat }
    }
}

/// A property that implies another, but for at most one number, counts at
/// most one more.
pub proof fn lemma_count_at_most_one_more(
    n: nat,
    p: spec_fn(int) -> bool,
    q: spec_fn(int) -> bool,
    extra: int,
)
    requires
        forall|i: int| 0 <= i < n && #[trigger] p(i) && i != extra ==> q(i),
    ensures
        count_below(n, p) <= count_below(n, q) + if 0 <= extra < n && p(extra) && !q(extra) {
            1nat
        } else {
            0nat
        },
    decreases n,
{
    if n > 0 {
        lemma_count_at_most_one_more((n - 1) as nat, p, q, extra);
    }
}

/// A property that implies another counts at most as many.
pub proof fn lemma_count_monotone(n: nat, p: spec_fn(int) -> bool, q: spec_fn(int) -> bool)
    requires
        forall|i: int| 0 <= i < n && #[trigger] p(i) ==> q(i),
    ensures
        count_below(n, p) <= count_below(n, q),
{
    lemma_count_at_most_one_more(n, p, q, -1);
}

/// Properties that agree below the bound count the same.
pub proof fn lemma_count_same(n: nat, p: spec_fn(int) -> bool, q: spec_fn(int) -> bool)
    requires
        forall|i: int| 0 <= i < n ==> #[trigger] p(i) == q(i),
    ensures
        count_below(n, p) == count_below(n, q),
{
    lemma_count_monotone(n, p, q);
    assert forall|i: int| 0 <= i < n && #[trigger] q(i) implies p(i) by {
        assert(p(i) == q(i));
    }
    lemma_count_monotone(n, q, p);
}

/// A position that has the property is counted.
pub proof fn lemma_count_positive(n: nat, p: spec_fn(int) -> bool, i: int)
    requires
        0 <= i < n,
    ensures
        p(i) ==> count_below(n, p) > 0,
    decreases n,
{
    if i < n - 1 {
        lemma_count_positive((n - 1) as nat, p, i);
    }
}

/// Where no position has the property, none is counted.
pub proof fn lemma_none_counted(n: nat, p: spec_fn(int) -> bool)
    requires
        forall|i: int| 0 <= i < n ==> !#[trigger] p(i),
    ensures
        count_below(n, p) == 0,
    decreases n,
{
    if n > 0 {
        lemma_none_counted((n - 1) as nat, p);
    }
}

/// A filtered list is as long as the positions that pass are many.
pub proof fn lemma_filter_count<A>(
    s: Seq<A>,
    p: spec_fn(A) -> bool,
    at: spec_fn(int) -> bool,
)
    requires
        forall|i: int| 0 <= i < s.len() ==> #[trigger] at(i) == p(s[i]),
    ensures
        s.filter(p).len() == count_below(s.len(), at),
    decreases s.len(),
{
    reveal(Seq::filter);
    if s.len() > 0 {
        lemma_filter_count(s.drop_last(), p, at);
        assert(at(s.len() - 1) == p(s.last()));
    }
}

/// Filtering twice is filtering by both properties.
pub proof fn lemma_filter_filter<A>(
    s: Seq<A>,
    p: spec_fn(A) -> bool,
    q: spec_fn(A) -> bool,
    both: spec_fn(A) -> bool,
)
    requires
        forall|i: int| 0 <= i < s.len() ==> both(#[trigger] s[i]) == (p(s[i]) && q(s[i])),
    ensures
        s.filter(p).filter(q) == s.filter(both),
    decreases s.len(),
{
    reveal(Seq::filter);
    if s.len() > 0 {
        let front = s.drop_last();
        assert forall|i: int| 0 <= i < front.len() implies both(#[trigger] front[i]) == (p(front[i])
            && q(front[i])) by {
            assert(front[i] == s[i]);
        }
        lemma_filter_filter(front, p, q, both);
        if p(s.last()) {
            assert(s.filter(p).drop_last() =~= front.filter(p));
        }
    } else {
        assert(s.filter(p).filter(q) =~= s.filter(both));
    }
}

/// A filtered list holds what passes of the list.
pub proof fn lemma_filter_contains<A>(s: Seq<A>, p: spec_fn(A) -> bool, x: A)
    ensures
        s.filter(p).contains(x) <==> s.contains(x) && p(x),
    decreases s.len(),
{
    reveal(Seq::filter);
    if s.len() > 0 {
        let front = s.drop_last();
        let filtered = s.filter(p);
        lemma_filter_contains(front, p, x);
        if front.filter(p).contains(x) {
            let k = choose|k: int| 0 <= k < front.filter(p).len() && front.filter(p)[k] == x;
            assert(filtered[k] == x);
        }
        if front.contains(x) {
            let k = choose|k: int| 0 <= k < front.len() && front[k] == x;
            assert(s[k] == x);
        }
        if p(s.last()) {
            assert(filtered[filtered.len() - 1] == s.last());
        }
        assert(s[s.len() - 1] == s.last());
        if s.contains(x) && x != s.last() {
            let k = choose|k: int| 0 <= k < s.len() && s[k] == x;
            assert(front[k] == x);
        }
        if filtered.contains(x) && x != s.last() {
            let k = choose|k: int| 0 <= k < filtered.len() && filtered[k] == x;
            assert(front.filter(p)[k] == x);
        }
    }
}

/// Where an item of a filtered list stood before.
pub proof fn lemma_filter_position<A>(s: Seq<A>, p: spec_fn(A) -> bool, k: int) -> (i: int)
    requires
        0 <= k < s.filter(p).len(),
    ensures
        0 <= i < s.len(),
        s[i] == s.filter(p)[k],
        p(s[i]),
{
    lemma_filter_contains(s, p, s.filter(p)[k]);
    assert(s.contains(s.filter(p)[k]));
    choose|i: int| 0 <= i < s.len() && s[i] == s.filter(p)[k]
}

/// Where an item that passes stands in the filtered list.
pub proof fn lemma_filtered_position<A>(s: Seq<A>, p: spec_fn(A) -> bool, i: int) -> (k: int)
    requires
        0 <= i < s.len(),
        p(s[i]),
    ensures
        0 <= k < s.filter(p).len(),
        s.filter(p)[k] == s[i],
{
    lemma_filter_contains(s, p, s[i]);
    assert(s.contains(s[i]));
    choose|k: int| 0 <= k < s.filter(p).len() && s.filter(p)[k] == s[i]
}

/// Properties that agree on a list filter it alike.
pub proof fn lemma_filter_same<A>(s: Seq<A>, p: spec_fn(A) -> bool, q: spec_fn(A) -> bool)
    requires
        forall|i: int| 0 <= i < s.len() ==> p(#[trigger] s[i]) == q(s[i]),
    ensures
        s.filter(p) == s.filter(q),
    decreases s.len(),
{
    reveal(Seq::filter);
    if s.len() > 0 {
        let front = s.drop_last();
        assert forall|i: int| 0 <= i < front.len() implies p(#[trigger] front[i]) == q(
            front[i],
        ) by {
            assert(front[i] == s[i]);
        }
        lemma_filter_same(front, p, q);
    }
}

/// Filtering a longer prefix adds the next item where it passes.
pub proof fn lemma_filter_take<A>(s: Seq<A>, p: spec_fn(A) -> bool, i: int)
    requires
        0 <= i < s.len(),
    ensures
        s.take(i + 1).filter(p) == if p(s[i]) {
            s.take(i).filter(p).push(s[i])
        } else {
            s.take(i).filter(p)
        },
{
    reveal(Seq::filter);
    assert(s.take(i + 1).drop_last() =~= s.take(i));
}

} // verus!
