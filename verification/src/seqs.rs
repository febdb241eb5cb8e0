//! Facts about sequences that are filtered, mapped and flattened, and copies of vectors.
use std::sync::Arc;
use vstd::prelude::*;

verus! {

/// Filtering and mapping a prefix that grows by one element.
pub proof fn lemma_filter_map_take_succ<A, B>(
    s: Seq<A>,
    i: int,
    keep: spec_fn(A) -> bool,
    f: spec_fn(A) -> B,
)
    requires
        0 <= i < s.len(),
    ensures
        s.take(i + 1).filter(keep) == if keep(s[i]) {
            s.take(i).filter(keep).push(s[i])
        } else {
            s.take(i).filter(keep)
        },
        s.take(i + 1).filter(keep).map_values(f) == if keep(s[i]) {
            s.take(i).filter(keep).map_values(f).push(f(s[i]))
        } else {
            s.take(i).filter(keep).map_values(f)
        },
{
    reveal(Seq::filter);
    assert(s.take(i + 1).drop_last() =~= s.take(i));
    assert(s.take(i + 1).last() == s[i]);
    if keep(s[i]) {
        assert(s.take(i).filter(keep).push(s[i]).map_values(f) =~= s.take(i).filter(
            keep,
        ).map_values(f).push(f(s[i])));
    }
}

/// An element of a filtered sequence is an element of the sequence that passes the filter.
pub proof fn lemma_filter_sound<A>(s: Seq<A>, keep: spec_fn(A) -> bool, x: A)
    requires
        s.filter(keep).contains(x),
    ensures
        s.contains(x),
        keep(x),
    decreases s.len(),
{
    reveal(Seq::filter);
    if s.len() > 0 {
        let rest = s.drop_last().filter(keep);
        if keep(s.last()) && x == s.last() {
            assert(s[s.len() - 1] == x);
        } else {
            let i = choose|i: int| 0 <= i < s.filter(keep).len() && s.filter(keep)[i] == x;
            assert(rest[i] == x);
            lemma_filter_sound(s.drop_last(), keep, x);
            let j = choose|j: int| 0 <= j < s.drop_last().len() && s.drop_last()[j] == x;
            assert(s[j] == x);
        }
    }
}

/// An element of a sequence that passes a filter is an element of the filtered sequence.
pub proof fn lemma_filter_complete<A>(s: Seq<A>, keep: spec_fn(A) -> bool, i: int)
    requires
        0 <= i < s.len(),
        keep(s[i]),
    ensures
        s.filter(keep).contains(s[i]),
    decreases s.len(),
{
    reveal(Seq::filter);
    let rest = s.drop_last().filter(keep);
    if i == s.len() - 1 {
        assert(s.filter(keep)[rest.len() as int] == s[i]);
    } else {
        lemma_filter_complete(s.drop_last(), keep, i);
        let k = choose|k: int| 0 <= k < rest.len() && rest[k] == s[i];
        assert(s.filter(keep)[k] == s[i]);
    }
}

/// Each place of a filtered sequence is that of an element that passes the filter, after as many
/// places as there are such elements before it.
pub proof fn lemma_filter_place<A>(s: Seq<A>, keep: spec_fn(A) -> bool, place: int)
    requires
        0 <= place < s.filter(keep).len(),
    ensures
        exists|i: int|
            {
                &&& 0 <= i < s.len()
                &&& keep(#[trigger] s[i])
                &&& s.take(i).filter(keep).len() == place
            },
    decreases s.len(),
{
    reveal(Seq::filter);
    if s.len() > 0 {
        let last = s.len() - 1;
        let others = s.drop_last();
        assert(s.take(last) =~= others);
        if place < others.filter(keep).len() {
            lemma_filter_place(others, keep, place);
            let i = choose|i: int|
                {
                    &&& 0 <= i < others.len()
                    &&& keep(#[trigger] others[i])
                    &&& others.take(i).filter(keep).len() == place
                };
            assert(others.take(i) =~= s.take(i));
            assert(keep(s[i]));
        } else {
            assert(keep(s[last]));
        }
    }
}

/// A filter that every element passes changes nothing.
pub proof fn lemma_filter_all<A>(s: Seq<A>, keep: spec_fn(A) -> bool)
    requires
        forall|i: int| 0 <= i < s.len() ==> keep(#[trigger] s[i]),
    ensures
        s.filter(keep) == s,
    decreases s.len(),
{
    reveal(Seq::filter);
    if s.len() > 0 {
        assert(keep(s[s.len() - 1]));
        assert forall|i: int| 0 <= i < s.drop_last().len() implies keep(
            #[trigger] s.drop_last()[i],
        ) by {
            assert(s.drop_last()[i] == s[i]);
        }
        lemma_filter_all(s.drop_last(), keep);
        assert(s.drop_last().push(s.last()) =~= s);
    }
}

/// A filter that no element passes leaves nothing.
pub proof fn lemma_filter_none<A>(s: Seq<A>, keep: spec_fn(A) -> bool)
    requires
        forall|i: int| 0 <= i < s.len() ==> !keep(#[trigger] s[i]),
    ensures
        s.filter(keep) == Seq::<A>::empty(),
    decreases s.len(),
{
    reveal(Seq::filter);
    if s.len() > 0 {
        assert(!keep(s[s.len() - 1]));
        assert forall|i: int| 0 <= i < s.drop_last().len() implies !keep(
            #[trigger] s.drop_last()[i],
        ) by {
            assert(s.drop_last()[i] == s[i]);
        }
        lemma_filter_none(s.drop_last(), keep);
    }
}

/// What one element comes to is part of what all of them come to.
pub proof fn lemma_flat_map_contains<A, B>(s: Seq<A>, f: spec_fn(A) -> Seq<B>, i: int, k: int)
    requires
        0 <= i < s.len(),
        0 <= k < f(s[i]).len(),
    ensures
        s.flat_map(f).contains(f(s[i])[k]),
    decreases s.len(),
{
    let others = s.drop_last();
    assert(s =~= others.push(s.last()));
    others.lemma_flat_map_push(f, s.last());
    if i == s.len() - 1 {
        assert(s.flat_map(f)[others.flat_map(f).len() + k] == f(s[i])[k]);
    } else {
        lemma_flat_map_contains(others, f, i, k);
        let n = choose|n: int|
            0 <= n < others.flat_map(f).len() && others.flat_map(f)[n] == f(s[i])[k];
        assert(s.flat_map(f)[n] == f(s[i])[k]);
    }
}

/// How many of the first elements pass a test.
pub open spec fn count_before<A>(s: Seq<A>, keep: spec_fn(A) -> bool, n: int) -> int
    decreases n,
{
    if n <= 0 {
        0
    } else {
        count_before(s, keep, n - 1) + if keep(s[n - 1]) {
            1int
        } else {
            0int
        }
    }
}

/// Whether a sequence is made of the elements of another one that pass a test, in order: what is
/// made of each of them stands after as many others as there are such elements before it, and
/// there is nothing else.
pub open spec fn picks<A, B>(
    from: Seq<A>,
    keep: spec_fn(A) -> bool,
    make: spec_fn(A) -> B,
    to: Seq<B>,
) -> bool {
    &&& to.len() == count_before(from, keep, from.len() as int)
    &&& forall|i: int|
        0 <= i < from.len() && keep(#[trigger] from[i]) ==> {
            &&& 0 <= count_before(from, keep, i) < to.len()
            &&& to[count_before(from, keep, i)] == make(from[i])
        }
}

/// Filtering and mapping picks elements.
pub proof fn lemma_filter_map_picks<A, B>(
    s: Seq<A>,
    keep: spec_fn(A) -> bool,
    make: spec_fn(A) -> B,
)
    ensures
        picks(s, keep, make, s.filter(keep).map_values(make)),
    decreases s.len(),
{
    reveal(Seq::filter);
    let all = s.filter(keep).map_values(make);
    if s.len() > 0 {
        let others = s.drop_last();
        let before = others.filter(keep).map_values(make);
        let last = s.len() - 1;
        lemma_filter_map_picks(others, keep, make);
        lemma_count_of_prefix(s, others, keep, last);
        assert forall|i: int| 0 <= i < s.len() && keep(#[trigger] s[i]) implies {
            &&& 0 <= count_before(s, keep, i) < all.len()
            &&& all[count_before(s, keep, i)] == make(s[i])
        } by {
            if i < last {
                lemma_count_of_prefix(s, others, keep, i);
                assert(others[i] == s[i]);
                assert(all[count_before(s, keep, i)] == before[count_before(s, keep, i)]);
            }
        }
    }
}

/// Filtering picks elements as they are.
pub proof fn lemma_filter_picks<A>(s: Seq<A>, keep: spec_fn(A) -> bool)
    ensures
        picks(s, keep, |x: A| x, s.filter(keep)),
{
    let same = |x: A| x;
    lemma_filter_map_picks(s, keep, same);
    assert(s.filter(keep).map_values(same) =~= s.filter(keep));
}

/// What passes among the first elements is the same for sequences that begin alike.
proof fn lemma_count_of_prefix<A>(s: Seq<A>, t: Seq<A>, keep: spec_fn(A) -> bool, n: int)
    requires
        0 <= n <= s.len(),
        n <= t.len(),
        forall|i: int| 0 <= i < n ==> s[i] == t[i],
    ensures
        count_before(s, keep, n) == count_before(t, keep, n),
        0 <= count_before(s, keep, n) <= n,
    decreases n,
{
    if n > 0 {
        lemma_count_of_prefix(s, t, keep, n - 1);
    }
}

/// Every number below the count is that of the elements that pass before one that passes.
pub proof fn lemma_count_reaches<A>(s: Seq<A>, keep: spec_fn(A) -> bool, n: int, k: int)
    requires
        0 <= n <= s.len(),
        0 <= k < count_before(s, keep, n),
    ensures
        exists|i: int| 0 <= i < n && keep(#[trigger] s[i]) && count_before(s, keep, i) == k,
    decreases n,
{
    if k < count_before(s, keep, n - 1) {
        lemma_count_reaches(s, keep, n - 1, k);
    } else {
        assert(keep(s[n - 1]));
    }
}

/// No more elements pass than there are.
pub proof fn lemma_count_bounds<A>(s: Seq<A>, keep: spec_fn(A) -> bool, n: int)
    requires
        0 <= n <= s.len(),
    ensures
        0 <= count_before(s, keep, n) <= n,
{
    lemma_count_of_prefix(s, s, keep, n);
}

/// Picking by two tests that agree on all elements is the same.
pub proof fn lemma_picks_alike<A, B>(
    from: Seq<A>,
    keep: spec_fn(A) -> bool,
    other: spec_fn(A) -> bool,
    make: spec_fn(A) -> B,
    to: Seq<B>,
)
    requires
        picks(from, keep, make, to),
        forall|i: int| 0 <= i < from.len() ==> keep(#[trigger] from[i]) == other(from[i]),
    ensures
        picks(from, other, make, to),
{
    assert forall|n: int| 0 <= n <= from.len() implies #[trigger] count_before(from, keep, n)
        == count_before(from, other, n) by {
        lemma_count_alike(from, keep, other, n);
    }
}

proof fn lemma_count_alike<A>(
    s: Seq<A>,
    keep: spec_fn(A) -> bool,
    other: spec_fn(A) -> bool,
    n: int,
)
    requires
        0 <= n <= s.len(),
        forall|i: int| 0 <= i < s.len() ==> keep(#[trigger] s[i]) == other(s[i]),
    ensures
        count_before(s, keep, n) == count_before(s, other, n),
    decreases n,
{
    if n > 0 {
        lemma_count_alike(s, keep, other, n - 1);
        assert(keep(s[n - 1]) == other(s[n - 1]));
    }
}

/// Another handle on each element.
pub fn clone_arcs<T>(items: &Vec<Arc<T>>) -> (copy: Vec<Arc<T>>)
    ensures
        copy@ == items@,
{
    let mut copy: Vec<Arc<T>> = Vec::new();
    let mut i: usize = 0;
    while i < items.len()
        invariant
            i <= items.len(),
            copy@ =~= items@.take(i as int),
        decreases items.len() - i,
    {
        copy.push(items[i].clone());
        i += 1;
    }
    copy
}

} // verus!
