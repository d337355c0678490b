//! Combinators on sequences in which the contracts of this library are written.
use vstd::prelude::*;

verus! {

/// The views of the items of a sequence.
pub open spec fn deep<T: View>(s: Seq<T>) -> Seq<T::V> {
    Seq::new(s.len(), |i: int| s[i]@)
}

/// One more item adds its view.
pub broadcast proof fn lemma_deep_push<T: View>(s: Seq<T>, x: T)
    ensures
        #[trigger] deep(s.push(x)) == deep(s).push(x@),
{
    assert(deep(s.push(x)) =~= deep(s).push(x@));
}

/// The view of what an option holds.
pub open spec fn opt<T: View>(o: Option<T>) -> Option<T::V> {
    match o {
        Some(x) => Some(x@),
        None => None,
    }
}

/// What `f` gives for the items of `s`, in order, without the `None`s.
pub open spec fn collect<A, B>(s: Seq<A>, f: spec_fn(A) -> Option<B>) -> Seq<B>
    decreases s.len(),
{
    if s.len() == 0 {
        Seq::empty()
    } else {
        match f(s.last()) {
            Some(b) => collect(s.drop_last(), f).push(b),
            None => collect(s.drop_last(), f),
        }
    }
}

/// The sequences that `f` gives for the items of `s`, one behind the other.
pub open spec fn flat_map<A, B>(s: Seq<A>, f: spec_fn(A) -> Seq<B>) -> Seq<B>
    decreases s.len(),
{
    if s.len() == 0 {
        Seq::empty()
    } else {
        flat_map(s.drop_last(), f) + f(s.last())
    }
}

/// What `f` gives for the first item of `s` for which it gives anything.
pub open spec fn find_map<A, B>(s: Seq<A>, f: spec_fn(A) -> Option<B>) -> Option<B>
    decreases s.len(),
{
    if s.len() == 0 {
        None
    } else {
        match find_map(s.drop_last(), f) {
            Some(b) => Some(b),
            None => f(s.last()),
        }
    }
}

/// Whether `p` holds of an item of `s`.
pub open spec fn some<A>(s: Seq<A>, p: spec_fn(A) -> bool) -> bool {
    exists|i: int| 0 <= i < s.len() && #[trigger] p(s[i])
}

pub proof fn lemma_take_step<A>(s: Seq<A>, i: int)
    requires
        0 <= i < s.len(),
    ensures
        s.take(i + 1).drop_last() == s.take(i),
        s.take(i + 1).last() == s[i],
        s.take(i + 1) == s.take(i).push(s[i]),
{
    assert(s.take(i + 1).drop_last() =~= s.take(i));
    assert(s.take(i + 1) =~= s.take(i).push(s[i]));
}

pub proof fn lemma_take_all<A>(s: Seq<A>)
    ensures
        s.take(s.len() as int) == s,
{
    assert(s.take(s.len() as int) =~= s);
}

/// One more item adds what `f` gives for it to the end.
pub proof fn lemma_collect_step<A, B>(s: Seq<A>, f: spec_fn(A) -> Option<B>, i: int)
    requires
        0 <= i < s.len(),
    ensures
        collect(s.take(i + 1), f) == match f(s[i]) {
            Some(b) => collect(s.take(i), f).push(b),
            None => collect(s.take(i), f),
        },
{
    lemma_take_step(s, i);
}

pub proof fn lemma_flat_map_step<A, B>(s: Seq<A>, f: spec_fn(A) -> Seq<B>, i: int)
    requires
        0 <= i < s.len(),
    ensures
        flat_map(s.take(i + 1), f) == flat_map(s.take(i), f) + f(s[i]),
{
    lemma_take_step(s, i);
}

/// What was found among the first items is what is found among all.
pub proof fn lemma_find_map_prefix<A, B>(s: Seq<A>, f: spec_fn(A) -> Option<B>, i: int)
    requires
        0 <= i <= s.len(),
        find_map(s.take(i), f) is Some,
    ensures
        find_map(s, f) == find_map(s.take(i), f),
    decreases s.len(),
{
    if i == s.len() {
        lemma_take_all(s);
    } else {
        assert(s.drop_last().take(i) =~= s.take(i));
        lemma_find_map_prefix(s.drop_last(), f, i);
    }
}

/// Where nothing was found before, the next item decides.
pub proof fn lemma_find_map_step<A, B>(s: Seq<A>, f: spec_fn(A) -> Option<B>, i: int)
    requires
        0 <= i < s.len(),
        find_map(s.take(i), f) is None,
    ensures
        find_map(s.take(i + 1), f) == f(s[i]),
        f(s[i]) is Some ==> find_map(s, f) == f(s[i]),
{
    lemma_take_step(s, i);
    if f(s[i]) is Some {
        lemma_find_map_prefix(s, f, i + 1);
    }
}

/// Something is found exactly where `f` gives something for an item.
pub proof fn lemma_find_map_some<A, B>(s: Seq<A>, f: spec_fn(A) -> Option<B>)
    ensures
        find_map(s, f) is Some <==> (exists|i: int| 0 <= i < s.len() && (#[trigger] f(s[i])) is Some),
    decreases s.len(),
{
    if s.len() > 0 {
        lemma_find_map_some(s.drop_last(), f);
        assert forall|i: int| 0 <= i < s.drop_last().len() implies s.drop_last()[i] == s[i] by {}
        if find_map(s.drop_last(), f) is Some {
            let i = choose|i: int|
                0 <= i < s.drop_last().len() && (#[trigger] f(s.drop_last()[i])) is Some;
            assert(f(s[i]) is Some);
        } else {
            if f(s.last()) is Some {
                assert(f(s[s.len() - 1]) is Some);
            }
            assert forall|i: int| 0 <= i < s.len() && (#[trigger] f(s[i])) is Some implies i == s.len()
                - 1 by {
                if i < s.len() - 1 {
                    assert(f(s.drop_last()[i]) is Some);
                }
            }
        }
    }
}

/// What is found comes from the first item for which `f` gives something.
pub proof fn lemma_find_map_first<A, B>(s: Seq<A>, f: spec_fn(A) -> Option<B>) -> (i: int)
    requires
        find_map(s, f) is Some,
    ensures
        0 <= i < s.len(),
        find_map(s, f) == f(s[i]),
        forall|j: int| 0 <= j < i ==> (#[trigger] f(s[j])) is None,
    decreases s.len(),
{
    if find_map(s.drop_last(), f) is Some {
        let i = lemma_find_map_first(s.drop_last(), f);
        assert forall|j: int| 0 <= j < i implies (#[trigger] f(s[j])) is None by {
            assert(s.drop_last()[j] == s[j]);
        }
        i
    } else {
        lemma_find_map_some(s.drop_last(), f);
        assert forall|j: int| 0 <= j < s.len() - 1 implies (#[trigger] f(s[j])) is None by {
            assert(s.drop_last()[j] == s[j]);
            assert(!(f(s.drop_last()[j]) is Some));
        }
        s.len() - 1
    }
}

/// An item is collected exactly where `f` gives it for some item of `s`.
pub proof fn lemma_collect_contains<A, B>(s: Seq<A>, f: spec_fn(A) -> Option<B>, b: B)
    ensures
        collect(s, f).contains(b) <==> (exists|i: int|
            0 <= i < s.len() && #[trigger] f(s[i]) == Some(b)),
    decreases s.len(),
{
    if s.len() > 0 {
        let front = s.drop_last();
        lemma_collect_contains(front, f, b);
        assert forall|i: int| 0 <= i < front.len() implies front[i] == s[i] by {}
        if collect(front, f).contains(b) {
            let i = choose|i: int| 0 <= i < front.len() && #[trigger] f(front[i]) == Some(b);
            assert(f(s[i]) == Some(b));
            let k = choose|k: int| 0 <= k < collect(front, f).len() && collect(front, f)[k] == b;
            assert(collect(s, f)[k] == b);
        }
        if f(s.last()) == Some(b) {
            assert(f(s[s.len() - 1]) == Some(b));
            assert(collect(s, f).last() == b);
        }
        if exists|i: int| 0 <= i < s.len() && #[trigger] f(s[i]) == Some(b) {
            let i = choose|i: int| 0 <= i < s.len() && #[trigger] f(s[i]) == Some(b);
            if i < front.len() {
                assert(f(front[i]) == Some(b));
            }
        }
        if collect(s, f).contains(b) && !collect(front, f).contains(b) {
            let k = choose|k: int| 0 <= k < collect(s, f).len() && collect(s, f)[k] == b;
            if k < collect(front, f).len() {
                assert(collect(front, f)[k] == b);
            }
            assert(f(s.last()) == Some(b));
        }
    }
}

/// Nothing is collected exactly where `f` gives nothing for any item.
pub proof fn lemma_collect_empty<A, B>(s: Seq<A>, f: spec_fn(A) -> Option<B>)
    ensures
        collect(s, f).len() == 0 <==> (forall|i: int|
            0 <= i < s.len() ==> (#[trigger] f(s[i])) is None),
    decreases s.len(),
{
    if s.len() > 0 {
        let front = s.drop_last();
        lemma_collect_empty(front, f);
        assert forall|i: int| 0 <= i < front.len() implies front[i] == s[i] by {}
        if collect(s, f).len() == 0 {
            assert forall|i: int| 0 <= i < s.len() implies (#[trigger] f(s[i])) is None by {
                if i < front.len() {
                    assert(f(front[i]) is None);
                }
            }
        }
        if forall|i: int| 0 <= i < s.len() ==> (#[trigger] f(s[i])) is None {
            assert forall|i: int| 0 <= i < front.len() implies (#[trigger] f(front[i])) is None by {
                assert(f(s[i]) is None);
            }
            assert(f(s[s.len() - 1]) is None);
        }
    }
}

/// The concatenation is empty exactly where each of its parts is.
pub proof fn lemma_flat_map_empty<A, B>(s: Seq<A>, f: spec_fn(A) -> Seq<B>)
    ensures
        flat_map(s, f).len() == 0 <==> (forall|i: int|
            0 <= i < s.len() ==> (#[trigger] f(s[i])).len() == 0),
    decreases s.len(),
{
    if s.len() > 0 {
        let front = s.drop_last();
        lemma_flat_map_empty(front, f);
        assert forall|i: int| 0 <= i < front.len() implies front[i] == s[i] by {}
        if flat_map(s, f).len() == 0 {
            assert forall|i: int| 0 <= i < s.len() implies (#[trigger] f(s[i])).len() == 0 by {
                if i < front.len() {
                    assert(f(front[i]).len() == 0);
                }
            }
        }
        if forall|i: int| 0 <= i < s.len() ==> (#[trigger] f(s[i])).len() == 0 {
            assert forall|i: int| 0 <= i < front.len() implies (#[trigger] f(front[i])).len()
                == 0 by {
                assert(f(s[i]).len() == 0);
            }
            assert(f(s[s.len() - 1]).len() == 0);
        }
    }
}

/// One more item counts for itself.
pub proof fn lemma_some_step<A>(s: Seq<A>, p: spec_fn(A) -> bool, i: int)
    requires
        0 <= i < s.len(),
    ensures
        some(s.take(i + 1), p) == (some(s.take(i), p) || p(s[i])),
{
    if some(s.take(i), p) {
        let j = choose|j: int| 0 <= j < i && #[trigger] p(s.take(i)[j]);
        assert(p(s.take(i + 1)[j]));
    }
    assert(s.take(i + 1)[i] == s[i]);
    if some(s.take(i + 1), p) {
        let j = choose|j: int| 0 <= j < i + 1 && #[trigger] p(s.take(i + 1)[j]);
        if j < i {
            assert(p(s.take(i)[j]));
        }
    }
}

/// Where `f` and `g` give the same for the items of two sequences, the same is
/// collected from both.
pub proof fn lemma_collect_same<A, B, C>(
    s: Seq<A>,
    t: Seq<B>,
    f: spec_fn(A) -> Option<C>,
    g: spec_fn(B) -> Option<C>,
)
    requires
        s.len() == t.len(),
        forall|i: int| 0 <= i < s.len() ==> f(#[trigger] s[i]) == g(t[i]),
    ensures
        collect(s, f) == collect(t, g),
    decreases s.len(),
{
    if s.len() > 0 {
        assert forall|i: int| 0 <= i < s.len() - 1 implies f(#[trigger] s.drop_last()[i]) == g(
            t.drop_last()[i],
        ) by {
            assert(f(s[i]) == g(t[i]));
        }
        lemma_collect_same(s.drop_last(), t.drop_last(), f, g);
        assert(f(s[s.len() - 1]) == g(t[s.len() - 1]));
    }
}

/// Where `g` gives for the items of one sequence what `h` makes of what `f` gives
/// for those of another, the same holds of what is collected.
pub proof fn lemma_collect_mapped<A, B, C, D>(
    s: Seq<A>,
    t: Seq<B>,
    f: spec_fn(A) -> Option<C>,
    g: spec_fn(B) -> Option<D>,
    h: spec_fn(C) -> D,
)
    requires
        s.len() == t.len(),
        forall|i: int| 0 <= i < s.len() ==> g(t[i]) == mapped(f(#[trigger] s[i]), h),
    ensures
        collect(t, g) == collect(s, f).map_values(h),
    decreases s.len(),
{
    if s.len() > 0 {
        assert forall|i: int| 0 <= i < s.len() - 1 implies g(t.drop_last()[i]) == mapped(
            f(#[trigger] s.drop_last()[i]),
            h,
        ) by {
            assert(g(t[i]) == mapped(f(s[i]), h));
        }
        lemma_collect_mapped(s.drop_last(), t.drop_last(), f, g, h);
        assert(g(t[s.len() - 1]) == mapped(f(s[s.len() - 1]), h));
    }
    assert(collect(t, g) =~= collect(s, f).map_values(h));
}

/// What `h` makes of what an option holds.
pub open spec fn mapped<A, B>(o: Option<A>, h: spec_fn(A) -> B) -> Option<B> {
    match o {
        Some(x) => Some(h(x)),
        None => None,
    }
}

/// Where `g` gives for the items of one sequence what `h` makes of what `f` gives
/// for those of another, the same holds of what is found.
pub proof fn lemma_find_map_mapped<A, B, C, D>(
    s: Seq<A>,
    t: Seq<B>,
    f: spec_fn(A) -> Option<C>,
    g: spec_fn(B) -> Option<D>,
    h: spec_fn(C) -> D,
)
    requires
        s.len() == t.len(),
        forall|i: int| 0 <= i < s.len() ==> g(t[i]) == mapped(f(#[trigger] s[i]), h),
    ensures
        find_map(t, g) == mapped(find_map(s, f), h),
    decreases s.len(),
{
    if s.len() > 0 {
        assert forall|i: int| 0 <= i < s.len() - 1 implies g(t.drop_last()[i]) == mapped(
            f(#[trigger] s.drop_last()[i]),
            h,
        ) by {
            assert(g(t[i]) == mapped(f(s[i]), h));
        }
        lemma_find_map_mapped(s.drop_last(), t.drop_last(), f, g, h);
        assert(g(t[s.len() - 1]) == mapped(f(s[s.len() - 1]), h));
    }
}

/// Where `f` and `g` give the same for the items of two sequences, the same is
/// found in both.
pub proof fn lemma_find_map_same<A, B, C>(
    s: Seq<A>,
    t: Seq<B>,
    f: spec_fn(A) -> Option<C>,
    g: spec_fn(B) -> Option<C>,
)
    requires
        s.len() == t.len(),
        forall|i: int| 0 <= i < s.len() ==> f(#[trigger] s[i]) == g(t[i]),
    ensures
        find_map(s, f) == find_map(t, g),
    decreases s.len(),
{
    if s.len() > 0 {
        assert forall|i: int| 0 <= i < s.len() - 1 implies f(#[trigger] s.drop_last()[i]) == g(
            t.drop_last()[i],
        ) by {
            assert(f(s[i]) == g(t[i]));
        }
        lemma_find_map_same(s.drop_last(), t.drop_last(), f, g);
        assert(f(s[s.len() - 1]) == g(t[s.len() - 1]));
    }
}

/// Where `f` and `g` give the same for the items of two sequences, what they give
/// for all of them is the same.
pub proof fn lemma_flat_map_same<A, B, C>(
    s: Seq<A>,
    t: Seq<B>,
    f: spec_fn(A) -> Seq<C>,
    g: spec_fn(B) -> Seq<C>,
)
    requires
        s.len() == t.len(),
        forall|i: int| 0 <= i < s.len() ==> f(#[trigger] s[i]) == g(t[i]),
    ensures
        flat_map(s, f) == flat_map(t, g),
    decreases s.len(),
{
    if s.len() > 0 {
        assert forall|i: int| 0 <= i < s.len() - 1 implies f(#[trigger] s.drop_last()[i]) == g(
            t.drop_last()[i],
        ) by {
            assert(f(s[i]) == g(t[i]));
        }
        lemma_flat_map_same(s.drop_last(), t.drop_last(), f, g);
        assert(f(s[s.len() - 1]) == g(t[s.len() - 1]));
    }
}

/// Where `p` and `q` agree on the items of two sequences, `p` holds of one of the
/// first exactly where `q` holds of one of the second.
pub proof fn lemma_some_same<A, B>(
    s: Seq<A>,
    t: Seq<B>,
    p: spec_fn(A) -> bool,
    q: spec_fn(B) -> bool,
)
    requires
        s.len() == t.len(),
        forall|i: int| 0 <= i < s.len() ==> p(#[trigger] s[i]) == q(t[i]),
    ensures
        some(s, p) == some(t, q),
{
    if some(s, p) {
        let i = choose|i: int| 0 <= i < s.len() && #[trigger] p(s[i]);
        assert(q(t[i]));
    }
    if some(t, q) {
        let i = choose|i: int| 0 <= i < t.len() && #[trigger] q(t[i]);
        assert(p(s[i]));
    }
}

/// An item stands in a concatenation exactly where it stands in one of the parts.
pub proof fn lemma_flat_map_contains<A, B>(s: Seq<A>, f: spec_fn(A) -> Seq<B>, b: B)
    ensures
        flat_map(s, f).contains(b) <==> (exists|i: int|
            0 <= i < s.len() && (#[trigger] f(s[i])).contains(b)),
    decreases s.len(),
{
    if s.len() > 0 {
        let front = s.drop_last();
        let before = flat_map(front, f);
        let here = f(s.last());
        lemma_flat_map_contains(front, f, b);
        if before.contains(b) {
            let k = choose|k: int| 0 <= k < before.len() && before[k] == b;
            assert((before + here)[k] == b);
            let i = choose|i: int| 0 <= i < front.len() && (#[trigger] f(front[i])).contains(b);
            assert(f(s[i]).contains(b));
        }
        if here.contains(b) {
            let k = choose|k: int| 0 <= k < here.len() && here[k] == b;
            assert((before + here)[before.len() + k] == b);
            assert(f(s[s.len() - 1]).contains(b));
        }
        if flat_map(s, f).contains(b) && !before.contains(b) {
            let k = choose|k: int| 0 <= k < (before + here).len() && (before + here)[k] == b;
            if k < before.len() {
                assert(before[k] == b);
            }
            assert(here[k - before.len()] == b);
        }
        if exists|i: int| 0 <= i < s.len() && (#[trigger] f(s[i])).contains(b) {
            let i = choose|i: int| 0 <= i < s.len() && (#[trigger] f(s[i])).contains(b);
            if i < front.len() {
                assert(f(front[i]).contains(b));
            }
        }
    }
}

/// What `f` gives for each of two items is collected.
pub proof fn lemma_collect_two<A, B>(s: Seq<A>, f: spec_fn(A) -> Option<B>, i: int, j: int)
    requires
        0 <= i < j < s.len(),
        f(s[i]) is Some,
        f(s[j]) is Some,
    ensures
        collect(s, f).len() >= 2,
    decreases s.len(),
{
    let front = s.drop_last();
    if j < s.len() - 1 {
        lemma_collect_two(front, f, i, j);
    } else {
        lemma_collect_empty(front, f);
        assert(f(front[i]) is Some);
    }
}

/// Where more than one value comes out, two items give one.
pub proof fn lemma_collect_several<A, B>(s: Seq<A>, f: spec_fn(A) -> Option<B>)
    requires
        collect(s, f).len() > 1,
    ensures
        exists|i: int, j: int|
            0 <= i < j < s.len() && (#[trigger] f(s[i])) is Some && (#[trigger] f(s[j])) is Some,
    decreases s.len(),
{
    let front = s.drop_last();
    assert forall|i: int| 0 <= i < front.len() implies front[i] == s[i] by {}
    if collect(front, f).len() > 1 {
        lemma_collect_several(front, f);
        let (i, j) = choose|i: int, j: int|
            0 <= i < j < front.len() && (#[trigger] f(front[i])) is Some && (#[trigger] f(
                front[j],
            )) is Some;
        assert(f(s[i]) is Some && f(s[j]) is Some);
    } else {
        lemma_collect_empty(front, f);
        let i = choose|i: int| 0 <= i < front.len() && (#[trigger] f(front[i])) is Some;
        assert(f(s[i]) is Some && f(s[s.len() - 1]) is Some);
    }
}

/// What is collected from two sequences one behind the other is what is collected
/// from each.
pub proof fn lemma_collect_add<A, B>(s: Seq<A>, t: Seq<A>, f: spec_fn(A) -> Option<B>)
    ensures
        collect(s + t, f) == collect(s, f) + collect(t, f),
    decreases t.len(),
{
    if t.len() == 0 {
        assert(s + t =~= s);
        assert(collect(s, f) + collect(t, f) =~= collect(s, f));
    } else {
        lemma_collect_add(s, t.drop_last(), f);
        assert((s + t).drop_last() =~= s + t.drop_last());
        assert((s + t).last() == t.last());
        assert(collect(s + t, f) =~= collect(s, f) + collect(t, f));
    }
}

/// What is collected from one item is what `f` gives for it.
pub proof fn lemma_collect_one<A, B>(x: A, f: spec_fn(A) -> Option<B>)
    ensures
        collect(seq![x], f) == match f(x) {
            Some(b) => seq![b],
            None => Seq::empty(),
        },
{
    reveal_with_fuel(collect, 2);
    assert(seq![x].drop_last() =~= Seq::empty());
    assert(collect(seq![x], f) =~= match f(x) {
        Some(b) => seq![b],
        None => Seq::empty(),
    });
}

/// Where `f` gives `g` of the items of which `p` holds and nothing for the others,
/// collecting is to filter and then to map.
pub proof fn lemma_collect_filter<A, B>(
    s: Seq<A>,
    f: spec_fn(A) -> Option<B>,
    p: spec_fn(A) -> bool,
    g: spec_fn(A) -> B,
)
    requires
        forall|i: int|
            0 <= i < s.len() ==> f(#[trigger] s[i]) == if p(s[i]) {
                Some(g(s[i]))
            } else {
                None
            },
    ensures
        collect(s, f) == s.filter(p).map_values(g),
    decreases s.len(),
{
    reveal(Seq::filter);
    if s.len() > 0 {
        let front = s.drop_last();
        assert forall|i: int| 0 <= i < front.len() implies f(#[trigger] front[i]) == if p(front[i]) {
            Some(g(front[i]))
        } else {
            None
        } by {
            assert(front[i] == s[i]);
        }
        lemma_collect_filter(front, f, p, g);
        assert(f(s[s.len() - 1]) == if p(s.last()) {
            Some(g(s.last()))
        } else {
            None
        });
    }
    assert(collect(s, f) =~= s.filter(p).map_values(g));
}

/// Where `f` gives the items themselves of which `p` holds, collecting is to
/// filter.
pub proof fn lemma_collect_is_filter<A>(s: Seq<A>, f: spec_fn(A) -> Option<A>, p: spec_fn(A) -> bool)
    requires
        forall|i: int|
            0 <= i < s.len() ==> f(#[trigger] s[i]) == if p(s[i]) {
                Some(s[i])
            } else {
                None
            },
    ensures
        collect(s, f) == s.filter(p),
{
    let g = |x: A| x;
    lemma_collect_filter(s, f, p, g);
    assert(s.filter(p).map_values(g) =~= s.filter(p));
}

/// What is given for two sequences one behind the other is what is given for each.
pub proof fn lemma_flat_map_add<A, B>(s: Seq<A>, t: Seq<A>, f: spec_fn(A) -> Seq<B>)
    ensures
        flat_map(s + t, f) == flat_map(s, f) + flat_map(t, f),
    decreases t.len(),
{
    if t.len() == 0 {
        assert(s + t =~= s);
        assert(flat_map(s, f) + flat_map(t, f) =~= flat_map(s, f));
    } else {
        lemma_flat_map_add(s, t.drop_last(), f);
        assert((s + t).drop_last() =~= s + t.drop_last());
        assert((s + t).last() == t.last());
        assert(flat_map(s + t, f) =~= flat_map(s, f) + flat_map(t, f));
    }
}

/// What is given for one item is what `f` gives for it.
pub proof fn lemma_flat_map_one<A, B>(x: A, f: spec_fn(A) -> Seq<B>)
    ensures
        flat_map(seq![x], f) == f(x),
{
    reveal_with_fuel(flat_map, 2);
    assert(seq![x].drop_last() =~= Seq::empty());
    assert(flat_map(seq![x], f) =~= f(x));
}

/// Where `f` gives something for the item at `i` and nothing for those before it,
/// that is what is found.
pub proof fn lemma_find_map_at<A, B>(s: Seq<A>, f: spec_fn(A) -> Option<B>, i: int)
    requires
        0 <= i < s.len(),
        f(s[i]) is Some,
        forall|j: int| 0 <= j < i ==> (#[trigger] f(s[j])) is None,
    ensures
        find_map(s, f) == f(s[i]),
{
    lemma_find_map_some(s, f);
    let k = lemma_find_map_first(s, f);
    if k < i {
        assert(f(s[k]) is None);
    }
    if i < k {
        assert(f(s[i]) is None);
    }
}

/// Whether two options hold nothing, or things that are related.
pub open spec fn related<A, B>(a: Option<A>, b: Option<B>, r: spec_fn(A, B) -> bool) -> bool {
    match (a, b) {
        (Some(x), Some(y)) => r(x, y),
        (None, None) => true,
        _ => false,
    }
}

/// Where `f` and `g` give related things for the items of two sequences, what is
/// collected from them is related, item by item.
pub proof fn lemma_collect_related<A, B, C, D>(
    s: Seq<A>,
    t: Seq<B>,
    f: spec_fn(A) -> Option<C>,
    g: spec_fn(B) -> Option<D>,
    r: spec_fn(C, D) -> bool,
)
    requires
        s.len() == t.len(),
        forall|i: int| 0 <= i < s.len() ==> related(f(#[trigger] s[i]), g(t[i]), r),
    ensures
        collect(s, f).len() == collect(t, g).len(),
        forall|i: int|
            0 <= i < collect(s, f).len() ==> r(#[trigger] collect(s, f)[i], collect(t, g)[i]),
    decreases s.len(),
{
    if s.len() > 0 {
        assert forall|i: int| 0 <= i < s.len() - 1 implies related(
            f(#[trigger] s.drop_last()[i]),
            g(t.drop_last()[i]),
            r,
        ) by {
            assert(related(f(s[i]), g(t[i]), r));
        }
        lemma_collect_related(s.drop_last(), t.drop_last(), f, g, r);
        assert(related(f(s[s.len() - 1]), g(t[s.len() - 1]), r));
        let a = collect(s.drop_last(), f);
        let b = collect(t.drop_last(), g);
        assert forall|i: int| 0 <= i < collect(s, f).len() implies r(
            #[trigger] collect(s, f)[i],
            collect(t, g)[i],
        ) by {
            if i < a.len() {
                assert(r(a[i], b[i]));
            }
        }
    }
}

} // verus!
