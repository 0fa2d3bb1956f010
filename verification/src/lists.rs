//! Sequences built by walking another sequence in order.

use vstd::prelude::*;

verus! {

/// What `pick` makes of the elements of `s`, in order, leaving out those it
/// makes nothing of.
pub open spec fn picked<A, B>(s: Seq<A>, pick: spec_fn(int, A) -> Option<B>) -> Seq<B>
    decreases s.len(),
{
    if s.len() == 0 {
        Seq::empty()
    } else {
        let before = picked(s.drop_last(), pick);
        match pick(s.len() - 1, s.last()) {
            Some(b) => before.push(b),
            None => before,
        }
    }
}

/// How many elements of `s` satisfy `p`.
pub open spec fn count_where<A>(s: Seq<A>, p: spec_fn(A) -> bool) -> nat
    decreases s.len(),
{
    if s.len() == 0 {
        0
    } else {
        count_where(s.drop_last(), p) + (if p(s.last()) {
            1nat
        } else {
            0nat
        })
    }
}

/// Walking one element further.
pub proof fn lemma_picked_step<A, B>(s: Seq<A>, pick: spec_fn(int, A) -> Option<B>, i: int)
    requires
        0 <= i < s.len(),
    ensures
        picked(s.take(i + 1), pick) == (match pick(i, s[i]) {
            Some(b) => picked(s.take(i), pick).push(b),
            None => picked(s.take(i), pick),
        }),
{
    assert(s.take(i + 1).drop_last() =~= s.take(i));
}

/// Counting one element further.
pub proof fn lemma_count_step<A>(s: Seq<A>, p: spec_fn(A) -> bool, i: int)
    requires
        0 <= i < s.len(),
    ensures
        count_where(s.take(i + 1), p) == count_where(s.take(i), p) + (if p(s[i]) {
            1nat
        } else {
            0nat
        }),
        count_where(s.take(i), p) <= i,
    decreases i,
{
    assert(s.take(i + 1).drop_last() =~= s.take(i));
    if i > 0 {
        lemma_count_step(s, p, i - 1);
    }
}

/// A list with one element more at its end, cut to its last `limit` elements.
pub open spec fn ring_pushed<A>(s: Seq<A>, x: A, limit: int) -> Seq<A> {
    if s.len() + 1 > limit {
        s.push(x).skip(1)
    } else {
        s.push(x)
    }
}

/// A list without the elements at its front that satisfy `p`.
pub open spec fn dropped_while<A>(s: Seq<A>, p: spec_fn(A) -> bool) -> Seq<A>
    decreases s.len(),
{
    if s.len() > 0 && p(s[0]) {
        dropped_while(s.skip(1), p)
    } else {
        s
    }
}

/// A ring never holds more than its limit, and the new element is its last.
pub proof fn law_ring_is_bounded<A>(s: Seq<A>, x: A, limit: int)
    requires
        1 <= limit,
        s.len() <= limit,
    ensures
        ring_pushed(s, x, limit).len() <= limit,
        ring_pushed(s, x, limit).last() == x,
{
}

/// What stays after dropping is the end of the list, and begins with an element
/// that is not dropped.
pub proof fn lemma_dropped_while<A>(s: Seq<A>, p: spec_fn(A) -> bool)
    ensures
        dropped_while(s, p).len() <= s.len(),
        dropped_while(s, p) =~= s.skip(s.len() - dropped_while(s, p).len()),
        dropped_while(s, p).len() > 0 ==> !p(dropped_while(s, p)[0]),
    decreases s.len(),
{
    if s.len() > 0 && p(s[0]) {
        lemma_dropped_while(s.skip(1), p);
    }
}

/// Whether `sources` tells for each picked element where it comes from: the
/// places are in order, each has something made of it, and no place of which
/// something is made is left out.
pub open spec fn are_sources<A, B>(
    s: Seq<A>,
    pick: spec_fn(int, A) -> Option<B>,
    made: Seq<B>,
    sources: Seq<int>,
) -> bool {
    &&& sources.len() == made.len()
    &&& forall|k: int|
        0 <= k < sources.len() ==> 0 <= #[trigger] sources[k] < s.len() && pick(
            sources[k],
            s[sources[k]],
        ) == Some(made[k])
    &&& forall|j: int, k: int|
        0 <= j < k < sources.len() ==> #[trigger] sources[j] < #[trigger] sources[k]
    &&& forall|i: int|
        0 <= i < s.len() && pick(i, #[trigger] s[i]) is Some ==> sources.contains(i)
}

/// Picking keeps the order, leaves out exactly the elements of which nothing is
/// made, and takes none twice.
pub proof fn law_picking_is_exact<A, B>(s: Seq<A>, pick: spec_fn(int, A) -> Option<B>) -> (sources:
    Seq<int>)
    ensures
        are_sources(s, pick, picked(s, pick), sources),
    decreases s.len(),
{
    if s.len() == 0 {
        Seq::empty()
    } else {
        let before = s.drop_last();
        let n = s.len() - 1;
        let earlier = law_picking_is_exact(before, pick);
        let made = picked(s, pick);
        let sources = if pick(n, s.last()) is Some {
            earlier.push(n)
        } else {
            earlier
        };
        assert forall|k: int| 0 <= k < sources.len() implies 0 <= #[trigger] sources[k] < s.len()
            && pick(sources[k], s[sources[k]]) == Some(made[k]) by {
            if k < earlier.len() {
                assert(sources[k] == earlier[k]);
                assert(before[earlier[k]] == s[earlier[k]]);
            }
        }
        assert forall|j: int, k: int| 0 <= j < k < sources.len() implies #[trigger] sources[j]
            < #[trigger] sources[k] by {
            assert(sources[j] == earlier[j]);
            if k < earlier.len() {
                assert(sources[k] == earlier[k]);
            }
        }
        assert forall|i: int| 0 <= i < s.len() && pick(i, #[trigger] s[i]) is Some implies
            sources.contains(i) by {
            if i < n {
                assert(before[i] == s[i]);
                assert(earlier.contains(i));
                let k = choose|k: int| 0 <= k < earlier.len() && earlier[k] == i;
                assert(sources[k] == i);
            } else {
                assert(sources[sources.len() - 1] == i);
            }
        }
        sources
    }
}

/// Counting adds one for each element that satisfies the condition, and nothing
/// else: none are counted in an empty list, and one more element counts exactly
/// where it satisfies the condition.
pub proof fn law_counting_is_exact<A>(s: Seq<A>, x: A, p: spec_fn(A) -> bool)
    ensures
        count_where(Seq::<A>::empty(), p) == 0,
        p(x) ==> count_where(s.push(x), p) == count_where(s, p) + 1,
        !p(x) ==> count_where(s.push(x), p) == count_where(s, p),
        count_where(s, p) <= s.len(),
        count_where(s, p) == 0 <==> forall|i: int| 0 <= i < s.len() ==> !p(#[trigger] s[i]),
    decreases s.len(),
{
    assert(s.push(x).drop_last() =~= s);
    if s.len() > 0 {
        let before = s.drop_last();
        law_counting_is_exact(before, x, p);
        assert(s.last() == s[s.len() - 1]);
        if count_where(s, p) == 0 {
            assert forall|i: int| 0 <= i < s.len() implies !p(#[trigger] s[i]) by {
                if i < before.len() {
                    assert(before[i] == s[i]);
                }
            }
        }
        if forall|i: int| 0 <= i < s.len() ==> !p(#[trigger] s[i]) {
            assert forall|i: int| 0 <= i < before.len() implies !p(#[trigger] before[i]) by {
                assert(before[i] == s[i]);
            }
        }
    }
}

/// A ring keeps its elements in order and drops only the oldest: below its limit
/// nothing is dropped, and at its limit exactly the first one is.
pub proof fn law_ring_drops_only_the_oldest<A>(s: Seq<A>, x: A, limit: int)
    ensures
        s.len() < limit ==> ring_pushed(s, x, limit).len() == s.len() + 1 && (forall|i: int|
            0 <= i < s.len() ==> #[trigger] ring_pushed(s, x, limit)[i] == s[i]),
        s.len() >= limit ==> ring_pushed(s, x, limit).len() == s.len() && (forall|i: int|
            0 <= i < s.len() - 1 ==> #[trigger] ring_pushed(s, x, limit)[i] == s[i + 1]),
        s.len() > 0 || limit > 0 ==> ring_pushed(s, x, limit).last() == x,
{
}

/// Dropping from the front drops exactly the first elements that satisfy the
/// condition: all that is dropped satisfies it, and what stays is the rest of
/// the list and does not begin with one that does.
pub proof fn law_dropping_is_exact<A>(s: Seq<A>, p: spec_fn(A) -> bool)
    ensures
        ({
            let kept = dropped_while(s, p);
            let gone = s.len() - kept.len();
            &&& 0 <= gone
            &&& kept == s.skip(gone)
            &&& forall|i: int| 0 <= i < gone ==> p(#[trigger] s[i])
            &&& kept.len() > 0 ==> !p(kept[0])
        }),
    decreases s.len(),
{
    lemma_dropped_while(s, p);
    if s.len() > 0 && p(s[0]) {
        let rest = s.skip(1);
        law_dropping_is_exact(rest, p);
        let gone = s.len() - dropped_while(s, p).len();
        assert forall|i: int| 0 <= i < gone implies p(#[trigger] s[i]) by {
            if i > 0 {
                assert(rest[i - 1] == s[i]);
            }
        }
    }
}

} // verus!
