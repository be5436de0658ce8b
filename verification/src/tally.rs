//! Weighted counting over sequences, and how a count moves when the
//! sequence grows at the back, shrinks at the front or changes in place.

use vstd::prelude::*;

verus! {

/// The sum of `weight` over the elements of `s`.
pub open spec fn tally<A>(s: Seq<A>, weight: spec_fn(A) -> nat) -> nat
    decreases s.len(),
{
    if s.len() == 0 {
        0
    } else {
        tally(s.drop_last(), weight) + weight(s.last())
    }
}

/// Appending an element adds its weight.
pub proof fn lemma_tally_push<A>(s: Seq<A>, a: A, weight: spec_fn(A) -> nat)
    ensures
        tally(s.push(a), weight) == tally(s, weight) + weight(a),
{
    assert(s.push(a).drop_last() =~= s);
}

/// The count of a concatenation is the sum of the counts of its parts.
pub proof fn lemma_tally_concat<A>(s: Seq<A>, t: Seq<A>, weight: spec_fn(A) -> nat)
    ensures
        tally(s + t, weight) == tally(s, weight) + tally(t, weight),
    decreases t.len(),
{
    if t.len() == 0 {
        assert(s + t =~= s);
    } else {
        lemma_tally_concat(s, t.drop_last(), weight);
        assert((s + t).drop_last() =~= s + t.drop_last());
    }
}

/// Removing the first element takes its weight away.
pub proof fn lemma_tally_drop_first<A>(s: Seq<A>, weight: spec_fn(A) -> nat)
    requires
        s.len() > 0,
    ensures
        tally(s, weight) == weight(s[0]) + tally(s.drop_first(), weight),
{
    let head = seq![s[0]];
    assert(head.drop_last() =~= Seq::<A>::empty());
    assert(tally(head.drop_last(), weight) == 0);
    assert(head.last() == s[0]);
    assert(tally(head, weight) == weight(s[0]));
    assert(s =~= head + s.drop_first());
    lemma_tally_concat(head, s.drop_first(), weight);
}

/// Replacing one element exchanges its weight for that of its replacement.
pub proof fn lemma_tally_update<A>(s: Seq<A>, i: int, a: A, weight: spec_fn(A) -> nat)
    requires
        0 <= i < s.len(),
    ensures
        tally(s.update(i, a), weight) + weight(s[i]) == tally(s, weight) + weight(a),
    decreases s.len(),
{
    if i == s.len() - 1 {
        assert(s.update(i, a).drop_last() =~= s.drop_last());
    } else {
        lemma_tally_update(s.drop_last(), i, a, weight);
        assert(s.update(i, a).drop_last() =~= s.drop_last().update(i, a));
    }
}

/// Where no element weighs more than one, the count stays below the length
/// as soon as one element weighs nothing.
pub proof fn lemma_tally_bound<A>(s: Seq<A>, weight: spec_fn(A) -> nat)
    requires
        forall|i: int| 0 <= i < s.len() ==> weight(#[trigger] s[i]) <= 1,
    ensures
        tally(s, weight) <= s.len(),
        (exists|i: int| 0 <= i < s.len() && weight(#[trigger] s[i]) == 0) ==> tally(s, weight)
            < s.len(),
    decreases s.len(),
{
    if s.len() > 0 {
        let front = s.drop_last();
        assert forall|i: int| 0 <= i < front.len() implies weight(#[trigger] front[i]) <= 1 by {
            assert(front[i] == s[i]);
        }
        lemma_tally_bound(front, weight);
        if exists|i: int| 0 <= i < s.len() && weight(#[trigger] s[i]) == 0 {
            let i = choose|i: int| 0 <= i < s.len() && weight(#[trigger] s[i]) == 0;
            if i < front.len() {
                assert(front[i] == s[i]);
            }
        }
    }
}

/// A count of zero means that every element weighs nothing, and the other
/// way round.
pub proof fn lemma_tally_zero<A>(s: Seq<A>, weight: spec_fn(A) -> nat)
    ensures
        tally(s, weight) == 0 <==> forall|i: int| 0 <= i < s.len() ==> weight(#[trigger] s[i]) == 0,
    decreases s.len(),
{
    if s.len() > 0 {
        let front = s.drop_last();
        lemma_tally_zero(front, weight);
        if tally(s, weight) == 0 {
            assert forall|i: int| 0 <= i < s.len() implies weight(#[trigger] s[i]) == 0 by {
                if i < front.len() {
                    assert(front[i] == s[i]);
                }
            }
        }
        if forall|i: int| 0 <= i < s.len() ==> weight(#[trigger] s[i]) == 0 {
            assert forall|i: int| 0 <= i < front.len() implies weight(#[trigger] front[i])
                == 0 by {
                assert(front[i] == s[i]);
            }
            assert(weight(s[s.len() - 1]) == 0);
        }
    }
}

/// Where every element weighs the same, the count is that weight times the
/// length.
pub proof fn lemma_tally_uniform<A>(s: Seq<A>, weight: spec_fn(A) -> nat, each: nat)
    requires
        forall|i: int| 0 <= i < s.len() ==> weight(#[trigger] s[i]) == each,
    ensures
        tally(s, weight) == each * s.len(),
    decreases s.len(),
{
    if s.len() > 0 {
        let front = s.drop_last();
        assert forall|i: int| 0 <= i < front.len() implies weight(#[trigger] front[i])
            == each by {
            assert(front[i] == s[i]);
        }
        lemma_tally_uniform(front, weight, each);
        assert(weight(s[s.len() - 1]) == each);
        assert(each * s.len() == each * front.len() + each) by (nonlinear_arith)
            requires
                s.len() == front.len() + 1,
        ;
    } else {
        assert(each * s.len() == 0) by (nonlinear_arith)
            requires
                s.len() == 0,
        ;
    }
}

} // verus!
