//! Counting how often a value occurs in a sequence.

use vstd::prelude::*;

verus! {

/// The number of positions of `s` that hold `a`.
pub open spec fn count<A>(s: Seq<A>, a: A) -> nat
    decreases s.len(),
{
    if s.len() == 0 {
        0
    } else {
        count(s.drop_last(), a) + if s.last() == a {
            1nat
        } else {
            0nat
        }
    }
}

/// A sequence holds a value at most as often as it has positions.
pub proof fn lemma_count_bounded<A>(s: Seq<A>, a: A)
    ensures
        count(s, a) <= s.len(),
    decreases s.len(),
{
    if s.len() > 0 {
        lemma_count_bounded(s.drop_last(), a);
    }
}

/// Counting over a prefix that grows by one position.
pub proof fn lemma_count_step<A>(s: Seq<A>, a: A, i: int)
    requires
        0 <= i < s.len(),
    ensures
        count(s.take(i + 1), a) == count(s.take(i), a) + if s[i] == a {
            1nat
        } else {
            0nat
        },
{
    assert(s.take(i + 1).drop_last() =~= s.take(i));
}

/// A value is counted in a sequence exactly if some position holds it.
pub proof fn lemma_count_positive<A>(s: Seq<A>, a: A)
    ensures
        count(s, a) > 0 <==> exists|i: int| 0 <= i < s.len() && s[i] == a,
    decreases s.len(),
{
    if s.len() > 0 {
        let init = s.drop_last();
        lemma_count_positive(init, a);
        if count(init, a) > 0 {
            let i = choose|i: int| 0 <= i < init.len() && init[i] == a;
            assert(s[i] == a);
        }
        if exists|i: int| 0 <= i < s.len() && s[i] == a {
            let i = choose|i: int| 0 <= i < s.len() && s[i] == a;
            if i < s.len() - 1 {
                assert(init[i] == a);
            }
        }
    }
}

/// What replacing one position does to a count.
pub proof fn lemma_count_update<A>(s: Seq<A>, i: int, v: A, a: A)
    requires
        0 <= i < s.len(),
    ensures
        count(s.update(i, v), a) + (if s[i] == a {
            1nat
        } else {
            0nat
        }) == count(s, a) + (if v == a {
            1nat
        } else {
            0nat
        }),
    decreases s.len(),
{
    let t = s.update(i, v);
    if i == s.len() - 1 {
        assert(t.drop_last() =~= s.drop_last());
    } else {
        assert(t.drop_last() =~= s.drop_last().update(i, v));
        lemma_count_update(s.drop_last(), i, v, a);
    }
}

/// Counting from the front: the first position, then the rest.
pub proof fn lemma_count_front<A>(s: Seq<A>, a: A)
    requires
        s.len() > 0,
    ensures
        count(s, a) == count(s.skip(1), a) + if s.first() == a {
            1nat
        } else {
            0nat
        },
    decreases s.len(),
{
    if s.len() == 1 {
        assert(s.skip(1) =~= s.drop_last());
    } else {
        lemma_count_front(s.drop_last(), a);
        assert(s.drop_last().skip(1) =~= s.skip(1).drop_last());
    }
}

/// The count over two sequences put together is the sum of their counts.
pub proof fn lemma_count_concat<A>(s: Seq<A>, t: Seq<A>, a: A)
    ensures
        count(s + t, a) == count(s, a) + count(t, a),
    decreases t.len(),
{
    if t.len() == 0 {
        assert(s + t =~= s);
    } else {
        lemma_count_concat(s, t.drop_last(), a);
        assert((s + t).drop_last() =~= s + t.drop_last());
    }
}

/// A sequence of one position counts the value it holds once, and no
/// other.
pub proof fn lemma_count_single<A>(x: A, a: A)
    ensures
        count(seq![x], a) == if x == a {
            1nat
        } else {
            0nat
        },
{
    let s = seq![x];
    assert(s.len() == 1);
    assert(s.drop_last() =~= Seq::<A>::empty());
    assert(count(s.drop_last(), a) == 0);
    assert(s.last() == x);
}

/// The number of positions of `s` from `from` on that hold `a`, counted
/// from the front.
pub open spec fn count_from<A>(s: Seq<A>, a: A, from: int) -> nat
    decreases s.len() - from,
{
    if from < 0 || from >= s.len() {
        0
    } else {
        count_from(s, a, from + 1) + if s[from] == a {
            1nat
        } else {
            0nat
        }
    }
}

/// Counting from the front gives the same number as `count`.
pub proof fn lemma_count_from<A>(s: Seq<A>, a: A, from: int)
    requires
        0 <= from <= s.len(),
    ensures
        count_from(s, a, from) == count(s.skip(from), a),
    decreases s.len() - from,
{
    if from < s.len() {
        lemma_count_from(s, a, from + 1);
        lemma_count_front(s.skip(from), a);
        assert(s.skip(from).skip(1) =~= s.skip(from + 1));
    }
}

} // verus!
