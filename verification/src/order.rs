//! A stable sort by a name key, given as a specification-level function
//! from an element to its key characters. The scanner sorts leaf entries,
//! subcategory nodes and category nodes with it.
use vstd::prelude::*;

use crate::text::{lemma_lex_total, lex_le, lex_lt};

verus! {

/// `s` is sorted when every earlier element's key is at most every later
/// element's key.
pub open spec fn sorted_by<T>(s: Seq<T>, key: spec_fn(T) -> Seq<char>) -> bool {
    forall|i: int, j: int| 0 <= i < j < s.len() ==> lex_le(key(s[i]), key(s[j]))
}

/// Inserts `x` into `s` after every element whose key is at most the key
/// of `x`. On a sorted sequence this keeps it sorted, and elements with
/// equal keys keep their order of arrival.
pub open spec fn insert_by<T>(s: Seq<T>, x: T, key: spec_fn(T) -> Seq<char>) -> Seq<T>
    decreases s.len(),
{
    if s.len() == 0 {
        seq![x]
    } else if lex_le(key(s.first()), key(x)) {
        seq![s.first()] + insert_by(s.drop_first(), x, key)
    } else {
        seq![x] + s
    }
}

/// Sorts `s` by key: each element, from first to last, is inserted into
/// the sorted result of the elements before it.
pub open spec fn sort_by_key<T>(s: Seq<T>, key: spec_fn(T) -> Seq<char>) -> Seq<T>
    decreases s.len(),
{
    if s.len() == 0 {
        Seq::empty()
    } else {
        insert_by(sort_by_key(s.drop_last(), key), s.last(), key)
    }
}

/// `lex_lt` is transitive.
pub proof fn lemma_lex_lt_trans(a: Seq<char>, b: Seq<char>, c: Seq<char>)
    requires
        lex_lt(a, b),
        lex_lt(b, c),
    ensures
        lex_lt(a, c),
    decreases a.len(),
{
    if a.len() == 0 {
    } else {
        let x = a.first();
        let y = b.first();
        let z = c.first();
        if x == y && y == z {
            lemma_lex_lt_trans(a.drop_first(), b.drop_first(), c.drop_first());
        }
    }
}

/// `lex_le` is transitive.
pub proof fn lemma_lex_le_trans(a: Seq<char>, b: Seq<char>, c: Seq<char>)
    requires
        lex_le(a, b),
        lex_le(b, c),
    ensures
        lex_le(a, c),
{
    if lex_lt(c, a) {
        lemma_lex_total(b, c);
        if lex_lt(b, c) {
            lemma_lex_lt_trans(b, c, a);
        } else {
            assert(b == c);
        }
    }
}

/// Inserting adds one element: the result holds `x` and the old elements,
/// as multisets, and is one longer.
pub proof fn lemma_insert_by_multiset<T>(s: Seq<T>, x: T, key: spec_fn(T) -> Seq<char>)
    ensures
        insert_by(s, x, key).len() == s.len() + 1,
        insert_by(s, x, key).to_multiset() == s.to_multiset().insert(x),
    decreases s.len(),
{
    broadcast use vstd::seq_lib::group_to_multiset_ensures;

    if s.len() == 0 {
        assert(insert_by(s, x, key) =~= s.push(x));
    } else if lex_le(key(s.first()), key(x)) {
        lemma_insert_by_multiset(s.drop_first(), x, key);
        assert(insert_by(s, x, key) =~= insert_by(s.drop_first(), x, key).insert(
            0,
            s.first(),
        ));
        assert(s =~= s.drop_first().insert(0, s.first()));
        assert(insert_by(s.drop_first(), x, key).insert(0, s.first()).to_multiset() == insert_by(
            s.drop_first(),
            x,
            key,
        ).to_multiset().insert(s.first()));
        assert(s.to_multiset() == s.drop_first().to_multiset().insert(s.first()));
        assert(s.drop_first().to_multiset().insert(x).insert(s.first())
            == s.drop_first().to_multiset().insert(s.first()).insert(x));
    } else {
        assert(insert_by(s, x, key) =~= s.insert(0, x));
    }
}

/// Inserting into a sorted sequence keeps it sorted.
pub proof fn lemma_insert_by_sorted<T>(s: Seq<T>, x: T, key: spec_fn(T) -> Seq<char>)
    requires
        sorted_by(s, key),
    ensures
        sorted_by(insert_by(s, x, key), key),
    decreases s.len(),
{
    let r = insert_by(s, x, key);
    if s.len() == 0 {
    } else if lex_le(key(s.first()), key(x)) {
        let tail = insert_by(s.drop_first(), x, key);
        assert(sorted_by(s.drop_first(), key)) by {
            assert forall|i: int, j: int|
                0 <= i < j < s.drop_first().len() implies lex_le(
                key(s.drop_first()[i]),
                key(s.drop_first()[j]),
            ) by {
                assert(s.drop_first()[i] == s[i + 1]);
                assert(s.drop_first()[j] == s[j + 1]);
            }
        }
        lemma_insert_by_sorted(s.drop_first(), x, key);
        lemma_insert_by_multiset(s.drop_first(), x, key);
        // the head is at most every element of the tail insertion
        assert forall|j: int| 0 <= j < tail.len() implies lex_le(key(s.first()), key(tail[j])) by {
            lemma_insert_by_le(s.drop_first(), x, key, s.first());
        }
        assert forall|i: int, j: int| 0 <= i < j < r.len() implies lex_le(key(r[i]), key(r[j])) by {
            if i == 0 {
                assert(r[j] == tail[j - 1]);
            } else {
                assert(r[i] == tail[i - 1]);
                assert(r[j] == tail[j - 1]);
            }
        }
    } else {
        lemma_lex_total(key(s.first()), key(x));
        assert forall|i: int, j: int| 0 <= i < j < r.len() implies lex_le(key(r[i]), key(r[j])) by {
            if i == 0 {
                assert(r[j] == s[j - 1]);
                if j > 1 {
                    lemma_lex_le_trans(key(x), key(s.first()), key(s[j - 1]));
                } else {
                    assert(lex_le(key(x), key(s.first())));
                }
            } else {
                assert(r[i] == s[i - 1]);
                assert(r[j] == s[j - 1]);
            }
        }
    }
}

/// If a bound is at most `x`'s key and at most every key in `s`, it is at
/// most every key in the insertion of `x`.
pub proof fn lemma_insert_by_le<T>(s: Seq<T>, x: T, key: spec_fn(T) -> Seq<char>, bound: T)
    requires
        lex_le(key(bound), key(x)),
        forall|i: int| 0 <= i < s.len() ==> lex_le(key(bound), key(s[i])),
    ensures
        forall|i: int|
            0 <= i < insert_by(s, x, key).len() ==> lex_le(key(bound), key(insert_by(s, x, key)[i])),
    decreases s.len(),
{
    let r = insert_by(s, x, key);
    if s.len() == 0 {
    } else if lex_le(key(s.first()), key(x)) {
        assert forall|i: int| 0 <= i < s.drop_first().len() implies lex_le(
            key(bound),
            key(s.drop_first()[i]),
        ) by {
            assert(s.drop_first()[i] == s[i + 1]);
        }
        lemma_insert_by_le(s.drop_first(), x, key, bound);
        let tail = insert_by(s.drop_first(), x, key);
        assert forall|i: int| 0 <= i < r.len() implies lex_le(key(bound), key(r[i])) by {
            if i > 0 {
                assert(r[i] == tail[i - 1]);
            }
        }
    } else {
        assert forall|i: int| 0 <= i < r.len() implies lex_le(key(bound), key(r[i])) by {
            if i > 0 {
                assert(r[i] == s[i - 1]);
            }
        }
    }
}

/// Sorting keeps the elements: the result is sorted and is the same
/// multiset as the input.
pub proof fn lemma_sort_by_key<T>(s: Seq<T>, key: spec_fn(T) -> Seq<char>)
    ensures
        sort_by_key(s, key).len() == s.len(),
        sort_by_key(s, key).to_multiset() == s.to_multiset(),
        sorted_by(sort_by_key(s, key), key),
    decreases s.len(),
{
    broadcast use vstd::seq_lib::group_to_multiset_ensures;

    if s.len() == 0 {
    } else {
        lemma_sort_by_key(s.drop_last(), key);
        lemma_insert_by_multiset(sort_by_key(s.drop_last(), key), s.last(), key);
        lemma_insert_by_sorted(sort_by_key(s.drop_last(), key), s.last(), key);
        assert(s =~= s.drop_last().push(s.last()));
        assert(s.drop_last().push(s.last()).to_multiset() == s.drop_last().to_multiset().insert(
            s.last(),
        ));
    }
}

/// The sum of a weight over the elements of a sequence.
pub open spec fn sum_by<T>(s: Seq<T>, w: spec_fn(T) -> int) -> int
    decreases s.len(),
{
    if s.len() == 0 {
        0
    } else {
        sum_by(s.drop_last(), w) + w(s.last())
    }
}

/// The sum over one element is its weight.
pub proof fn lemma_sum_by_singleton<T>(x: T, w: spec_fn(T) -> int)
    ensures
        sum_by(seq![x], w) == w(x),
{
    assert(seq![x].drop_last() =~= Seq::<T>::empty());
    assert(seq![x].last() == x);
    assert(sum_by(Seq::<T>::empty(), w) == 0);
}

/// The sum over a concatenation is the sum of the sums.
pub proof fn lemma_sum_by_concat<T>(a: Seq<T>, b: Seq<T>, w: spec_fn(T) -> int)
    ensures
        sum_by(a + b, w) == sum_by(a, w) + sum_by(b, w),
    decreases b.len(),
{
    if b.len() == 0 {
        assert(a + b =~= a);
    } else {
        assert((a + b).drop_last() =~= a + b.drop_last());
        assert((a + b).last() == b.last());
        lemma_sum_by_concat(a, b.drop_last(), w);
    }
}

/// A sum of nonnegative weights is nonnegative.
pub proof fn lemma_sum_by_nonneg<T>(s: Seq<T>, w: spec_fn(T) -> int)
    requires
        forall|t: T| #[trigger] w(t) >= 0,
    ensures
        sum_by(s, w) >= 0,
    decreases s.len(),
{
    if s.len() > 0 {
        lemma_sum_by_nonneg(s.drop_last(), w);
    }
}

/// Inserting adds the weight of the inserted element to the sum.
pub proof fn lemma_sum_by_insert_by<T>(
    s: Seq<T>,
    x: T,
    key: spec_fn(T) -> Seq<char>,
    w: spec_fn(T) -> int,
)
    ensures
        sum_by(insert_by(s, x, key), w) == sum_by(s, w) + w(x),
    decreases s.len(),
{
    if s.len() == 0 {
        assert(insert_by(s, x, key) == seq![x]);
        assert(sum_by(seq![x], w) == w(x)) by {
            assert(seq![x].drop_last() =~= Seq::<T>::empty());
            assert(seq![x].last() == x);
            assert(sum_by(Seq::<T>::empty(), w) == 0);
        }
    } else if lex_le(key(s.first()), key(x)) {
        lemma_sum_by_insert_by(s.drop_first(), x, key, w);
        lemma_sum_by_concat(seq![s.first()], insert_by(s.drop_first(), x, key), w);
        lemma_sum_by_concat(seq![s.first()], s.drop_first(), w);
        assert(seq![s.first()] + s.drop_first() =~= s);
        assert(sum_by(seq![s.first()], w) == w(s.first())) by {
            assert(seq![s.first()].drop_last() =~= Seq::<T>::empty());
            assert(seq![s.first()].last() == s.first());
            assert(sum_by(Seq::<T>::empty(), w) == 0);
        }
    } else {
        lemma_sum_by_concat(seq![x], s, w);
        assert(sum_by(seq![x], w) == w(x)) by {
            assert(seq![x].drop_last() =~= Seq::<T>::empty());
            assert(seq![x].last() == x);
            assert(sum_by(Seq::<T>::empty(), w) == 0);
        }
    }
}

/// Sorting does not change the sum.
pub proof fn lemma_sum_by_sort<T>(s: Seq<T>, key: spec_fn(T) -> Seq<char>, w: spec_fn(T) -> int)
    ensures
        sum_by(sort_by_key(s, key), w) == sum_by(s, w),
    decreases s.len(),
{
    if s.len() > 0 {
        lemma_sum_by_sort(s.drop_last(), key, w);
        lemma_sum_by_insert_by(sort_by_key(s.drop_last(), key), s.last(), key, w);
    }
}

/// Sorting neither adds nor removes elements.
pub proof fn lemma_sort_by_key_contains<T>(s: Seq<T>, key: spec_fn(T) -> Seq<char>)
    ensures
        forall|x: T| #[trigger] sort_by_key(s, key).contains(x) <==> s.contains(x),
{
    broadcast use vstd::seq_lib::group_to_multiset_ensures;

    lemma_sort_by_key(s, key);
    assert forall|x: T| #[trigger] sort_by_key(s, key).contains(x) <==> s.contains(x) by {
        assert(sort_by_key(s, key).contains(x) <==> sort_by_key(s, key).to_multiset().count(x)
            > 0);
        assert(s.contains(x) <==> s.to_multiset().count(x) > 0);
    }
}

/// Where the first `pos` keys are at most the key of `x` and the key at
/// `pos` (if any) is not, inserting `x` places it exactly at `pos`.
pub proof fn lemma_insert_by_at<T>(s: Seq<T>, x: T, key: spec_fn(T) -> Seq<char>, pos: int)
    requires
        0 <= pos <= s.len(),
        forall|j: int| 0 <= j < pos ==> lex_le(key(s[j]), key(x)),
        pos < s.len() ==> !lex_le(key(s[pos]), key(x)),
    ensures
        insert_by(s, x, key) == s.insert(pos, x),
    decreases s.len(),
{
    if s.len() == 0 {
        assert(insert_by(s, x, key) =~= s.insert(0, x));
    } else if pos == 0 {
        assert(insert_by(s, x, key) =~= s.insert(0, x));
    } else {
        assert(lex_le(key(s.first()), key(x)));
        assert forall|j: int| 0 <= j < pos - 1 implies lex_le(key(s.drop_first()[j]), key(x)) by {
            assert(s.drop_first()[j] == s[j + 1]);
        }
        assert(pos - 1 < s.drop_first().len() ==> !lex_le(key(s.drop_first()[pos - 1]), key(x)));
        lemma_insert_by_at(s.drop_first(), x, key, pos - 1);
        assert(insert_by(s, x, key) =~= s.insert(pos, x));
    }
}

} // verus!
