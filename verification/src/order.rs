//! Stable ordering of a sequence by insertion.

use vstd::prelude::*;

verus! {

/// `le` compares any two values, and does so transitively.
pub open spec fn is_total_preorder<T>(le: spec_fn(T, T) -> bool) -> bool {
    &&& forall|a: T, b: T| #[trigger] le(a, b) || le(b, a)
    &&& forall|a: T, b: T, c: T| #[trigger] le(a, b) && #[trigger] le(b, c) ==> le(a, c)
}

/// Each value of `s` may stand before all that follow it.
pub open spec fn is_sorted_by<T>(s: Seq<T>, le: spec_fn(T, T) -> bool) -> bool {
    forall|i: int, j: int| 0 <= i < j < s.len() ==> le(#[trigger] s[i], #[trigger] s[j])
}

/// `s` with `x` put behind the last value that may stand before it.
pub open spec fn insert_by<T>(s: Seq<T>, x: T, le: spec_fn(T, T) -> bool) -> Seq<T>
    decreases s.len(),
{
    if s.len() == 0 || le(s.last(), x) {
        s.push(x)
    } else {
        insert_by(s.drop_last(), x, le).push(s.last())
    }
}

/// `s` in the order of `le`; values that `le` does not tell apart stay in
/// the order they had.
pub open spec fn sort_by<T>(s: Seq<T>, le: spec_fn(T, T) -> bool) -> Seq<T>
    decreases s.len(),
{
    if s.len() == 0 {
        s
    } else {
        insert_by(sort_by(s.drop_last(), le), s.last(), le)
    }
}

/// Where `insert_by` puts `x`: behind the last value that may stand before
/// it.
pub proof fn lemma_insert_by_at<T>(s: Seq<T>, x: T, le: spec_fn(T, T) -> bool, pos: int)
    requires
        0 <= pos <= s.len(),
        pos > 0 ==> le(s[pos - 1], x),
        forall|j: int| pos <= j < s.len() ==> !le(#[trigger] s[j], x),
    ensures
        insert_by(s, x, le) == s.insert(pos, x),
    decreases s.len(),
{
    if s.len() == 0 || le(s.last(), x) {
        if s.len() > 0 && pos < s.len() {
            assert(!le(s[s.len() - 1], x));
        }
        assert(s.push(x) =~= s.insert(pos, x));
    } else {
        let rest = s.drop_last();
        assert forall|j: int| pos <= j < rest.len() implies !le(#[trigger] rest[j], x) by {
            assert(rest[j] == s[j]);
        }
        if pos > 0 {
            assert(rest[pos - 1] == s[pos - 1]);
        }
        lemma_insert_by_at(rest, x, le, pos);
        assert(rest.insert(pos, x).push(s.last()) =~= s.insert(pos, x));
    }
}

/// The place at which `insert_by` puts `x`.
pub proof fn lemma_insert_by_place<T>(s: Seq<T>, x: T, le: spec_fn(T, T) -> bool) -> (pos: int)
    ensures
        0 <= pos <= s.len(),
        pos > 0 ==> le(s[pos - 1], x),
        forall|j: int| pos <= j < s.len() ==> !le(#[trigger] s[j], x),
        insert_by(s, x, le) == s.insert(pos, x),
    decreases s.len(),
{
    if s.len() == 0 || le(s.last(), x) {
        lemma_insert_by_at(s, x, le, s.len() as int);
        s.len() as int
    } else {
        let rest = s.drop_last();
        let pos = lemma_insert_by_place(rest, x, le);
        assert forall|j: int| pos <= j < s.len() implies !le(#[trigger] s[j], x) by {
            if j < rest.len() {
                assert(rest[j] == s[j]);
            }
        }
        if pos > 0 {
            assert(rest[pos - 1] == s[pos - 1]);
        }
        lemma_insert_by_at(s, x, le, pos);
        pos
    }
}

/// Sorting keeps every value, each as often as it occurred, and leaves the
/// sequence in order.
pub proof fn lemma_sort_by<T>(s: Seq<T>, le: spec_fn(T, T) -> bool)
    requires
        is_total_preorder(le),
    ensures
        is_sorted_by(sort_by(s, le), le),
        sort_by(s, le).to_multiset() == s.to_multiset(),
        sort_by(s, le).len() == s.len(),
    decreases s.len(),
{
    broadcast use vstd::seq_lib::group_to_multiset_ensures;

    if s.len() > 0 {
        let rest = s.drop_last();
        let x = s.last();
        lemma_sort_by(rest, le);
        let o = sort_by(rest, le);
        let pos = lemma_insert_by_place(o, x, le);
        let out = o.insert(pos, x);
        assert(s =~= rest.push(x));
        assert(out.to_multiset() =~= s.to_multiset());
        assert forall|i: int, j: int| 0 <= i < j < out.len() implies le(
            #[trigger] out[i],
            #[trigger] out[j],
        ) by {
            if j < pos {
                assert(out[i] == o[i] && out[j] == o[j]);
            } else if j == pos {
                assert(out[i] == o[i]);
                if i < pos - 1 {
                    assert(le(o[i], o[pos - 1]));
                }
            } else if i < pos {
                assert(out[i] == o[i] && out[j] == o[j - 1]);
            } else if i == pos {
                assert(out[j] == o[j - 1]);
                assert(!le(o[j - 1], x));
                assert(le(o[j - 1], x) || le(x, o[j - 1]));
            } else {
                assert(out[i] == o[i - 1] && out[j] == o[j - 1]);
            }
        }
    }
}

} // verus!
