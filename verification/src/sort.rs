//! Stable sorting of result records by [`result_le`].
//!
//! The sort is specified as spec-level insertion from the left, where each
//! record is inserted *after* every record it does not strictly precede.
//! That makes the specification stable by construction: two records with the
//! same path and line number keep their arrival order, which matters because
//! a line can be both a match and a context line of a neighbouring match.

use vstd::prelude::*;

use crate::options::SearchResult;
use crate::options::SearchResultView;
use crate::order::lemma_result_le_total;
use crate::order::lemma_result_le_transitive;
use crate::order::result_le;
use crate::order::result_le_exec;

verus! {

/// Insert `x` behind every element of `s` that is `result_le` to it.
pub open spec fn insert_sorted(s: Seq<SearchResultView>, x: SearchResultView) -> Seq<
    SearchResultView,
>
    decreases s.len(),
{
    if s.len() == 0 {
        seq![x]
    } else if result_le(s.last(), x) {
        s.push(x)
    } else {
        insert_sorted(s.drop_last(), x).push(s.last())
    }
}

/// The stable sort of `s` under [`result_le`]: records in ascending order,
/// ties kept in arrival order.
pub open spec fn sort_spec(s: Seq<SearchResultView>) -> Seq<SearchResultView>
    decreases s.len(),
{
    if s.len() == 0 {
        seq![]
    } else {
        insert_sorted(sort_spec(s.drop_last()), s.last())
    }
}

/// `s` is ascending under [`result_le`].
pub open spec fn sorted(s: Seq<SearchResultView>) -> bool {
    forall|i: int, j: int| 0 <= i < j < s.len() ==> result_le(#[trigger] s[i], #[trigger] s[j])
}

/// Where the insertion lands: if every element from position `j` on refuses
/// to precede `x`, and the element just before `j` (if any) does precede it,
/// then the spec-level insertion puts `x` exactly at position `j`.
proof fn lemma_insert_sorted_at(s: Seq<SearchResultView>, x: SearchResultView, j: int)
    requires
        0 <= j <= s.len(),
        forall|k: int| j <= k < s.len() ==> !result_le(#[trigger] s[k], x),
        j > 0 ==> result_le(s[j - 1], x),
    ensures
        insert_sorted(s, x) == s.take(j) + seq![x] + s.skip(j),
    decreases s.len(),
{
    if s.len() == 0 {
        assert(insert_sorted(s, x) =~= s.take(j) + seq![x] + s.skip(j));
    } else if j == s.len() {
        assert(result_le(s.last(), x));
        assert(insert_sorted(s, x) =~= s.take(j) + seq![x] + s.skip(j));
    } else {
        assert(!result_le(s.last(), x));
        let dl = s.drop_last();
        lemma_insert_sorted_at(dl, x, j);
        assert(insert_sorted(s, x) =~= s.take(j) + seq![x] + s.skip(j)) by {
            assert(dl.take(j) =~= s.take(j));
            assert(insert_sorted(s, x) == (dl.take(j) + seq![x] + dl.skip(j)).push(s.last()));
        }
    }
}

/// Each element of the insertion result is an element of `s` or is `x`.
proof fn lemma_insert_sorted_elems(s: Seq<SearchResultView>, x: SearchResultView, i: int)
    requires
        0 <= i < insert_sorted(s, x).len(),
    ensures
        insert_sorted(s, x)[i] == x || exists|k: int|
            0 <= k < s.len() && insert_sorted(s, x)[i] == s[k],
    decreases s.len(),
{
    if s.len() == 0 {
    } else if result_le(s.last(), x) {
    } else {
        let sub = insert_sorted(s.drop_last(), x);
        if i < sub.len() {
            lemma_insert_sorted_elems(s.drop_last(), x, i);
            assert(forall|k: int| 0 <= k < s.len() - 1 ==> s.drop_last()[k] == s[k]);
        } else {
            assert(insert_sorted(s, x)[i] == s[s.len() - 1]);
        }
    }
}

/// Inserting into an ascending sequence keeps it ascending.
proof fn lemma_insert_sorted_keeps_sorted(s: Seq<SearchResultView>, x: SearchResultView)
    requires
        sorted(s),
    ensures
        sorted(insert_sorted(s, x)),
        insert_sorted(s, x).len() == s.len() + 1,
    decreases s.len(),
{
    if s.len() == 0 {
    } else if result_le(s.last(), x) {
        let r = s.push(x);
        assert forall|i: int, j: int| 0 <= i < j < r.len() implies result_le(r[i], r[j]) by {
            if j == r.len() - 1 {
                if i < s.len() - 1 {
                    lemma_result_le_transitive(s[i], s.last(), x);
                }
            }
        }
    } else {
        let dl = s.drop_last();
        assert(sorted(dl)) by {
            assert(forall|k: int| 0 <= k < dl.len() ==> dl[k] == s[k]);
        }
        lemma_insert_sorted_keeps_sorted(dl, x);
        let sub = insert_sorted(dl, x);
        let r = sub.push(s.last());
        lemma_result_le_total(s.last(), x);
        assert forall|i: int, j: int| 0 <= i < j < r.len() implies result_le(r[i], r[j]) by {
            if j == r.len() - 1 {
                lemma_insert_sorted_elems(dl, x, i);
                if sub[i] == x {
                } else {
                    let k = choose|k: int| 0 <= k < dl.len() && sub[i] == dl[k];
                    if k < s.len() - 1 {
                        assert(result_le(s[k], s.last()));
                    }
                }
            }
        }
    }
}

/// The sort's outcome is ascending.
pub proof fn lemma_sort_spec_sorted(s: Seq<SearchResultView>)
    ensures
        sorted(sort_spec(s)),
        sort_spec(s).len() == s.len(),
    decreases s.len(),
{
    if s.len() > 0 {
        lemma_sort_spec_sorted(s.drop_last());
        lemma_insert_sorted_keeps_sorted(sort_spec(s.drop_last()), s.last());
    }
}

/// Sorting an already-sorted sequence gives back the identical sequence; in
/// particular re-sorting a sort's output changes nothing.
pub proof fn lemma_sort_of_sorted_is_identity(s: Seq<SearchResultView>)
    requires
        sorted(s),
    ensures
        sort_spec(s) == s,
    decreases s.len(),
{
    if s.len() > 0 {
        let dl = s.drop_last();
        assert(sorted(dl)) by {
            assert(forall|k: int| 0 <= k < dl.len() ==> dl[k] == s[k]);
        }
        lemma_sort_of_sorted_is_identity(dl);
        if dl.len() > 0 {
            assert(result_le(dl.last(), s.last()));
        }
        assert(sort_spec(s) =~= s);
    }
}

proof fn lemma_insert_sorted_multiset(s: Seq<SearchResultView>, x: SearchResultView)
    ensures
        insert_sorted(s, x).to_multiset() == s.to_multiset().insert(x),
    decreases s.len(),
{
    broadcast use vstd::seq_lib::group_to_multiset_ensures;

    if s.len() == 0 {
        assert(seq![x] =~= Seq::<SearchResultView>::empty().push(x));
    } else if result_le(s.last(), x) {
    } else {
        let dl = s.drop_last();
        lemma_insert_sorted_multiset(dl, x);
        assert(s =~= dl.push(s.last()));
        assert(insert_sorted(s, x).to_multiset() =~= s.to_multiset().insert(x));
    }
}

/// The sort only rearranges: its outcome holds exactly the records of its
/// input, as a multiset.
pub proof fn lemma_sort_spec_permutes(s: Seq<SearchResultView>)
    ensures
        sort_spec(s).to_multiset() == s.to_multiset(),
    decreases s.len(),
{
    broadcast use vstd::seq_lib::group_to_multiset_ensures;

    if s.len() > 0 {
        let dl = s.drop_last();
        lemma_sort_spec_permutes(dl);
        lemma_insert_sorted_multiset(sort_spec(dl), s.last());
        assert(s =~= dl.push(s.last()));
    }
}

proof fn lemma_insert_sorted_same_key(
    s: Seq<SearchResultView>,
    x: SearchResultView,
    p: Seq<char>,
    n: nat,
)
    ensures
        insert_sorted(s, x).filter(|e: SearchResultView| e.path == p && e.line_number == n) == (
        if x.path == p && x.line_number == n {
            s.filter(|e: SearchResultView| e.path == p && e.line_number == n).push(x)
        } else {
            s.filter(|e: SearchResultView| e.path == p && e.line_number == n)
        }),
    decreases s.len(),
{
    reveal(Seq::filter);
    let pred = |e: SearchResultView| e.path == p && e.line_number == n;
    if s.len() == 0 {
        assert(seq![x].drop_last() =~= s);
        assert(seq![x].last() == x);
        if pred(x) {
            assert(insert_sorted(s, x).filter(pred) == s.filter(pred).push(x));
        } else {
            assert(insert_sorted(s, x).filter(pred) == s.filter(pred));
        }
    } else if result_le(s.last(), x) {
        assert(s.push(x).drop_last() =~= s);
        assert(s.push(x).last() == x);
        if pred(x) {
            assert(insert_sorted(s, x).filter(pred) == s.filter(pred).push(x));
        } else {
            assert(insert_sorted(s, x).filter(pred) == s.filter(pred));
        }
    } else {
        let dl = s.drop_last();
        lemma_insert_sorted_same_key(dl, x, p, n);
        let sub = insert_sorted(dl, x);
        assert(sub.push(s.last()).drop_last() =~= sub);
        assert(sub.push(s.last()).last() == s.last());
        if pred(x) && pred(s.last()) {
            // both carry the key, so they share path and line number and
            // s.last() would precede x — against this branch's guard
            assert(result_le(s.last(), x));
        }
        if pred(x) {
            assert(sub.filter(pred) == dl.filter(pred).push(x));
            assert(insert_sorted(s, x).filter(pred) == dl.filter(pred).push(x));
            assert(s.filter(pred) == dl.filter(pred));
        }
    }
}

/// The sort is stable: the records that share any one path and line number
/// appear in the sorted outcome in exactly their arrival order.
pub proof fn lemma_sort_spec_stable(s: Seq<SearchResultView>, p: Seq<char>, n: nat)
    ensures
        sort_spec(s).filter(|e: SearchResultView| e.path == p && e.line_number == n) == s.filter(
            |e: SearchResultView| e.path == p && e.line_number == n,
        ),
    decreases s.len(),
{
    reveal(Seq::filter);
    if s.len() > 0 {
        let dl = s.drop_last();
        lemma_sort_spec_stable(dl, p, n);
        lemma_insert_sorted_same_key(sort_spec(dl), s.last(), p, n);
    }
}

/// Re-sorting a sorted result is the identity, so the sort is idempotent.
pub proof fn lemma_sort_spec_idempotent(s: Seq<SearchResultView>)
    ensures
        sort_spec(sort_spec(s)) == sort_spec(s),
{
    lemma_sort_spec_sorted(s);
    lemma_sort_of_sorted_is_identity(sort_spec(s));
}

/// Stable insertion sort of the accumulated records.
pub fn sort_results(records: Vec<SearchResult>) -> (r: Vec<SearchResult>)
    ensures
        r.deep_view() == sort_spec(records.deep_view()),
        sorted(r.deep_view()),
        r.deep_view().to_multiset() == records.deep_view().to_multiset(),
{
    let ghost all = records.deep_view();
    let mut rest = records;
    let mut out: Vec<SearchResult> = Vec::new();
    let ghost mut done: int = 0;
    proof {
        assert(all.take(0) =~= Seq::<SearchResultView>::empty());
        assert(all.skip(0) =~= all);
        assert(out.deep_view() =~= sort_spec(all.take(0)));
        lemma_sort_spec_sorted(all.take(0));
    }
    while rest.len() > 0
        invariant
            0 <= done <= all.len(),
            rest.deep_view() == all.skip(done),
            out.deep_view() == sort_spec(all.take(done)),
            sorted(out.deep_view()),
        decreases rest.len(),
    {
        let ghost prev = out.deep_view();
        let ghost pre_rest = rest.deep_view();
        proof {
            assert(pre_rest == all.skip(done));
            assert(pre_rest.len() > 0);
            assert(all.skip(done)[0] == all[done]);
        }
        let x = rest.remove(0);
        proof {
            assert(pre_rest[0] == all[done]);
            assert(x.deep_view() == pre_rest[0]);
            assert(rest.deep_view() =~= all.skip(done + 1)) by {
                assert(forall|i: int|
                    0 <= i < rest.deep_view().len() ==> rest.deep_view()[i] == pre_rest[i + 1]);
                assert(forall|i: int|
                    0 <= i < rest.deep_view().len() ==> #[trigger] pre_rest[i + 1] == all[done + 1
                        + i]);
            }
        }
        let mut j = out.len();
        while j > 0
            invariant
                j <= prev.len(),
                out.deep_view() == prev,
                forall|k: int| j <= k < prev.len() ==> !result_le(#[trigger] prev[k], x@),
            ensures
                j <= prev.len(),
                out.deep_view() == prev,
                forall|k: int| j <= k < prev.len() ==> !result_le(#[trigger] prev[k], x@),
                j > 0 ==> result_le(prev[j - 1], x@),
            decreases j,
        {
            if result_le_exec(&out[j - 1], &x) {
                break;
            }
            j -= 1;
        }
        proof {
            lemma_insert_sorted_at(prev, x@, j as int);
            lemma_insert_sorted_keeps_sorted(prev, x@);
        }
        out.insert(j, x);
        proof {
            assert(out.deep_view() =~= prev.take(j as int) + seq![x@] + prev.skip(j as int));
            assert(all.take(done + 1).drop_last() =~= all.take(done));
            assert(all.take(done + 1).last() == all[done]);
            assert(out.deep_view() == sort_spec(all.take(done + 1)));
        }
        proof {
            done = done + 1;
        }
    }
    proof {
        assert(all.take(done) =~= all);
        lemma_sort_spec_permutes(all);
    }
    out
}

} // verus!
