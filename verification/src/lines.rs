//! Splitting the decoded engine output into lines. The protocol emits one
//! event per newline-terminated line; `n` newlines give `n + 1` pieces, and
//! blank pieces are inert for the later stages.

use vstd::prelude::*;

verus! {

/// Index of the first newline of `s` (or `s.len()` if there is none once
/// [`lemma_first_nl`] applies).
pub open spec fn first_nl(s: Seq<char>) -> int
    decreases s.len(),
{
    if s.len() == 0 {
        0
    } else if s.first() == '\n' {
        0
    } else {
        1 + first_nl(s.drop_first())
    }
}

pub proof fn lemma_first_nl(s: Seq<char>)
    requires
        s.contains('\n'),
    ensures
        0 <= first_nl(s) < s.len(),
        s[first_nl(s)] == '\n',
        forall|k: int| 0 <= k < first_nl(s) ==> s[k] != '\n',
    decreases s.len(),
{
    if s.first() == '\n' {
    } else {
        let i = choose|i: int| 0 <= i < s.len() && s[i] == '\n';
        assert(s.drop_first()[i - 1] == '\n');
        assert(s.drop_first().contains('\n'));
        lemma_first_nl(s.drop_first());
        assert(forall|k: int| 1 <= k < first_nl(s) ==> s[k] == s.drop_first()[k - 1]);
    }
}

/// `s` split at every newline, the newlines themselves dropped.
pub open spec fn split_lines(s: Seq<char>) -> Seq<Seq<char>>
    decreases s.len(),
    via split_lines_decreases
{
    if !s.contains('\n') {
        seq![s]
    } else {
        seq![s.take(first_nl(s))] + split_lines(s.skip(first_nl(s) + 1))
    }
}

#[via_fn]
proof fn split_lines_decreases(s: Seq<char>) {
    if s.contains('\n') {
        lemma_first_nl(s);
    }
}

/// Splitting at a position known to hold the first newline.
proof fn lemma_split_at_first_nl(s: Seq<char>, i: int)
    requires
        0 <= i < s.len(),
        s[i] == '\n',
        forall|k: int| 0 <= k < i ==> s[k] != '\n',
    ensures
        split_lines(s) == seq![s.take(i)] + split_lines(s.skip(i + 1)),
{
    assert(s.contains('\n'));
    lemma_first_nl(s);
    assert(first_nl(s) == i) by {
        if first_nl(s) < i {
            assert(s[first_nl(s)] != '\n');
        }
        if first_nl(s) > i {
            assert(s[i] != '\n');
        }
    }
}

/// Split the decoded output into its lines.
pub fn split_lines_exec(s: &str) -> (r: Vec<String>)
    ensures
        r.deep_view() == split_lines(s@),
{
    let n = s.unicode_len();
    let mut out: Vec<String> = Vec::new();
    let mut start: usize = 0;
    let mut i: usize = 0;
    proof {
        assert(s@.skip(0) =~= s@);
        assert(out.deep_view() =~= Seq::<Seq<char>>::empty());
    }
    while i < n
        invariant
            start <= i <= n,
            n == s@.len(),
            split_lines(s@) == out.deep_view() + split_lines(s@.skip(start as int)),
            forall|k: int| start <= k < i ==> s@[k] != '\n',
        decreases n - i,
    {
        let c = s.get_char(i);
        if c == '\n' {
            let ghost pre = out.deep_view();
            let piece = s.substring_char(start, i);
            out.push(String::from_str(piece));
            proof {
                let t = s@.skip(start as int);
                assert(t[i - start] == '\n');
                assert(forall|k: int| 0 <= k < i - start ==> #[trigger] t[k] == s@[k + start]);
                lemma_split_at_first_nl(t, i - start);
                assert(t.take(i - start) =~= piece@);
                assert(t.skip(i - start + 1) =~= s@.skip(i + 1));
                assert(out.deep_view() =~= pre + seq![piece@]);
                assert(split_lines(s@) == out.deep_view() + split_lines(s@.skip(i + 1)));
            }
            start = i + 1;
        }
        i += 1;
    }
    let ghost pre = out.deep_view();
    let piece = s.substring_char(start, n);
    out.push(String::from_str(piece));
    proof {
        let t = s@.skip(start as int);
        assert(!t.contains('\n')) by {
            assert(forall|k: int| 0 <= k < t.len() ==> #[trigger] t[k] == s@[k + start]);
        }
        assert(split_lines(t) == seq![t]);
        assert(t =~= piece@);
        assert(out.deep_view() =~= pre + seq![piece@]);
        assert(out.deep_view() =~= split_lines(s@));
    }
    out
}

} // verus!
