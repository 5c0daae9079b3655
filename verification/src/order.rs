//! The total order on result records: by path (lexicographically on
//! characters), then by line number. Ties — same path and same line — are
//! deliberately not ordered here; the stable sort keeps their arrival order.

use vstd::prelude::*;

use crate::options::SearchResult;
use crate::options::SearchResultView;

verus! {

/// Lexicographic order on character sequences, comparing scalar values.
pub open spec fn str_le(a: Seq<char>, b: Seq<char>) -> bool
    decreases a.len(),
{
    if a.len() == 0 {
        true
    } else if b.len() == 0 {
        false
    } else if a.first() != b.first() {
        a.first() < b.first()
    } else {
        str_le(a.drop_first(), b.drop_first())
    }
}

/// The order of the final sequence: path first, line number second.
pub open spec fn result_le(a: SearchResultView, b: SearchResultView) -> bool {
    if a.path == b.path {
        a.line_number <= b.line_number
    } else {
        str_le(a.path, b.path)
    }
}

pub proof fn lemma_str_le_total(a: Seq<char>, b: Seq<char>)
    ensures
        str_le(a, b) || str_le(b, a),
    decreases a.len(),
{
    if a.len() != 0 && b.len() != 0 && a.first() == b.first() {
        lemma_str_le_total(a.drop_first(), b.drop_first());
    }
}

pub proof fn lemma_str_le_antisymmetric(a: Seq<char>, b: Seq<char>)
    requires
        str_le(a, b),
        str_le(b, a),
    ensures
        a == b,
    decreases a.len(),
{
    if a.len() == 0 {
        assert(a =~= b);
    } else {
        lemma_str_le_antisymmetric(a.drop_first(), b.drop_first());
        assert(a =~= b) by {
            assert(forall|i: int|
                1 <= i < a.len() ==> a[i] == a.drop_first()[i - 1] && b[i] == b.drop_first()[i
                    - 1]);
        }
    }
}

pub proof fn lemma_str_le_transitive(a: Seq<char>, b: Seq<char>, c: Seq<char>)
    requires
        str_le(a, b),
        str_le(b, c),
    ensures
        str_le(a, c),
    decreases a.len(),
{
    if a.len() != 0 && b.len() != 0 && c.len() != 0 && a.first() == b.first() && b.first()
        == c.first() {
        lemma_str_le_transitive(a.drop_first(), b.drop_first(), c.drop_first());
    }
}

pub proof fn lemma_result_le_total(a: SearchResultView, b: SearchResultView)
    ensures
        result_le(a, b) || result_le(b, a),
{
    lemma_str_le_total(a.path, b.path);
}

pub proof fn lemma_result_le_transitive(a: SearchResultView, b: SearchResultView, c: SearchResultView)
    requires
        result_le(a, b),
        result_le(b, c),
    ensures
        result_le(a, c),
{
    if a.path != b.path && b.path != c.path {
        lemma_str_le_transitive(a.path, b.path, c.path);
        if a.path == c.path {
            lemma_str_le_antisymmetric(a.path, b.path);
        }
    }
}

fn str_le_exec(a: &str, b: &str) -> (r: bool)
    ensures
        r == str_le(a@, b@),
{
    let a_len = a.unicode_len();
    let b_len = b.unicode_len();
    let mut i: usize = 0;
    proof {
        assert(a@.skip(0) =~= a@);
        assert(b@.skip(0) =~= b@);
    }
    loop
        invariant
            i <= a@.len(),
            i <= b@.len(),
            a_len == a@.len(),
            b_len == b@.len(),
            str_le(a@, b@) == str_le(a@.skip(i as int), b@.skip(i as int)),
        decreases a@.len() - i,
    {
        if i == a_len {
            return true;
        }
        if i == b_len {
            return false;
        }
        let ca = a.get_char(i);
        let cb = b.get_char(i);
        if ca != cb {
            proof {
                assert(a@.skip(i as int).first() == ca);
                assert(b@.skip(i as int).first() == cb);
            }
            return ca < cb;
        }
        proof {
            assert(a@.skip(i as int).first() == ca);
            assert(b@.skip(i as int).first() == cb);
            assert(a@.skip(i as int).drop_first() =~= a@.skip(i + 1));
            assert(b@.skip(i as int).drop_first() =~= b@.skip(i + 1));
        }
        i += 1;
    }
}

/// Decide [`result_le`] on two records.
pub fn result_le_exec(a: &SearchResult, b: &SearchResult) -> (r: bool)
    ensures
        r == result_le(a@, b@),
{
    if a.path == b.path {
        a.line_number <= b.line_number
    } else {
        str_le_exec(a.path.as_str(), b.path.as_str())
    }
}

} // verus!
