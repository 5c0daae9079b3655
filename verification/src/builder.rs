//! The invocation builder: a pure transformation from a [`SearchOptions`]
//! value to the exact, ordered argument vector for the external engine.
//!
//! The engine is positional-argument sensitive, so the order of the vector is
//! part of the contract: the fixed output-format flags come first, then the
//! optional flags, then the glob filters in input order, then the depth flag,
//! and finally the pattern and the directory as the two positional arguments.
//! Each element is one discrete argument token; nothing is ever joined into a
//! shell string, so no input value can smuggle extra arguments in.

use vstd::prelude::*;

use crate::decimal::dec_str;
use crate::decimal::u32_to_string;
use crate::options::SearchOptions;
use crate::options::SearchOptionsView;
use crate::options::ValidationError;

verus! {

/// The flags emitted on every invocation: structured output, filenames,
/// line numbers, and the context window.
pub open spec fn base_args(o: SearchOptionsView) -> Seq<Seq<char>> {
    seq!["--json"@, "-H"@, "-n"@, "-C"@, dec_str(o.context_lines)]
}

/// The case-sensitivity flag: present exactly when matching is insensitive.
pub open spec fn case_args(o: SearchOptionsView) -> Seq<Seq<char>> {
    if o.case_sensitive {
        seq![]
    } else {
        seq!["-i"@]
    }
}

/// The hidden-traversal and ignore-bypass flags. They are coupled by design:
/// both appear when `search_hidden` holds, neither appears otherwise.
pub open spec fn hidden_args(o: SearchOptionsView) -> Seq<Seq<char>> {
    if o.search_hidden {
        seq!["--hidden"@, "--no-ignore"@]
    } else {
        seq![]
    }
}

/// The type filter: present exactly when a non-empty type tag was given.
pub open spec fn type_args(o: SearchOptionsView) -> Seq<Seq<char>> {
    match o.file_type {
        Some(t) => if t.len() > 0 {
            seq!["-t"@, t]
        } else {
            seq![]
        },
        None => seq![],
    }
}

/// One glob-inclusion flag per non-empty inclusion pattern, in input order.
pub open spec fn include_glob_args(globs: Seq<Seq<char>>) -> Seq<Seq<char>>
    decreases globs.len(),
{
    if globs.len() == 0 {
        seq![]
    } else {
        include_glob_args(globs.drop_last()) + (if globs.last().len() == 0 {
            seq![]
        } else {
            seq!["-g"@, globs.last()]
        })
    }
}

/// One negated glob flag per non-empty exclusion pattern, in input order.
pub open spec fn exclude_glob_args(globs: Seq<Seq<char>>) -> Seq<Seq<char>>
    decreases globs.len(),
{
    if globs.len() == 0 {
        seq![]
    } else {
        exclude_glob_args(globs.drop_last()) + (if globs.last().len() == 0 {
            seq![]
        } else {
            seq!["-g"@, seq!['!'] + globs.last()]
        })
    }
}

/// The closing arguments: the depth bound and the two positional arguments,
/// pattern before directory.
pub open spec fn tail_args(o: SearchOptionsView) -> Seq<Seq<char>> {
    seq!["--max-depth"@, dec_str(o.max_depth), o.pattern, o.directory]
}

/// Everything ahead of the hidden-flag pair.
pub open spec fn leading_args(o: SearchOptionsView) -> Seq<Seq<char>> {
    base_args(o) + case_args(o)
}

/// Everything behind the hidden-flag pair.
pub open spec fn trailing_args(o: SearchOptionsView) -> Seq<Seq<char>> {
    type_args(o) + include_glob_args(o.include_globs) + exclude_glob_args(o.exclude_globs)
        + tail_args(o)
}

/// The complete argument vector for one invocation.
pub open spec fn arg_list(o: SearchOptionsView) -> Seq<Seq<char>> {
    leading_args(o) + hidden_args(o) + trailing_args(o)
}

/// The argument vector is a function of the option values alone: two option
/// records that agree field by field yield the same vector, so repeated
/// builds of identical options are reproducible.
pub proof fn lemma_arg_list_deterministic(a: SearchOptionsView, b: SearchOptionsView)
    requires
        a == b,
    ensures
        arg_list(a) == arg_list(b),
{
}

/// Empty-string glob entries never produce an argument token: dropping them
/// from either glob list beforehand leaves the emitted flags unchanged.
pub proof fn lemma_empty_globs_dropped(globs: Seq<Seq<char>>)
    ensures
        include_glob_args(globs.filter(|g: Seq<char>| g.len() > 0)) == include_glob_args(globs),
        exclude_glob_args(globs.filter(|g: Seq<char>| g.len() > 0)) == exclude_glob_args(globs),
    decreases globs.len(),
{
    reveal(Seq::filter);
    let pred = |g: Seq<char>| g.len() > 0;
    if globs.len() == 0 {
    } else {
        lemma_empty_globs_dropped(globs.drop_last());
        let sub = globs.drop_last().filter(pred);
        if pred(globs.last()) {
            assert(globs.filter(pred) == sub.push(globs.last()));
            assert(sub.push(globs.last()).drop_last() =~= sub);
            assert(sub.push(globs.last()).last() == globs.last());
        } else {
            assert(globs.filter(pred) == sub);
        }
    }
}

/// The hidden-traversal and ignore-bypass flags always appear together,
/// never one without the other: turning `search_hidden` on inserts exactly
/// the adjacent pair `--hidden --no-ignore` between the leading and trailing
/// arguments, and neither of those two segments reads `search_hidden`.
pub proof fn lemma_hidden_flags_coupled(o: SearchOptionsView)
    ensures
        o.search_hidden ==> arg_list(o) == leading_args(o) + seq!["--hidden"@, "--no-ignore"@]
            + trailing_args(o),
        !o.search_hidden ==> arg_list(o) == leading_args(o) + trailing_args(o),
        leading_args(o) == leading_args(SearchOptionsView { search_hidden: !o.search_hidden, ..o }),
        trailing_args(o) == trailing_args(
            SearchOptionsView { search_hidden: !o.search_hidden, ..o },
        ),
{
    if !o.search_hidden {
        assert(arg_list(o) =~= leading_args(o) + trailing_args(o));
    }
}

fn push_str(args: &mut Vec<String>, s: &str)
    ensures
        final(args).deep_view() == old(args).deep_view().push(s@),
{
    args.push(String::from_str(s));
    proof {
        assert(args.deep_view() =~= old(args).deep_view().push(s@));
    }
}

fn push_string(args: &mut Vec<String>, s: String)
    ensures
        final(args).deep_view() == old(args).deep_view().push(s@),
{
    let ghost v = s@;
    args.push(s);
    proof {
        assert(args.deep_view() =~= old(args).deep_view().push(v));
    }
}

proof fn lemma_include_step(globs: Seq<Seq<char>>, i: int)
    requires
        0 <= i < globs.len(),
    ensures
        include_glob_args(globs.take(i + 1)) == include_glob_args(globs.take(i)) + (if globs[i].len()
            == 0 {
            seq![]
        } else {
            seq!["-g"@, globs[i]]
        }),
{
    assert(globs.take(i + 1).drop_last() =~= globs.take(i));
    assert(globs.take(i + 1).last() == globs[i]);
}

proof fn lemma_exclude_step(globs: Seq<Seq<char>>, i: int)
    requires
        0 <= i < globs.len(),
    ensures
        exclude_glob_args(globs.take(i + 1)) == exclude_glob_args(globs.take(i)) + (if globs[i].len()
            == 0 {
            seq![]
        } else {
            seq!["-g"@, seq!['!'] + globs[i]]
        }),
{
    assert(globs.take(i + 1).drop_last() =~= globs.take(i));
    assert(globs.take(i + 1).last() == globs[i]);
}

/// Validate `options` and derive the argument vector.
///
/// Succeeds exactly when `max_depth` lies in `[1, 10]`; the options value
/// itself is never changed, and the returned vector is exactly [`arg_list`]
/// of the options' view.
#[verifier::rlimit(60)]
pub fn build(options: &SearchOptions) -> (r: Result<Vec<String>, ValidationError>)
    ensures
        r is Ok <==> 1 <= options@.max_depth <= 10,
        r matches Ok(args) ==> args.deep_view() == arg_list(options@),
        r matches Err(e) ==> e == ValidationError::DepthOutOfRange,
{
    if options.max_depth == 0 || options.max_depth > 10 {
        return Err(ValidationError::DepthOutOfRange);
    }
    let ghost o = options@;
    let mut args: Vec<String> = Vec::new();

    push_str(&mut args, "--json");
    push_str(&mut args, "-H");
    push_str(&mut args, "-n");
    push_str(&mut args, "-C");
    push_string(&mut args, u32_to_string(options.context_lines));
    proof {
        assert(args.deep_view() =~= base_args(o));
    }

    if !options.case_sensitive {
        push_str(&mut args, "-i");
    }
    proof {
        assert(args.deep_view() =~= base_args(o) + case_args(o));
    }

    if options.search_hidden {
        push_str(&mut args, "--hidden");
        push_str(&mut args, "--no-ignore");
    }
    proof {
        assert(args.deep_view() =~= leading_args(o) + hidden_args(o));
    }

    if let Some(file_type) = &options.file_type {
        if !file_type.as_str().is_empty() {
            push_str(&mut args, "-t");
            push_string(&mut args, file_type.clone());
        }
    }
    let ghost before_globs = leading_args(o) + hidden_args(o) + type_args(o);
    proof {
        assert(args.deep_view() =~= before_globs);
    }

    let mut i: usize = 0;
    while i < options.include_globs.len()
        invariant
            i <= options.include_globs.len(),
            o == options@,
            args.deep_view() == before_globs + include_glob_args(o.include_globs.take(i as int)),
        decreases options.include_globs.len() - i,
    {
        let g = &options.include_globs[i];
        proof {
            assert(o.include_globs[i as int] == g@);
        }
        if !g.as_str().is_empty() {
            push_str(&mut args, "-g");
            push_string(&mut args, g.clone());
        }
        proof {
            lemma_include_step(o.include_globs, i as int);
            assert(args.deep_view() =~= before_globs + include_glob_args(
                o.include_globs.take(i + 1),
            ));
        }
        i += 1;
    }
    let ghost before_excludes = before_globs + include_glob_args(o.include_globs);
    proof {
        assert(o.include_globs.take(o.include_globs.len() as int) =~= o.include_globs);
        assert(args.deep_view() == before_excludes);
    }

    let mut j: usize = 0;
    while j < options.exclude_globs.len()
        invariant
            j <= options.exclude_globs.len(),
            o == options@,
            args.deep_view() == before_excludes + exclude_glob_args(o.exclude_globs.take(j as int)),
        decreases options.exclude_globs.len() - j,
    {
        let g = &options.exclude_globs[j];
        proof {
            assert(o.exclude_globs[j as int] == g@);
        }
        if !g.as_str().is_empty() {
            push_str(&mut args, "-g");
            let negated = String::from_str("!").concat(g.as_str());
            proof {
                reveal_strlit("!");
                assert(negated@ =~= seq!['!'] + g@);
            }
            push_string(&mut args, negated);
        }
        proof {
            lemma_exclude_step(o.exclude_globs, j as int);
            assert(args.deep_view() =~= before_excludes + exclude_glob_args(
                o.exclude_globs.take(j + 1),
            ));
        }
        j += 1;
    }
    proof {
        assert(o.exclude_globs.take(o.exclude_globs.len() as int) =~= o.exclude_globs);
    }

    push_str(&mut args, "--max-depth");
    push_string(&mut args, u32_to_string(options.max_depth));
    push_string(&mut args, options.pattern.clone());
    push_string(&mut args, options.directory.clone());
    proof {
        assert(args.deep_view() =~= arg_list(o));
    }
    Ok(args)
}

} // verus!
