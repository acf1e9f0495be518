//! Instant directives: stages behind the reserved `@` sigil that run
//! inline and short-circuit the rest of their chain.
//!
//! `@format` builds a styled line of text; `@exec` decides which
//! script file to run and whether an exit request from it is
//! honoured.  Both consume the previous stage's captured output when
//! one exists; the capture itself and the printing are the caller's
//! work.

use vstd::prelude::*;
use vstd::string::*;
use crate::colors::{spec_style_code, style_code};
use crate::execute::ExecutionResult;
use crate::text::{contains_str, seq_views, spec_trim, spec_trim_end, starts_with_char,
    trim_end_str, trim_str};

verus! {

/// The composed escape prefix of every recognised style flag among the
/// arguments: each flag in order prepends its escape sequence.
pub open spec fn spec_styles(args: Seq<Seq<char>>) -> Seq<char>
    decreases args.len(),
{
    if args.len() == 0 {
        Seq::empty()
    } else {
        spec_style_code(args.last()) + spec_styles(args.drop_last())
    }
}

/// The text `@format` styles when no captured output exists: the
/// leading non-flag arguments, each followed by one space.
pub open spec fn spec_format_base(args: Seq<Seq<char>>) -> Seq<char>
    decreases args.len(),
{
    if args.len() == 0 {
        Seq::empty()
    } else if args[0].len() > 0 && args[0][0] == '-' {
        Seq::empty()
    } else {
        args[0] + seq![' '] + spec_format_base(args.drop_first())
    }
}

/// The line `@format` prints: the captured output of the previous
/// stage if one exists, else the joined leading non-flag arguments;
/// trailing whitespace removed; every recognised style flag prepending
/// its escape sequence in argument order.
pub open spec fn spec_format_line(captured: Option<Seq<char>>, args: Seq<Seq<char>>) -> Seq<
    char,
> {
    let base = match captured {
        Some(c) => c,
        None => spec_format_base(args),
    };
    spec_styles(args) + spec_trim_end(base)
}

/// Build the styled line of the `@format` directive.
pub fn format_line(captured: &Option<String>, args: &Vec<String>) -> (r: String)
    ensures
        r@ == spec_format_line(
            match captured {
                Some(c) => Some(c@),
                None => None,
            },
            seq_views(args@),
        ),
{
    let ghost av = seq_views(args@);
    let base: String = match captured {
        Some(c) => c.clone(),
        None => {
            let mut s = String::new();
            let mut i: usize = 0;
            proof {
                assert(av.skip(0) =~= av);
                assert(s@ + spec_format_base(av) =~= spec_format_base(av));
            }
            while i < args.len() && !starts_with_char(args[i].as_str(), '-')
                invariant
                    av == seq_views(args@),
                    i <= av.len(),
                    spec_format_base(av) == s@ + spec_format_base(av.skip(i as int)),
                decreases av.len() - i,
            {
                let ghost suf = av.skip(i as int);
                let ghost s0 = s@;
                proof {
                    assert(suf[0] == av[i as int]);
                    assert(av[i as int] == args@[i as int]@);
                    assert(suf.drop_first() =~= av.skip(i as int + 1));
                }
                s.append(args[i].as_str());
                s.append(" ");
                proof {
                    reveal_strlit(" ");
                    assert(" "@ =~= seq![' ']);
                    assert(spec_format_base(suf) == suf[0] + seq![' '] + spec_format_base(
                        av.skip(i as int + 1),
                    ));
                    assert(s0 + spec_format_base(suf) =~= s@ + spec_format_base(
                        av.skip(i as int + 1),
                    ));
                }
                i += 1;
            }
            proof {
                let suf = av.skip(i as int);
                if i < args.len() {
                    assert(suf[0] == av[i as int] && av[i as int] == args@[i as int]@);
                    assert(spec_format_base(suf) =~= Seq::<char>::empty());
                } else {
                    assert(suf.len() == 0);
                }
                assert(s@ + spec_format_base(suf) =~= s@);
            }
            s
        },
    };
    let mut out = trim_end_str(base.as_str());
    let mut i: usize = 0;
    proof {
        assert(av.take(0) =~= Seq::<Seq<char>>::empty());
        assert(spec_styles(av.take(0)) + spec_trim_end(base@) =~= out@);
    }
    while i < args.len()
        invariant
            av == seq_views(args@),
            i <= av.len(),
            out@ == spec_styles(av.take(i as int)) + spec_trim_end(base@),
        decreases av.len() - i,
    {
        let ghost before = av.take(i as int);
        let code = style_code(args[i].as_str());
        out = String::from_str(code).concat(out.as_str());
        proof {
            let after = av.take(i as int + 1);
            assert(after.last() == av[i as int]);
            assert(av[i as int] == args@[i as int]@);
            assert(after.drop_last() =~= before);
            assert(spec_styles(after) == spec_style_code(av[i as int]) + spec_styles(before));
            assert(out@ =~= spec_styles(after) + spec_trim_end(base@));
        }
        i += 1;
    }
    proof {
        assert(av.take(av.len() as int) =~= av);
    }
    out
}

/// What `@exec` runs: the trimmed captured output of the previous
/// stage if one exists, else the trimmed first argument (or nothing);
/// and whether an exit request is downgraded (`--noexit` or `-n`).
pub open spec fn spec_exec_target(captured: Option<Seq<char>>, args: Seq<Seq<char>>) -> Seq<
    char,
> {
    match captured {
        Some(c) => spec_trim(c),
        None => if args.len() > 0 {
            spec_trim(args[0])
        } else {
            Seq::empty()
        },
    }
}

/// Whether the `@exec` arguments ask to survive an exit request.
pub open spec fn spec_exec_noexit(args: Seq<Seq<char>>) -> bool {
    (exists|i: int| 0 <= i < args.len() && args[i] == "--noexit"@) || (exists|i: int|
        0 <= i < args.len() && args[i] == "-n"@)
}

/// Decide the script path and the no-exit flag of an `@exec` stage.
pub fn exec_target(captured: &Option<String>, args: &Vec<String>) -> (r: (String, bool))
    ensures
        r.0@ == spec_exec_target(
            match captured {
                Some(c) => Some(c@),
                None => None,
            },
            seq_views(args@),
        ),
        r.1 == spec_exec_noexit(seq_views(args@)),
{
    let path = match captured {
        Some(c) => trim_str(c.as_str()),
        None => {
            if args.len() > 0 {
                proof {
                    assert(seq_views(args@)[0] == args@[0]@);
                }
                trim_str(args[0].as_str())
            } else {
                String::new()
            }
        },
    };
    let noexit = contains_str(args, "--noexit") || contains_str(args, "-n");
    proof {
        let av = seq_views(args@);
        assert(forall|i: int| 0 <= i < av.len() ==> av[i] == (#[trigger] args@[i])@);
        assert(noexit == spec_exec_noexit(av));
    }
    (path, noexit)
}

/// The result an `@exec` directive reports: an exit request from the
/// executed script is downgraded to success when the no-exit flag was
/// supplied; everything else passes through unchanged.
pub fn downgrade_exit(noexit: bool, r: ExecutionResult) -> (res: ExecutionResult)
    ensures
        r matches ExecutionResult::Exit ==> (if noexit {
            res matches ExecutionResult::Success
        } else {
            res matches ExecutionResult::Exit
        }),
        !(r matches ExecutionResult::Exit) ==> res == r,
{
    match r {
        ExecutionResult::Exit => {
            if noexit {
                ExecutionResult::Success
            } else {
                ExecutionResult::Exit
            }
        },
        other => other,
    }
}

} // verus!
