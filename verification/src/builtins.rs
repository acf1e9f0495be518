//! The builtin dispatcher's state operations: `set`, `alias`, `fn`
//! storage, and `cd` path resolution — and the function registry's
//! positional placeholder substitution.

use vstd::prelude::*;
use vstd::string::*;
use crate::execute::{ExecutionResult, ShellError};
use crate::resolve::{parse_single_argument, spec_parse_arg};
use crate::state::{spec_fn_body, spec_var, ShellState, StateV};
use crate::text::{
    char_at_is, is_space, is_space_char, join_with, lemma_skip_one, lemma_skip_skip,
    lemma_skip_subrange, lemma_token_prefix_is, lemma_token_prefix_len, seq_views, space_at,
    spec_join, spec_token_prefix, spec_trim, starts_with_char, str_eq, trim_str,
};

verus! {

/// Split on the first `=`: the text before it and the text after it.
pub open spec fn spec_eq_split(s: Seq<char>) -> Option<(Seq<char>, Seq<char>)>
    decreases s.len(),
{
    if s.len() == 0 {
        None
    } else if s[0] == '=' {
        Some((Seq::empty(), s.drop_first()))
    } else {
        match spec_eq_split(s.drop_first()) {
            None => None,
            Some(kv) => Some((seq![s[0]] + kv.0, kv.1)),
        }
    }
}

proof fn lemma_eq_split_at(s: Seq<char>, i: int)
    requires
        0 <= i < s.len(),
        s[i] == '=',
        forall|j: int| 0 <= j < i ==> s[j] != '=',
    ensures
        spec_eq_split(s) == Some((s.subrange(0, i), s.skip(i + 1))),
    decreases i,
{
    if i == 0 {
        assert(s.subrange(0, 0) =~= Seq::<char>::empty());
        assert(s.drop_first() =~= s.skip(1));
    } else {
        assert(s[0] != '=');
        let t = s.drop_first();
        assert(forall|j: int| 0 <= j < i - 1 ==> t[j] != '=');
        assert(t[i - 1] == '=');
        lemma_eq_split_at(t, i - 1);
        assert(seq![s[0]] + t.subrange(0, i - 1) =~= s.subrange(0, i));
        assert(t.skip(i) =~= s.skip(i + 1));
    }
}

proof fn lemma_eq_split_none(s: Seq<char>)
    requires
        forall|j: int| 0 <= j < s.len() ==> s[j] != '=',
    ensures
        spec_eq_split(s) is None,
    decreases s.len(),
{
    if s.len() > 0 {
        lemma_eq_split_none(s.drop_first());
    }
}

/// Split `s` at its first `=`.
fn split_once_eq(s: &str) -> (r: Option<(String, String)>)
    ensures
        (match r {
            Some(kv) => spec_eq_split(s@) == Some((kv.0@, kv.1@)),
            None => spec_eq_split(s@) is None,
        }),
{
    let n = s.unicode_len();
    let mut i: usize = 0;
    while i < n
        invariant
            n as nat == s@.len(),
            i <= n,
            forall|j: int| 0 <= j < i ==> s@[j] != '=',
        decreases n - i,
    {
        if s.get_char(i) == '=' {
            let k = String::from_str(s.substring_char(0, i));
            let v = String::from_str(s.substring_char(i + 1, n));
            proof {
                lemma_eq_split_at(s@, i as int);
                assert(s@.subrange(i + 1, n as int) =~= s@.skip(i + 1));
            }
            return Some((k, v));
        }
        i += 1;
    }
    proof {
        lemma_eq_split_none(s@);
    }
    None
}

/// The key/value pair a `set` expression stores: split on the first
/// `=`, both sides trimmed and passed through argument resolution; any
/// missing part rejects the expression.
pub open spec fn spec_set_parts(st: StateV, e: Seq<char>) -> Option<(Seq<char>, Seq<char>)> {
    match spec_eq_split(e) {
        None => None,
        Some(kv) => {
            let kt = spec_trim(kv.0);
            let vt = spec_trim(kv.1);
            if kt.len() == 0 || vt.len() == 0 {
                None
            } else {
                match (spec_parse_arg(st, kt), spec_parse_arg(st, vt)) {
                    (Some(k), Some(v)) => Some((k, v)),
                    _ => None,
                }
            }
        },
    }
}

/// The name/value pair an `alias` expression stores: split on the
/// first `=`, both sides trimmed, neither empty.
pub open spec fn spec_alias_parts(e: Seq<char>) -> Option<(Seq<char>, Seq<char>)> {
    match spec_eq_split(e) {
        None => None,
        Some(kv) => {
            let kt = spec_trim(kv.0);
            let vt = spec_trim(kv.1);
            if kt.len() == 0 || vt.len() == 0 {
                None
            } else {
                Some((kt, vt))
            }
        },
    }
}

/// The builtin `set key=value`: store a variable.  A missing
/// expression, key, `=` or value fails with `ExpressionRequired`; both
/// sides go through the same expansion as ordinary argument tokens.
pub fn set_variable(state: &mut ShellState, expression: Option<&str>) -> (r: ExecutionResult)
    ensures
        ({
            let st0 = old(state)@;
            match expression {
                None => final(state)@ == st0 && r matches ExecutionResult::Error(
                    ShellError::ExpressionRequired,
                ),
                Some(e) => match spec_set_parts(st0, e@) {
                    None => final(state)@ == st0 && r matches ExecutionResult::Error(
                        ShellError::ExpressionRequired,
                    ),
                    Some(kv) => r matches ExecutionResult::Success && final(state)@.aliases
                        == st0.aliases && final(state)@.fns == st0.fns && forall|q: Seq<char>|
                        #[trigger] spec_var(final(state)@, q) == (if q == kv.0 {
                            Some(kv.1)
                        } else {
                            spec_var(st0, q)
                        }),
                },
            }
        }),
{
    let e = match expression {
        None => {
            return ExecutionResult::Error(ShellError::ExpressionRequired);
        },
        Some(e) => e,
    };
    let kv = match split_once_eq(e) {
        None => {
            return ExecutionResult::Error(ShellError::ExpressionRequired);
        },
        Some(kv) => kv,
    };
    let kt = trim_str(kv.0.as_str());
    let vt = trim_str(kv.1.as_str());
    if kt.as_str().unicode_len() == 0 || vt.as_str().unicode_len() == 0 {
        return ExecutionResult::Error(ShellError::ExpressionRequired);
    }
    let k = match parse_single_argument(state, kt.as_str()) {
        None => {
            return ExecutionResult::Error(ShellError::ExpressionRequired);
        },
        Some(k) => k,
    };
    let v = match parse_single_argument(state, vt.as_str()) {
        None => {
            return ExecutionResult::Error(ShellError::ExpressionRequired);
        },
        Some(v) => v,
    };
    state.store_var(k, v);
    ExecutionResult::Success
}

/// The builtin `alias name=value`: store an alias definition.  The
/// same split contract as `set`, without argument expansion.
pub fn set_alias(state: &mut ShellState, expression: Option<&str>) -> (r: ExecutionResult)
    ensures
        ({
            let st0 = old(state)@;
            match expression {
                None => final(state)@ == st0 && r matches ExecutionResult::Error(
                    ShellError::ExpressionRequired,
                ),
                Some(e) => match spec_alias_parts(e@) {
                    None => final(state)@ == st0 && r matches ExecutionResult::Error(
                        ShellError::ExpressionRequired,
                    ),
                    Some(kv) => r matches ExecutionResult::Success && final(state)@.vars
                        == st0.vars && final(state)@.fns == st0.fns && forall|q: Seq<char>|
                        #[trigger] crate::state::spec_alias(final(state)@, q) == (if q == kv.0 {
                            Some(kv.1)
                        } else {
                            crate::state::spec_alias(st0, q)
                        }),
                },
            }
        }),
{
    let e = match expression {
        None => {
            return ExecutionResult::Error(ShellError::ExpressionRequired);
        },
        Some(e) => e,
    };
    let kv = match split_once_eq(e) {
        None => {
            return ExecutionResult::Error(ShellError::ExpressionRequired);
        },
        Some(kv) => kv,
    };
    let kt = trim_str(kv.0.as_str());
    let vt = trim_str(kv.1.as_str());
    if kt.as_str().unicode_len() == 0 || vt.as_str().unicode_len() == 0 {
        return ExecutionResult::Error(ShellError::ExpressionRequired);
    }
    state.store_alias(kt, vt);
    ExecutionResult::Success
}

/// What a `fn` declaration asks of the caller.
#[derive(Debug, Clone)]
pub enum FnDeclOutcome {
    /// A single-line body was stored.
    Stored,
    /// A brace-form declaration: the caller must collect the body
    /// lines interactively and store them under the name.
    NeedBody { name: String },
    /// The declaration is malformed: missing name or body.
    Rejected,
}

/// The builtin `fn name <body>` or `fn name {`: store a user function
/// or ask the caller to collect a multi-line body.
pub fn function_declaration(state: &mut ShellState, args: &Vec<String>) -> (r: FnDeclOutcome)
    ensures
        ({
            let st0 = old(state)@;
            if args@.len() < 2 {
                final(state)@ == st0 && r matches FnDeclOutcome::Rejected
            } else if args@[1]@ == "{"@ {
                final(state)@ == st0 && (r matches FnDeclOutcome::NeedBody { name } && name@
                    == args@[0]@)
            } else {
                r matches FnDeclOutcome::Stored && final(state)@.vars == st0.vars
                    && final(state)@.aliases == st0.aliases && forall|q: Seq<char>|
                    #[trigger] spec_fn_body(final(state)@, q) == (if q == args@[0]@ {
                        Some(spec_join(seq_views(args@).drop_first(), ' '))
                    } else {
                        spec_fn_body(st0, q)
                    })
            }
        }),
{
    if args.len() < 2 {
        return FnDeclOutcome::Rejected;
    }
    if str_eq(args[1].as_str(), "{") {
        return FnDeclOutcome::NeedBody { name: args[0].clone() };
    }
    let mut body_parts: Vec<String> = Vec::new();
    let mut i: usize = 1;
    while i < args.len()
        invariant
            1 <= i <= args@.len(),
            body_parts@.len() == i - 1,
            forall|j: int| 0 <= j < i - 1 ==> (#[trigger] body_parts@[j])@ == args@[j + 1]@,
        decreases args@.len() - i,
    {
        body_parts.push(args[i].clone());
        i += 1;
    }
    proof {
        reveal_strlit(" ");
        assert(seq_views(body_parts@) =~= seq_views(args@).drop_first());
    }
    let body = join_with(&body_parts, " ");
    state.store_fn(args[0].clone(), body);
    FnDeclOutcome::Stored
}

/// Where `cd` goes: no argument or `~` resolves to the `HOME`
/// variable; any other argument is the literal path.  `None` means
/// `HOME` is needed but undefined — a fatal configuration error that
/// the caller surfaces, not a recoverable result.
pub open spec fn spec_cd_target(st: StateV, arg: Option<Seq<char>>) -> Option<Seq<char>> {
    match arg {
        Some(a) => if a == "~"@ {
            spec_var(st, "HOME"@)
        } else {
            Some(a)
        },
        None => spec_var(st, "HOME"@),
    }
}

/// Resolve the directory the builtin `cd` changes to.
pub fn cd_target(state: &ShellState, arg: &Option<String>) -> (r: Option<String>)
    ensures
        (match r {
            Some(p) => spec_cd_target(state@, match arg {
                Some(a) => Some(a@),
                None => None,
            }) == Some(p@),
            None => spec_cd_target(state@, match arg {
                Some(a) => Some(a@),
                None => None,
            }) is None,
        }),
{
    match arg {
        Some(a) => {
            if str_eq(a.as_str(), "~") {
                state.lookup_var("HOME")
            } else {
                Some(a.clone())
            }
        },
        None => state.lookup_var("HOME"),
    }
}

/// A placeholder token: it begins with the placeholder sigil but is
/// not a chain-AND sigil.
pub open spec fn spec_is_placeholder(t: Seq<char>) -> bool {
    t.len() > 0 && t[0] == '&' && !(t.len() >= 2 && t[1] == '&')
}

/// Substitute call arguments into the body text, left to right,
/// starting at argument index `k`: whitespace — newlines included —
/// is kept exactly as written; each placeholder token consumes the
/// next available argument in its place; once the arguments run out,
/// the remaining placeholders stay literal.  Yields the substituted
/// text and the next argument index.
pub open spec fn spec_subst_text(s: Seq<char>, args: Seq<Seq<char>>, k: int) -> (Seq<char>, int)
    decreases s.len(),
    via spec_subst_text_dec
{
    if s.len() == 0 {
        (Seq::empty(), k)
    } else if is_space(s[0]) {
        let rest = spec_subst_text(s.drop_first(), args, k);
        (seq![s[0]] + rest.0, rest.1)
    } else {
        let t = spec_token_prefix(s);
        if spec_is_placeholder(t) && k < args.len() {
            let rest = spec_subst_text(s.skip(t.len() as int), args, k + 1);
            (args[k] + rest.0, rest.1)
        } else {
            let rest = spec_subst_text(s.skip(t.len() as int), args, k);
            (t + rest.0, rest.1)
        }
    }
}

#[via_fn]
proof fn spec_subst_text_dec(s: Seq<char>, args: Seq<Seq<char>>, k: int) {
    if s.len() > 0 && !is_space(s[0]) {
        lemma_token_prefix_len(s);
        assert(spec_token_prefix(s).len() >= 1);
    }
}

/// A function body with the call arguments substituted for its
/// placeholder tokens, everything else kept verbatim.
pub open spec fn spec_substitute(body: Seq<char>, args: Seq<Seq<char>>) -> Seq<char> {
    spec_subst_text(body, args, 0).0
}

/// Substitute the call-site arguments into a function body.
pub fn substitute_placeholders(body: &str, args: &Vec<String>) -> (r: String)
    ensures
        r@ == spec_substitute(body@, seq_views(args@)),
{
    let ghost sv = body@;
    let ghost av = seq_views(args@);
    let n = body.unicode_len();
    let mut out = String::new();
    let mut k: usize = 0;
    let mut i: usize = 0;
    proof {
        assert(sv.skip(0) =~= sv);
        assert(out@ + spec_subst_text(sv, av, 0).0 =~= spec_subst_text(sv, av, 0).0);
    }
    while i < n
        invariant
            n as nat == body@.len(),
            sv == body@,
            av == seq_views(args@),
            i <= n,
            k <= av.len(),
            spec_subst_text(sv, av, 0).0 == out@ + spec_subst_text(
                sv.skip(i as int),
                av,
                k as int,
            ).0,
            spec_subst_text(sv, av, 0).1 == spec_subst_text(sv.skip(i as int), av, k as int).1,
        decreases n - i,
    {
        let ghost suf = sv.skip(i as int);
        let ghost out0 = out@;
        let ghost k0 = k as int;
        proof {
            lemma_skip_one(sv, i as int);
        }
        let c = body.get_char(i);
        if is_space_char(c) {
            out.append(body.substring_char(i, i + 1));
            proof {
                assert(sv.subrange(i as int, i as int + 1) =~= seq![sv[i as int]]);
                let rest = spec_subst_text(sv.skip(i as int + 1), av, k0);
                assert(spec_subst_text(suf, av, k0) == (seq![suf[0]] + rest.0, rest.1));
                assert(out0 + (seq![suf[0]] + rest.0) =~= out@ + rest.0);
            }
            i += 1;
        } else {
            let mut j: usize = i + 1;
            while j < n && !space_at(body, j)
                invariant
                    n as nat == body@.len(),
                    sv == body@,
                    i < j <= n,
                    forall|m: int| i <= m < j ==> !is_space(sv[m]),
                decreases n - j,
            {
                j += 1;
            }
            proof {
                assert(forall|m: int| 0 <= m < j - i ==> suf[m] == sv[i + m]);
                if j < n {
                    assert(suf[j - i] == sv[j as int]);
                }
                lemma_token_prefix_is(suf, j - i);
                lemma_skip_subrange(sv, i as int, 0, j - i);
                assert(spec_token_prefix(suf) == sv.subrange(i as int, j as int));
            }
            let token = String::from_str(body.substring_char(i, j));
            let is_ph = starts_with_char(token.as_str(), '&') && !char_at_is(
                token.as_str(),
                1,
                '&',
            );
            proof {
                let t = spec_token_prefix(suf);
                assert(token@ == t);
                assert(t.len() == j - i);
                assert(is_ph == spec_is_placeholder(t));
                lemma_skip_skip(sv, i as int, j - i);
                assert(suf.skip(t.len() as int) == sv.skip(j as int));
            }
            if is_ph && k < args.len() {
                proof {
                    assert(av[k as int] == args@[k as int]@);
                }
                out.append(args[k].as_str());
                k += 1;
            } else {
                out.append(token.as_str());
            }
            proof {
                let t = spec_token_prefix(suf);
                let rest = spec_subst_text(sv.skip(j as int), av, k as int);
                assert(spec_subst_text(suf, av, k0) == (if spec_is_placeholder(t) && k0
                    < av.len() {
                    (av[k0] + rest.0, rest.1)
                } else {
                    (t + rest.0, rest.1)
                }));
                assert(out0 + spec_subst_text(suf, av, k0).0 =~= out@ + rest.0);
            }
            i = j;
        }
    }
    proof {
        assert(sv.skip(i as int).len() == 0);
        assert(spec_subst_text(sv.skip(i as int), av, k as int).0 =~= Seq::<char>::empty());
        assert(out@ + spec_subst_text(sv.skip(i as int), av, k as int).0 =~= out@);
    }
    out
}

/// The script a user-function invocation runs: the stored body with
/// the call arguments substituted; an unknown name is the
/// `UndefinedFunction` error.
pub fn function_call_script(state: &ShellState, name: &str, args: &Vec<String>) -> (r: Result<
    String,
    ShellError,
>)
    ensures
        (match spec_fn_body(state@, name@) {
            Some(b) => r matches Ok(s) && s@ == spec_substitute(b, seq_views(args@)),
            None => r matches Err(ShellError::UndefinedFunction { name: n }) && n@ == name@,
        }),
{
    match state.lookup_fn(name) {
        Some(body) => Ok(substitute_placeholders(body.as_str(), args)),
        None => Err(ShellError::UndefinedFunction { name: String::from_str(name) }),
    }
}

} // verus!
