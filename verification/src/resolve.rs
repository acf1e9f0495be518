//! Alias & token resolver, and stage resolution.
//!
//! Expansion is a single pass: each whitespace-delimited token of a
//! stage is replaced by its alias definition if one exists, except
//! tokens carrying the leading literal-quote marker, which are left
//! alone.  Argument tokens are then resolved one by one when the
//! argument vector is built: `$NAME` becomes the variable's value (or
//! the bare name when undefined), a leading quote marker is stripped,
//! and a `#` token ends the argument list.
//!
//! A resolved stage is exactly one of: builtin, instant directive,
//! user function, external command — in that order.

use vstd::prelude::*;
use vstd::string::*;
use crate::state::{spec_alias, spec_fn_body, spec_var, ShellState, StateV};
use crate::text::{seq_views, spec_join, spec_tokens, starts_with_char, str_eq, tokens_of};

verus! {

/// Alias lookup with the literal-quote rule: a quoted token has one
/// marker stripped and is never expanded; any other token becomes its
/// alias definition, or stays itself.
pub open spec fn spec_get_alias(st: StateV, t: Seq<char>) -> Seq<char> {
    if t.len() > 0 && t[0] == '\'' {
        t.skip(1)
    } else {
        match spec_alias(st, t) {
            Some(v) => v,
            None => t,
        }
    }
}

/// One token of the expansion pass: quoted tokens are left untouched
/// (marker included); others become their alias definition, if any.
pub open spec fn spec_expand_token(st: StateV, t: Seq<char>) -> Seq<char> {
    if t.len() > 0 && t[0] == '\'' {
        t
    } else {
        match spec_alias(st, t) {
            Some(v) => v,
            None => t,
        }
    }
}

/// The alias expansion of a whole stage: every token expanded once,
/// the results joined by single spaces.
pub open spec fn spec_expand_stage(st: StateV, text: Seq<char>) -> Seq<char> {
    spec_join(spec_tokens(text).map_values(|t: Seq<char>| spec_expand_token(st, t)), ' ')
}

/// One argument token resolved for the argument vector.
pub open spec fn spec_parse_arg(st: StateV, a: Seq<char>) -> Option<Seq<char>> {
    if a.len() == 0 {
        Some(a)
    } else if a[0] == '$' {
        if a.len() > 1 {
            match spec_var(st, a.skip(1)) {
                Some(v) => Some(v),
                None => Some(a.skip(1)),
            }
        } else {
            Some(a)
        }
    } else if a[0] == '\'' {
        Some(a.skip(1))
    } else if a[0] == '#' {
        None
    } else {
        Some(a)
    }
}

/// The argument vector: tokens resolved left to right, stopping at the
/// first comment token.
pub open spec fn spec_parse_args(st: StateV, ts: Seq<Seq<char>>) -> Seq<Seq<char>>
    decreases ts.len(),
{
    if ts.len() == 0 {
        Seq::empty()
    } else {
        match spec_parse_arg(st, ts[0]) {
            None => Seq::empty(),
            Some(v) => seq![v] + spec_parse_args(st, ts.drop_first()),
        }
    }
}

/// Alias lookup for a command token, stripping a literal-quote marker.
pub fn get_alias(state: &ShellState, token: &str) -> (r: String)
    ensures
        r@ == spec_get_alias(state@, token@),
{
    if starts_with_char(token, '\'') {
        let n = token.unicode_len();
        proof {
            assert(token@.subrange(1, n as int) =~= token@.skip(1));
        }
        String::from_str(token.substring_char(1, n))
    } else {
        match state.lookup_alias(token) {
            Some(v) => v,
            None => String::from_str(token),
        }
    }
}

/// Whether `name` has a stored user-function body.
pub fn is_function(state: &ShellState, name: &str) -> (r: bool)
    ensures
        r == (spec_fn_body(state@, name@) is Some),
{
    match state.lookup_fn(name) {
        Some(_) => true,
        None => false,
    }
}

/// Resolve one argument token: `$NAME` becomes the variable's value or
/// the bare name, a quote marker is stripped, `#` ends the arguments.
pub fn parse_single_argument(state: &ShellState, argument: &str) -> (r: Option<String>)
    requires
        argument@.len() > 0,
    ensures
        (match r {
            Some(v) => spec_parse_arg(state@, argument@) == Some(v@),
            None => spec_parse_arg(state@, argument@) is None,
        }),
{
    let n = argument.unicode_len();
    let c = argument.get_char(0);
    if c == '$' {
        if n > 1 {
            proof {
                assert(argument@.subrange(1, n as int) =~= argument@.skip(1));
            }
            let name = argument.substring_char(1, n);
            match state.lookup_var(name) {
                Some(v) => Some(v),
                None => Some(String::from_str(name)),
            }
        } else {
            Some(String::from_str(argument))
        }
    } else if c == '\'' {
        proof {
            assert(argument@.subrange(1, n as int) =~= argument@.skip(1));
        }
        Some(String::from_str(argument.substring_char(1, n)))
    } else if c == '#' {
        None
    } else {
        Some(String::from_str(argument))
    }
}

/// Build the argument vector from raw argument tokens.
pub fn parse_args(state: &ShellState, args: &Vec<String>) -> (r: Vec<String>)
    requires
        forall|i: int| 0 <= i < args@.len() ==> (#[trigger] args@[i])@.len() > 0,
    ensures
        seq_views(r@) == spec_parse_args(state@, seq_views(args@)),
{
    let ghost full = seq_views(args@);
    let mut done: Vec<String> = Vec::new();
    let mut i: usize = 0;
    proof {
        assert(full.skip(0) =~= full);
        assert(seq_views(done@).len() == 0);
        assert(seq_views(done@) + spec_parse_args(state@, full) =~= spec_parse_args(state@, full));
    }
    while i < args.len()
        invariant
            full == seq_views(args@),
            forall|k: int| 0 <= k < args@.len() ==> (#[trigger] args@[k])@.len() > 0,
            i <= args@.len(),
            spec_parse_args(state@, full) == seq_views(done@) + spec_parse_args(
                state@,
                full.skip(i as int),
            ),
        decreases args@.len() - i,
    {
        let ghost olddone = done@;
        let ghost suf = full.skip(i as int);
        proof {
            assert(suf[0] == full[i as int]);
            assert(full[i as int] == args@[i as int]@);
            assert(suf.drop_first() =~= full.skip(i as int + 1));
        }
        match parse_single_argument(state, args[i].as_str()) {
            Some(v) => {
                done.push(v);
                proof {
                    crate::text::lemma_seq_views_push(olddone, done@.last());
                    assert(spec_parse_args(state@, suf) == seq![done@.last()@]
                        + spec_parse_args(state@, full.skip(i as int + 1)));
                    assert(seq_views(olddone) + spec_parse_args(state@, suf) =~= seq_views(done@)
                        + spec_parse_args(state@, full.skip(i as int + 1)));
                }
            },
            None => {
                proof {
                    assert(spec_parse_args(state@, suf) =~= Seq::<Seq<char>>::empty());
                    assert(seq_views(done@) + spec_parse_args(state@, suf) =~= seq_views(done@));
                }
                return done;
            },
        }
        i += 1;
    }
    proof {
        assert(full.skip(i as int).len() == 0);
        assert(seq_views(done@) + spec_parse_args(state@, full.skip(i as int)) =~= seq_views(
            done@,
        ));
    }
    done
}

/// Expand every token of a stage once against the alias table.
pub fn expand_stage(state: &ShellState, text: &str) -> (r: String)
    ensures
        r@ == spec_expand_stage(state@, text@),
{
    let toks = tokens_of(text);
    let ghost model = spec_tokens(text@).map_values(
        |t: Seq<char>| spec_expand_token(state@, t),
    );
    let mut expanded: Vec<String> = Vec::new();
    let mut i: usize = 0;
    while i < toks.len()
        invariant
            seq_views(toks@) == spec_tokens(text@),
            model == spec_tokens(text@).map_values(|t: Seq<char>| spec_expand_token(state@, t)),
            i <= toks@.len(),
            expanded@.len() == i,
            forall|j: int| 0 <= j < i ==> (#[trigger] expanded@[j])@ == model[j],
        decreases toks@.len() - i,
    {
        let ghost t = toks@[i as int]@;
        proof {
            assert(t == seq_views(toks@)[i as int]);
            assert(model[i as int] == spec_expand_token(state@, t));
        }
        if starts_with_char(toks[i].as_str(), '\'') {
            expanded.push(toks[i].clone());
        } else {
            match state.lookup_alias(toks[i].as_str()) {
                Some(v) => expanded.push(v),
                None => expanded.push(toks[i].clone()),
            }
        }
        i += 1;
    }
    proof {
        reveal_strlit(" ");
        assert(" "@.len() == 1 && " "@[0] == ' ');
        assert(seq_views(expanded@) =~= model);
    }
    join_with_space(&expanded)
}

/// Join parts with single spaces.
fn join_with_space(parts: &Vec<String>) -> (r: String)
    ensures
        r@ == spec_join(seq_views(parts@), ' '),
{
    proof {
        reveal_strlit(" ");
    }
    crate::text::join_with(parts, " ")
}

/// What a stage is: a builtin call, an instant directive, a user
/// function invocation, an external command, or nothing at all.
#[derive(Debug, Clone)]
pub enum Resolution {
    /// A stage with no tokens: nothing to run.
    Empty,
    Builtin(BuiltinCall),
    Directive { kind: DirectiveKind, args: Vec<String> },
    Function { name: String, args: Vec<String> },
    External { cmd: String, args: Vec<String> },
}

/// A builtin together with the raw text it operates on.
#[derive(Debug, Clone)]
pub enum BuiltinCall {
    Cd { arg: Option<String> },
    Exit,
    SetVar { expr: Option<String> },
    Alias { expr: String },
    Fn { args: Vec<String> },
}

/// Which instant directive a `@`-prefixed stage names.
#[derive(Debug, Clone, Copy, PartialEq, Eq, Structural)]
pub enum DirectiveKind {
    Exec,
    Format,
    Other,
}

/// Ghost image of a builtin call.
#[verifier::ext_equal]
pub ghost enum BuiltinV {
    Cd { arg: Option<Seq<char>> },
    Exit,
    SetVar { expr: Option<Seq<char>> },
    Alias { expr: Seq<char> },
    Fn { args: Seq<Seq<char>> },
}

/// Ghost image of a stage resolution.
#[verifier::ext_equal]
pub ghost enum ResolutionV {
    Empty,
    Builtin(BuiltinV),
    Directive { kind: DirectiveKind, args: Seq<Seq<char>> },
    Function { name: Seq<char>, args: Seq<Seq<char>> },
    External { cmd: Seq<char>, args: Seq<Seq<char>> },
}

impl View for BuiltinCall {
    type V = BuiltinV;

    open spec fn view(&self) -> BuiltinV {
        match self {
            BuiltinCall::Cd { arg } => BuiltinV::Cd {
                arg: match arg {
                    Some(a) => Some(a@),
                    None => None,
                },
            },
            BuiltinCall::Exit => BuiltinV::Exit,
            BuiltinCall::SetVar { expr } => BuiltinV::SetVar {
                expr: match expr {
                    Some(e) => Some(e@),
                    None => None,
                },
            },
            BuiltinCall::Alias { expr } => BuiltinV::Alias { expr: expr@ },
            BuiltinCall::Fn { args } => BuiltinV::Fn { args: seq_views(args@) },
        }
    }
}

impl View for Resolution {
    type V = ResolutionV;

    open spec fn view(&self) -> ResolutionV {
        match self {
            Resolution::Empty => ResolutionV::Empty,
            Resolution::Builtin(b) => ResolutionV::Builtin(b@),
            Resolution::Directive { kind, args } => ResolutionV::Directive {
                kind: *kind,
                args: seq_views(args@),
            },
            Resolution::Function { name, args } => ResolutionV::Function {
                name: name@,
                args: seq_views(args@),
            },
            Resolution::External { cmd, args } => ResolutionV::External {
                cmd: cmd@,
                args: seq_views(args@),
            },
        }
    }
}

/// How an expanded stage resolves.  The command position has a
/// literal-quote marker stripped; builtins are matched first, then the
/// instant-directive sigil, then the function table; everything else is
/// an external command.  Arguments of directives and external commands
/// go through the argument resolver; `cd`, `set`, `alias` and `fn`
/// receive their raw tokens; user functions receive raw tokens for
/// positional substitution.
pub open spec fn spec_resolve(st: StateV, text: Seq<char>) -> ResolutionV {
    let ts = spec_tokens(text);
    if ts.len() == 0 {
        ResolutionV::Empty
    } else {
        let c0 = ts[0];
        let cmd = if c0.len() > 0 && c0[0] == '\'' {
            c0.skip(1)
        } else {
            c0
        };
        let rest = ts.drop_first();
        if cmd == "cd"@ {
            ResolutionV::Builtin(
                BuiltinV::Cd {
                    arg: if rest.len() > 0 {
                        Some(rest[0])
                    } else {
                        None
                    },
                },
            )
        } else if cmd == "exit"@ {
            ResolutionV::Builtin(BuiltinV::Exit)
        } else if cmd == "set"@ {
            ResolutionV::Builtin(
                BuiltinV::SetVar {
                    expr: if rest.len() > 0 {
                        Some(rest[0])
                    } else {
                        None
                    },
                },
            )
        } else if cmd == "alias"@ {
            ResolutionV::Builtin(BuiltinV::Alias { expr: spec_join(rest, ' ') })
        } else if cmd == "fn"@ {
            ResolutionV::Builtin(BuiltinV::Fn { args: rest })
        } else if cmd.len() > 0 && cmd[0] == '@' {
            let kind = if cmd == "@exec"@ {
                DirectiveKind::Exec
            } else if cmd == "@format"@ {
                DirectiveKind::Format
            } else {
                DirectiveKind::Other
            };
            ResolutionV::Directive { kind, args: spec_parse_args(st, rest) }
        } else if spec_fn_body(st, cmd) is Some {
            ResolutionV::Function { name: cmd, args: rest }
        } else {
            ResolutionV::External { cmd, args: spec_parse_args(st, rest) }
        }
    }
}

/// Resolve one already-expanded stage.
pub fn resolve_stage(state: &ShellState, text: &str) -> (r: Resolution)
    ensures
        r@ == spec_resolve(state@, text@),
{
    let toks = tokens_of(text);
    let ghost ts = spec_tokens(text@);
    if toks.len() == 0 {
        return Resolution::Empty;
    }
    proof {
        assert(toks@[0]@ == ts[0]);
    }
    let cmd: String = if starts_with_char(toks[0].as_str(), '\'') {
        let n = toks[0].as_str().unicode_len();
        proof {
            assert(toks@[0]@.subrange(1, n as int) =~= ts[0].skip(1));
        }
        String::from_str(toks[0].as_str().substring_char(1, n))
    } else {
        toks[0].clone()
    };
    let mut rest: Vec<String> = Vec::new();
    let mut i: usize = 1;
    while i < toks.len()
        invariant
            seq_views(toks@) == ts,
            1 <= i <= toks@.len(),
            rest@.len() == i - 1,
            forall|j: int| 0 <= j < i - 1 ==> (#[trigger] rest@[j])@ == ts[j + 1],
            forall|j: int| 0 <= j < toks@.len() ==> (#[trigger] toks@[j])@.len() > 0,
        decreases toks@.len() - i,
    {
        rest.push(toks[i].clone());
        i += 1;
    }
    proof {
        assert(seq_views(rest@) =~= ts.drop_first());
        assert(forall|j: int|
            0 <= j < rest@.len() ==> (#[trigger] rest@[j])@.len() > 0) by {
            assert(forall|j: int|
                0 <= j < rest@.len() ==> (#[trigger] rest@[j])@ == ts.drop_first()[j]
                    && rest@[j]@ == toks@[j + 1]@);
        }
    }
    let r: Resolution = if str_eq(cmd.as_str(), "cd") {
        let arg = if rest.len() > 0 {
            Some(rest[0].clone())
        } else {
            None
        };
        Resolution::Builtin(BuiltinCall::Cd { arg })
    } else if str_eq(cmd.as_str(), "exit") {
        Resolution::Builtin(BuiltinCall::Exit)
    } else if str_eq(cmd.as_str(), "set") {
        let expr = if rest.len() > 0 {
            Some(rest[0].clone())
        } else {
            None
        };
        Resolution::Builtin(BuiltinCall::SetVar { expr })
    } else if str_eq(cmd.as_str(), "alias") {
        let expr = join_with_space(&rest);
        Resolution::Builtin(BuiltinCall::Alias { expr })
    } else if str_eq(cmd.as_str(), "fn") {
        Resolution::Builtin(BuiltinCall::Fn { args: rest })
    } else if starts_with_char(cmd.as_str(), '@') {
        let kind = if str_eq(cmd.as_str(), "@exec") {
            DirectiveKind::Exec
        } else if str_eq(cmd.as_str(), "@format") {
            DirectiveKind::Format
        } else {
            DirectiveKind::Other
        };
        let args = parse_args(state, &rest);
        Resolution::Directive { kind, args }
    } else if is_function(state, cmd.as_str()) {
        Resolution::Function { name: cmd, args: rest }
    } else {
        let args = parse_args(state, &rest);
        Resolution::External { cmd, args }
    };
    proof {
        assert(r@ =~~= spec_resolve(state@, text@));
    }
    r
}

/// An aliased name runs exactly like its definition: a stage that is
/// one bare token whose alias is `body` resolves as the stage `body`
/// itself resolves, provided expanding `body` leaves it unchanged
/// (expansion is a single pass and never re-expands substituted
/// text).
pub proof fn lemma_alias_runs_like_its_body(st: StateV, name: Seq<char>, body: Seq<char>)
    requires
        spec_tokens(name) == seq![name],
        name.len() > 0,
        name[0] != '\'',
        spec_alias(st, name) == Some(body),
        spec_expand_stage(st, body) == body,
    ensures
        spec_expand_stage(st, name) == body,
        spec_resolve(st, spec_expand_stage(st, name)) == spec_resolve(
            st,
            spec_expand_stage(st, body),
        ),
{
    let expanded = spec_tokens(name).map_values(|t: Seq<char>| spec_expand_token(st, t));
    assert(expanded =~= seq![body]);
    assert(spec_join(expanded, ' ') == body);
}

/// A literal-quoted token escapes alias expansion and runs a command
/// literally so named: when the bare name is no builtin, no directive
/// and no stored function, the stage resolves to an external command
/// of exactly that name.
pub proof fn lemma_quoted_name_runs_literally(st: StateV, token: Seq<char>, name: Seq<char>)
    requires
        token == seq!['\''] + name,
        spec_tokens(token) == seq![token],
        name != "cd"@,
        name != "exit"@,
        name != "set"@,
        name != "alias"@,
        name != "fn"@,
        !(name.len() > 0 && name[0] == '@'),
        spec_fn_body(st, name) is None,
    ensures
        spec_resolve(st, spec_expand_stage(st, token)) == (ResolutionV::External {
            cmd: name,
            args: Seq::empty(),
        }),
{
    assert(token[0] == '\'');
    let expanded = spec_tokens(token).map_values(|t: Seq<char>| spec_expand_token(st, t));
    assert(expanded =~= seq![token]);
    assert(spec_join(expanded, ' ') == token);
    let ts = spec_tokens(spec_expand_stage(st, token));
    assert(ts == seq![token]);
    assert(ts[0].skip(1) =~= name);
    assert(ts.drop_first() =~= Seq::<Seq<char>>::empty());
}

} // verus!
