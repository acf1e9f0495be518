//! Execution results, and the pipeline planner: the decisions the
//! interpreter takes for one conditional-chain element, laid out as a
//! plan of process steps plus a closing action.  The host program
//! carries the plan out; everything the plan says is specified here.

use vstd::prelude::*;
use vstd::string::*;
use crate::builtins::{function_call_script, spec_substitute};
use crate::redirect::{parse_stages, spec_stages, stage_views, Stage, StageV};
use crate::resolve::{
    expand_stage, resolve_stage, spec_expand_stage, spec_resolve, BuiltinCall, BuiltinV,
    DirectiveKind, Resolution, ResolutionV,
};
use crate::state::{spec_fn_body, ShellState, StateV};
use crate::text::{seq_views, starts_with_char};

verus! {

/// Why a command failed.
#[derive(Debug, Clone)]
pub enum ShellError {
    /// A malformed `set`, `alias` or `fn`: missing key, `=` or value.
    ExpressionRequired,
    /// The operating system could not create a process.
    ProcessSpawnFailure { detail: String },
    /// A file could not be opened, read, written or copied.
    IOFailure { detail: String },
    /// A name was invoked as a function but no body is stored for it.
    UndefinedFunction { name: String },
}

/// The outcome of executing one chain element, line or script.
#[derive(Debug, Clone)]
pub enum ExecutionResult {
    Success,
    Error(ShellError),
    Exit,
}

impl ShellError {
    /// A printable description of the failure.
    pub fn message(&self) -> (r: String)
        ensures
            (match self {
                ShellError::ExpressionRequired => r@ == "expression required"@,
                ShellError::ProcessSpawnFailure { detail } => r@ == "failed to spawn process: "@
                    + detail@,
                ShellError::IOFailure { detail } => r@ == detail@,
                ShellError::UndefinedFunction { name } => r@ == "undefined function: "@ + name@,
            }),
    {
        match self {
            ShellError::ExpressionRequired => String::from_str("expression required"),
            ShellError::ProcessSpawnFailure { detail } => {
                let mut s = String::from_str("failed to spawn process: ");
                s.append(detail.as_str());
                s
            },
            ShellError::IOFailure { detail } => detail.clone(),
            ShellError::UndefinedFunction { name } => {
                let mut s = String::from_str("undefined function: ");
                s.append(name.as_str());
                s
            },
        }
    }
}

/// Where a spawned process's standard output goes.
#[derive(Debug, Clone)]
pub enum OutTarget {
    /// The controlling terminal: the last stage of a plain chain.
    Inherit,
    /// A pipe read by the next step.
    Piped,
    /// A file, appended to or truncated first.
    ToFile { file: String, append: bool },
}

/// One step the host program performs while running a chain.
#[derive(Debug, Clone)]
pub enum ProcStep {
    /// Spawn an external command; its standard input is the previous
    /// step's output when `stdin_from_prev` holds, else the terminal.
    Spawn { cmd: String, args: Vec<String>, stdin_from_prev: bool, out: OutTarget },
    /// Block until the process spawned by the previous step finishes.
    WaitPrev,
    /// Copy the whole contents of file `from` into file `to`; the copy
    /// must complete before the next step starts.
    CopyFile { from: String, to: String, append: bool },
    /// Read the contents of a file; they become the previous output
    /// fed to the next step.
    ReadFile { file: String },
}

/// How a chain ends after its steps have run.
#[derive(Debug, Clone)]
pub enum ChainTail {
    /// Nothing left to do: the chain reports success.
    Proceed,
    /// Block until the last spawned process finishes, then report its
    /// completion.
    WaitFinal,
    /// Dispatch a builtin.
    Builtin { call: BuiltinCall },
    /// Run a user function's substituted body as a script.
    RunScript { script: String },
    /// Dispatch an instant directive; it consumes the previous
    /// stage's captured output when `uses_capture` holds.
    Directive { kind: DirectiveKind, args: Vec<String>, uses_capture: bool },
}

/// The full plan for one conditional-chain element.
#[derive(Debug, Clone)]
pub struct ChainPlan {
    pub steps: Vec<ProcStep>,
    pub tail: ChainTail,
}

/// Ghost image of an output target.
#[verifier::ext_equal]
pub ghost enum OutV {
    Inherit,
    Piped,
    ToFile { file: Seq<char>, append: bool },
}

/// Ghost image of a process step.
#[verifier::ext_equal]
pub ghost enum StepV {
    Spawn { cmd: Seq<char>, args: Seq<Seq<char>>, stdin_from_prev: bool, out: OutV },
    WaitPrev,
    Copy { from: Seq<char>, to: Seq<char>, append: bool },
    Read { file: Seq<char> },
}

/// Ghost image of a chain tail.
#[verifier::ext_equal]
pub ghost enum TailV {
    Proceed,
    WaitFinal,
    Builtin { call: BuiltinV },
    RunScript { script: Seq<char> },
    Directive { kind: DirectiveKind, args: Seq<Seq<char>>, uses_capture: bool },
}

/// Ghost image of a chain plan.
#[verifier::ext_equal]
pub ghost struct PlanV {
    pub steps: Seq<StepV>,
    pub tail: TailV,
}

impl View for OutTarget {
    type V = OutV;

    open spec fn view(&self) -> OutV {
        match self {
            OutTarget::Inherit => OutV::Inherit,
            OutTarget::Piped => OutV::Piped,
            OutTarget::ToFile { file, append } => OutV::ToFile { file: file@, append: *append },
        }
    }
}

impl View for ProcStep {
    type V = StepV;

    open spec fn view(&self) -> StepV {
        match self {
            ProcStep::Spawn { cmd, args, stdin_from_prev, out } => StepV::Spawn {
                cmd: cmd@,
                args: seq_views(args@),
                stdin_from_prev: *stdin_from_prev,
                out: out@,
            },
            ProcStep::WaitPrev => StepV::WaitPrev,
            ProcStep::CopyFile { from, to, append } => StepV::Copy {
                from: from@,
                to: to@,
                append: *append,
            },
            ProcStep::ReadFile { file } => StepV::Read { file: file@ },
        }
    }
}

impl View for ChainTail {
    type V = TailV;

    open spec fn view(&self) -> TailV {
        match self {
            ChainTail::Proceed => TailV::Proceed,
            ChainTail::WaitFinal => TailV::WaitFinal,
            ChainTail::Builtin { call } => TailV::Builtin { call: call@ },
            ChainTail::RunScript { script } => TailV::RunScript { script: script@ },
            ChainTail::Directive { kind, args, uses_capture } => TailV::Directive {
                kind: *kind,
                args: seq_views(args@),
                uses_capture: *uses_capture,
            },
        }
    }
}

/// The views of a sequence of process steps.
pub open spec fn step_views(s: Seq<ProcStep>) -> Seq<StepV> {
    s.map_values(|x: ProcStep| x@)
}

impl View for ChainPlan {
    type V = PlanV;

    open spec fn view(&self) -> PlanV {
        PlanV { steps: step_views(self.steps@), tail: self.tail@ }
    }
}

/// The relay of consecutive redirection targets beginning at stage
/// `j`: each target in turn receives a full copy of the previous
/// target's file.  Yields the copy steps, the index of the first
/// stage after the relay, and the last file written.
pub open spec fn spec_relay(stages: Seq<StageV>, j: int, prev: Seq<char>) -> (Seq<StepV>, int, Seq<
    char,
>)
    decreases stages.len() - j,
{
    if j < 0 || j >= stages.len() {
        (Seq::empty(), j, prev)
    } else {
        match stages[j].redirect {
            Some(rd) => {
                let rest = spec_relay(stages, j + 1, rd.file);
                (
                    seq![StepV::Copy { from: prev, to: rd.file, append: rd.append }] + rest.0,
                    rest.1,
                    rest.2,
                )
            },
            None => (Seq::empty(), j, prev),
        }
    }
}

/// The relay never walks backwards nor past the stage list.
pub proof fn lemma_relay_bounds(stages: Seq<StageV>, j: int, prev: Seq<char>)
    requires
        0 <= j <= stages.len(),
    ensures
        j <= spec_relay(stages, j, prev).1 <= stages.len(),
    decreases stages.len() - j,
{
    if j < stages.len() {
        match stages[j].redirect {
            Some(rd) => {
                lemma_relay_bounds(stages, j + 1, rd.file);
            },
            None => {},
        }
    }
}

/// The plan for the stages from position `i` on.  A builtin, user
/// function or instant directive short-circuits the rest of the
/// chain.  An external command's output goes to the terminal when it
/// is last, to a pipe when another command follows, or to the first
/// redirection target's file — in which case the command is awaited
/// and the remaining consecutive targets are served by ordered file
/// copies, the last file feeding any stage that follows.
pub open spec fn spec_plan_stages(st: StateV, stages: Seq<StageV>, i: int, have_prev: bool) -> PlanV
    decreases stages.len() - i,
    via spec_plan_stages_dec
{
    if i < 0 || i >= stages.len() {
        PlanV {
            steps: Seq::empty(),
            tail: if have_prev {
                TailV::WaitFinal
            } else {
                TailV::Proceed
            },
        }
    } else {
        let r = spec_resolve(st, spec_expand_stage(st, stages[i].text));
        match r {
            ResolutionV::Empty => PlanV { steps: Seq::empty(), tail: TailV::Proceed },
            ResolutionV::Builtin(b) => PlanV { steps: Seq::empty(), tail: TailV::Builtin { call: b } },
            ResolutionV::Function { name, args } => PlanV {
                steps: Seq::empty(),
                tail: TailV::RunScript {
                    script: match spec_fn_body(st, name) {
                        Some(b) => spec_substitute(b, args),
                        None => Seq::empty(),
                    },
                },
            },
            ResolutionV::Directive { kind, args } => PlanV {
                steps: Seq::empty(),
                tail: TailV::Directive { kind, args, uses_capture: have_prev },
            },
            ResolutionV::External { cmd, args } => {
                if i + 1 < stages.len() {
                    match stages[i + 1].redirect {
                        Some(rd) => {
                            let first = seq![
                                StepV::Spawn {
                                    cmd,
                                    args,
                                    stdin_from_prev: have_prev,
                                    out: OutV::ToFile { file: rd.file, append: rd.append },
                                },
                                StepV::WaitPrev,
                            ];
                            let relay = spec_relay(stages, i + 2, rd.file);
                            if relay.1 < stages.len() {
                                let cont = spec_plan_stages(st, stages, relay.1, true);
                                PlanV {
                                    steps: first + relay.0 + seq![StepV::Read { file: relay.2 }]
                                        + cont.steps,
                                    tail: cont.tail,
                                }
                            } else {
                                PlanV { steps: first + relay.0, tail: TailV::Proceed }
                            }
                        },
                        None => {
                            let cont = spec_plan_stages(st, stages, i + 1, true);
                            PlanV {
                                steps: seq![
                                    StepV::Spawn {
                                        cmd,
                                        args,
                                        stdin_from_prev: have_prev,
                                        out: OutV::Piped,
                                    },
                                ] + cont.steps,
                                tail: cont.tail,
                            }
                        },
                    }
                } else {
                    PlanV {
                        steps: seq![
                            StepV::Spawn {
                                cmd,
                                args,
                                stdin_from_prev: have_prev,
                                out: OutV::Inherit,
                            },
                        ],
                        tail: TailV::WaitFinal,
                    }
                }
            },
        }
    }
}

#[via_fn]
proof fn spec_plan_stages_dec(st: StateV, stages: Seq<StageV>, i: int, have_prev: bool) {
    if 0 <= i && i + 1 < stages.len() {
        match stages[i + 1].redirect {
            Some(rd) => {
                lemma_relay_bounds(stages, i + 2, rd.file);
            },
            None => {},
        }
    }
}

/// The plan of one conditional-chain element: an empty element or a
/// comment does nothing; anything else is rewritten, split into
/// stages and planned from the first stage.
pub open spec fn spec_plan_chain(st: StateV, chain: Seq<char>) -> PlanV {
    if chain.len() == 0 || chain[0] == '#' {
        PlanV { steps: Seq::empty(), tail: TailV::Proceed }
    } else {
        spec_plan_stages(st, spec_stages(chain), 0, false)
    }
}

/// Build the relay copy steps for the consecutive redirection targets
/// beginning at stage `j`.
fn plan_relay(stages: &Vec<Stage>, j: usize, prev: String) -> (r: (Vec<ProcStep>, usize, String))
    requires
        j <= stages@.len(),
    ensures
        ({
            let m = spec_relay(stage_views(stages@), j as int, prev@);
            step_views(r.0@) == m.0 && r.1 as int == m.1 && r.2@ == m.2
        }),
    decreases stages@.len() - j,
{
    let ghost sv = stage_views(stages@);
    if j >= stages.len() {
        let r = (Vec::<ProcStep>::new(), j, prev);
        proof {
            assert(step_views(r.0@) =~= spec_relay(sv, j as int, r.2@).0);
        }
        return r;
    }
    proof {
        assert(sv[j as int] == stages@[j as int]@);
    }
    match &stages[j].redirect {
        Some(rd) => {
            let file = rd.file.clone();
            let append = rd.append;
            let rest = plan_relay(stages, j + 1, file.clone());
            let mut steps: Vec<ProcStep> = Vec::new();
            steps.push(ProcStep::CopyFile { from: prev, to: file, append });
            let mut rest_steps = rest.0;
            steps.append(&mut rest_steps);
            proof {
                let m = spec_relay(sv, j as int, prev@);
                let mrest = spec_relay(sv, j as int + 1, stages@[j as int]@.redirect->Some_0.file);
                assert(step_views(steps@) =~= seq![
                    StepV::Copy {
                        from: prev@,
                        to: stages@[j as int]@.redirect->Some_0.file,
                        append: stages@[j as int]@.redirect->Some_0.append,
                    },
                ] + mrest.0);
            }
            (steps, rest.1, rest.2)
        },
        None => {
            let r = (Vec::<ProcStep>::new(), j, prev);
            proof {
                assert(step_views(r.0@) =~= spec_relay(sv, j as int, r.2@).0);
            }
            r
        },
    }
}

/// Build the plan for the stages from position `i` on.
fn plan_stages(state: &ShellState, stages: &Vec<Stage>, i: usize, have_prev: bool) -> (r: ChainPlan)
    requires
        i <= stages@.len(),
    ensures
        r@ == spec_plan_stages(state@, stage_views(stages@), i as int, have_prev),
    decreases stages@.len() - i,
{
    let ghost sv = stage_views(stages@);
    let ghost model = spec_plan_stages(state@, sv, i as int, have_prev);
    if i >= stages.len() {
        let tail = if have_prev {
            ChainTail::WaitFinal
        } else {
            ChainTail::Proceed
        };
        let r = ChainPlan { steps: Vec::new(), tail };
        proof {
            assert(r@ =~~= model);
        }
        return r;
    }
    proof {
        assert(sv[i as int] == stages@[i as int]@);
    }
    let expanded = expand_stage(state, stages[i].text.as_str());
    let res = resolve_stage(state, expanded.as_str());
    let ghost resv = res@;
    match res {
        Resolution::Empty => {
            let r = ChainPlan { steps: Vec::new(), tail: ChainTail::Proceed };
            proof {
                assert(r@ =~~= model);
            }
            r
        },
        Resolution::Builtin(b) => {
            let r = ChainPlan { steps: Vec::new(), tail: ChainTail::Builtin { call: b } };
            proof {
                assert(r@ =~~= model);
            }
            r
        },
        Resolution::Function { name, args } => {
            proof {
                assert(spec_fn_body(state@, name@) is Some);
            }
            match function_call_script(state, name.as_str(), &args) {
                Ok(script) => {
                    let r = ChainPlan { steps: Vec::new(), tail: ChainTail::RunScript { script } };
                    proof {
                        assert(r@ =~~= model);
                    }
                    r
                },
                Err(_) => {
                    proof {
                        assert(false);
                    }
                    ChainPlan { steps: Vec::new(), tail: ChainTail::Proceed }
                },
            }
        },
        Resolution::Directive { kind, args } => {
            let r = ChainPlan {
                steps: Vec::new(),
                tail: ChainTail::Directive { kind, args, uses_capture: have_prev },
            };
            proof {
                assert(r@ =~~= model);
            }
            r
        },
        Resolution::External { cmd, args } => {
            if i + 1 < stages.len() {
                proof {
                    assert(sv[i as int + 1] == stages@[i as int + 1]@);
                }
                let tag: Option<(String, bool)> = match &stages[i + 1].redirect {
                    Some(rd) => Some((rd.file.clone(), rd.append)),
                    None => None,
                };
                match tag {
                    Some((rd_file, rd_append)) => {
                        let mut steps: Vec<ProcStep> = Vec::new();
                        steps.push(
                            ProcStep::Spawn {
                                cmd,
                                args,
                                stdin_from_prev: have_prev,
                                out: OutTarget::ToFile { file: rd_file.clone(), append: rd_append },
                            },
                        );
                        steps.push(ProcStep::WaitPrev);
                        let ghost rdv = stages@[i as int + 1]@.redirect->Some_0;
                        let relay = plan_relay(stages, i + 2, rd_file);
                        proof {
                            lemma_relay_bounds(sv, i as int + 2, rdv.file);
                        }
                        let mut relay_steps = relay.0;
                        steps.append(&mut relay_steps);
                        if relay.1 < stages.len() {
                            steps.push(ProcStep::ReadFile { file: relay.2 });
                            let cont = plan_stages(state, stages, relay.1, true);
                            let ChainPlan { steps: mut cont_steps, tail } = cont;
                            steps.append(&mut cont_steps);
                            let r = ChainPlan { steps, tail };
                            proof {
                                assert(r@ =~~= model);
                            }
                            r
                        } else {
                            let r = ChainPlan { steps, tail: ChainTail::Proceed };
                            proof {
                                assert(r@ =~~= model);
                            }
                            r
                        }
                    },
                    None => {
                        let cont = plan_stages(state, stages, i + 1, true);
                        let mut steps: Vec<ProcStep> = Vec::new();
                        steps.push(
                            ProcStep::Spawn {
                                cmd,
                                args,
                                stdin_from_prev: have_prev,
                                out: OutTarget::Piped,
                            },
                        );
                        let ChainPlan { steps: mut cont_steps, tail } = cont;
                        steps.append(&mut cont_steps);
                        let r = ChainPlan { steps, tail };
                        proof {
                            assert(r@ =~~= model);
                        }
                        r
                    },
                }
            } else {
                let mut steps: Vec<ProcStep> = Vec::new();
                steps.push(
                    ProcStep::Spawn {
                        cmd,
                        args,
                        stdin_from_prev: have_prev,
                        out: OutTarget::Inherit,
                    },
                );
                let r = ChainPlan { steps, tail: ChainTail::WaitFinal };
                proof {
                    assert(r@ =~~= model);
                }
                r
            }
        },
    }
}

/// Whether execution goes on after a result: only after success.
/// `cmd1 && cmd2` runs `cmd2` exactly when `cmd1` neither failed nor
/// asked to exit — the conditional-AND separator short-circuits on
/// failure rather than merely sequencing — and a script likewise
/// aborts its remaining lines on the first error or exit request.
pub fn chain_continues(r: &ExecutionResult) -> (c: bool)
    ensures
        c == (r matches ExecutionResult::Success),
{
    match r {
        ExecutionResult::Success => true,
        _ => false,
    }
}

/// The source file of a copy step.
pub open spec fn copy_source(s: StepV) -> Seq<char> {
    match s {
        StepV::Copy { from, .. } => from,
        _ => Seq::empty(),
    }
}

/// The target file of a copy step.
pub open spec fn copy_target(s: StepV) -> Seq<char> {
    match s {
        StepV::Copy { to, .. } => to,
        _ => Seq::empty(),
    }
}

/// Redirection relay ordering: the relay is a chain of whole-file
/// copies in which every copy reads exactly the file the previous
/// copy wrote (the first reads the file the command itself wrote),
/// and what flows onward is the last file of the chain.  Since each
/// copy is a single blocking step of the plan, a later target sees an
/// earlier target's content only after that content is complete.
pub proof fn lemma_relay_is_ordered(stages: Seq<StageV>, j: int, prev: Seq<char>)
    requires
        0 <= j <= stages.len(),
    ensures
        ({
            let r = spec_relay(stages, j, prev);
            (forall|k: int| 0 <= k < r.0.len() ==> r.0[k] is Copy) && (r.0.len() > 0
                ==> copy_source(r.0[0]) == prev) && (forall|k: int|
                1 <= k < r.0.len() ==> copy_source(r.0[k]) == copy_target(r.0[k - 1])) && r.2 == (
            if r.0.len() == 0 {
                prev
            } else {
                copy_target(r.0.last())
            })
        }),
    decreases stages.len() - j,
{
    if j < stages.len() {
        match stages[j].redirect {
            Some(rd) => {
                lemma_relay_is_ordered(stages, j + 1, rd.file);
                let rest = spec_relay(stages, j + 1, rd.file);
                let r = spec_relay(stages, j, prev);
                assert(r.0[0] == StepV::Copy { from: prev, to: rd.file, append: rd.append });
                assert(forall|k: int| 1 <= k < r.0.len() ==> r.0[k] == rest.0[k - 1]);
                if rest.0.len() > 0 {
                    assert(r.0.last() == rest.0.last());
                }
            },
            None => {},
        }
    }
}

/// A redirected command is spawned with its output directed at the
/// first target file — truncating for a write target, appending for
/// an append target — and is waited for before any relay copy or
/// later stage runs.
pub proof fn lemma_redirected_spawn(
    st: StateV,
    stages: Seq<StageV>,
    i: int,
    have_prev: bool,
    cmd: Seq<char>,
    args: Seq<Seq<char>>,
    rd: crate::redirect::RedirectionV,
)
    requires
        0 <= i,
        i + 1 < stages.len(),
        spec_resolve(st, spec_expand_stage(st, stages[i].text)) == (ResolutionV::External {
            cmd,
            args,
        }),
        stages[i + 1].redirect == Some(rd),
    ensures
        ({
            let p = spec_plan_stages(st, stages, i, have_prev);
            p.steps.len() >= 2 && p.steps[0] == (StepV::Spawn {
                cmd,
                args,
                stdin_from_prev: have_prev,
                out: OutV::ToFile { file: rd.file, append: rd.append },
            }) && p.steps[1] == StepV::WaitPrev
        }),
{
}

/// Whether carrying out a tail could store into the interpreter
/// state: directly through the `set`, `alias` or `fn` builtins, or by
/// re-entering the interpreter with further text — a user function's
/// script or a file run by the exec directive — which may itself
/// contain such a builtin.
pub open spec fn tail_may_store(t: TailV) -> bool {
    match t {
        TailV::Builtin { call } => match call {
            BuiltinV::SetVar { .. } => true,
            BuiltinV::Alias { .. } => true,
            BuiltinV::Fn { .. } => true,
            _ => false,
        },
        TailV::RunScript { .. } => true,
        TailV::Directive { kind, .. } => kind == DirectiveKind::Exec,
        _ => false,
    }
}

/// One step of a script run as the host carries it out: the state
/// after a chain may differ from the state before it only when the
/// chain's tail could store.  Every table mutation the library offers
/// is reached from such a tail; everything else the host does —
/// spawning, waiting, copying files, printing — never touches the
/// tables.
pub open spec fn host_step(before: StateV, chain: Seq<char>, after: StateV) -> bool {
    !tail_may_store(spec_plan_chain(before, chain).tail) ==> after == before
}

proof fn lemma_run_states_constant(
    st: StateV,
    chains: Seq<Seq<char>>,
    states: Seq<StateV>,
    k: int,
)
    requires
        states.len() == chains.len() + 1,
        states[0] == st,
        forall|i: int| 0 <= i < chains.len() ==> #[trigger] host_step(states[i], chains[i], states[i + 1]),
        forall|i: int|
            0 <= i < chains.len() ==> !tail_may_store(
                spec_plan_chain(st, #[trigger] chains[i]).tail,
            ),
        0 <= k <= chains.len(),
    ensures
        states[k] == st,
    decreases k,
{
    if k > 0 {
        let i = k - 1;
        lemma_run_states_constant(st, chains, states, i);
        assert(host_step(states[i], chains[i], states[i + 1]));
        assert(!tail_may_store(spec_plan_chain(st, chains[i]).tail));
    }
}

/// Re-running a script with no stores has no hidden state: take any
/// run of the script — the sequence of states the host passes
/// through, one per chain, each step obeying `host_step`.  If no
/// chain of the script plans to a tail that could store, every state
/// of the run equals the initial one, and every chain is planned
/// against that same state — so a second run of the script produces
/// exactly the same plans, steps and tails as the first.
pub proof fn lemma_store_free_script_replans_identically(
    st: StateV,
    chains: Seq<Seq<char>>,
    states: Seq<StateV>,
)
    requires
        states.len() == chains.len() + 1,
        states[0] == st,
        forall|i: int| 0 <= i < chains.len() ==> #[trigger] host_step(states[i], chains[i], states[i + 1]),
        forall|i: int|
            0 <= i < chains.len() ==> !tail_may_store(
                spec_plan_chain(st, #[trigger] chains[i]).tail,
            ),
    ensures
        forall|k: int| 0 <= k <= chains.len() ==> #[trigger] states[k] == st,
        forall|i: int|
            0 <= i < chains.len() ==> #[trigger] spec_plan_chain(states[i], chains[i])
                == spec_plan_chain(st, chains[i]),
{
    assert forall|k: int| 0 <= k <= chains.len() implies #[trigger] states[k] == st by {
        lemma_run_states_constant(st, chains, states, k);
    }
}

/// Plan one conditional-chain element against the current state.
/// Planning reads the state and never changes it; the same state and
/// the same text always yield the same plan.
pub fn plan_chain(state: &ShellState, chain: &str) -> (r: ChainPlan)
    ensures
        r@ == spec_plan_chain(state@, chain@),
{
    if chain.unicode_len() == 0 || starts_with_char(chain, '#') {
        let r = ChainPlan { steps: Vec::new(), tail: ChainTail::Proceed };
        proof {
            assert(r@ =~~= spec_plan_chain(state@, chain@));
        }
        return r;
    }
    let stages = parse_stages(chain);
    plan_stages(state, &stages, 0, false)
}

} // verus!
