use rsh::builtins::{function_declaration, set_alias, set_variable};
use rsh::execute::{plan_chain, ChainTail, OutTarget, ProcStep};
use rsh::resolve::{BuiltinCall, DirectiveKind};
use rsh::state::ShellState;

fn s(x: &str) -> String {
    x.to_string()
}

#[test]
fn empty_and_comment_chains_do_nothing() {
    let st = ShellState::new();
    let p = plan_chain(&st, "");
    assert!(p.steps.is_empty());
    assert!(matches!(p.tail, ChainTail::Proceed));
    let p = plan_chain(&st, "# just a comment");
    assert!(p.steps.is_empty());
    assert!(matches!(p.tail, ChainTail::Proceed));
}

#[test]
fn plain_command_spawns_and_waits() {
    let st = ShellState::new();
    let p = plan_chain(&st, "echo hello world");
    assert_eq!(p.steps.len(), 1);
    match &p.steps[0] {
        ProcStep::Spawn { cmd, args, stdin_from_prev, out } => {
            assert_eq!(cmd, &s("echo"));
            assert_eq!(args, &vec![s("hello"), s("world")]);
            assert!(!*stdin_from_prev);
            assert!(matches!(out, OutTarget::Inherit));
        },
        other => panic!("expected a spawn, got {:?}", other),
    }
    assert!(matches!(p.tail, ChainTail::WaitFinal));
}

#[test]
fn pipe_connects_stages() {
    let st = ShellState::new();
    let p = plan_chain(&st, "ls | grep x");
    assert_eq!(p.steps.len(), 2);
    match &p.steps[0] {
        ProcStep::Spawn { cmd, stdin_from_prev, out, .. } => {
            assert_eq!(cmd, &s("ls"));
            assert!(!*stdin_from_prev);
            assert!(matches!(out, OutTarget::Piped));
        },
        other => panic!("expected a spawn, got {:?}", other),
    }
    match &p.steps[1] {
        ProcStep::Spawn { cmd, stdin_from_prev, out, .. } => {
            assert_eq!(cmd, &s("grep"));
            assert!(*stdin_from_prev);
            assert!(matches!(out, OutTarget::Inherit));
        },
        other => panic!("expected a spawn, got {:?}", other),
    }
    assert!(matches!(p.tail, ChainTail::WaitFinal));
}

#[test]
fn truncating_redirection_spawns_to_file_and_waits() {
    let st = ShellState::new();
    let p = plan_chain(&st, "cmd > f.txt");
    assert_eq!(p.steps.len(), 2);
    match &p.steps[0] {
        ProcStep::Spawn { out: OutTarget::ToFile { file, append }, .. } => {
            assert_eq!(file, &s("f.txt"));
            assert!(!*append);
        },
        other => panic!("expected a spawn to file, got {:?}", other),
    }
    assert!(matches!(p.steps[1], ProcStep::WaitPrev));
    assert!(matches!(p.tail, ChainTail::Proceed));
}

#[test]
fn appending_redirection_keeps_append_mode() {
    let st = ShellState::new();
    let p = plan_chain(&st, "cmd >> log.txt");
    match &p.steps[0] {
        ProcStep::Spawn { out: OutTarget::ToFile { file, append }, .. } => {
            assert_eq!(file, &s("log.txt"));
            assert!(*append);
        },
        other => panic!("expected a spawn to file, got {:?}", other),
    }
    assert!(matches!(p.steps[1], ProcStep::WaitPrev));
}

#[test]
fn chained_redirection_copies_in_order() {
    let st = ShellState::new();
    let p = plan_chain(&st, "cmd > a > b");
    assert_eq!(p.steps.len(), 3);
    match &p.steps[0] {
        ProcStep::Spawn { out: OutTarget::ToFile { file, append }, .. } => {
            assert_eq!(file, &s("a"));
            assert!(!*append);
        },
        other => panic!("expected a spawn to file, got {:?}", other),
    }
    assert!(matches!(p.steps[1], ProcStep::WaitPrev));
    match &p.steps[2] {
        ProcStep::CopyFile { from, to, append } => {
            assert_eq!(from, &s("a"));
            assert_eq!(to, &s("b"));
            assert!(!*append);
        },
        other => panic!("expected a copy, got {:?}", other),
    }
    assert!(matches!(p.tail, ChainTail::Proceed));
}

#[test]
fn mixed_relay_modes_keep_each_operator() {
    let st = ShellState::new();
    let p = plan_chain(&st, "cmd > a >> b");
    assert_eq!(p.steps.len(), 3);
    match &p.steps[0] {
        ProcStep::Spawn { out: OutTarget::ToFile { file, append }, .. } => {
            assert_eq!(file, &s("a"));
            assert!(!*append);
        },
        other => panic!("expected a spawn to file, got {:?}", other),
    }
    match &p.steps[2] {
        ProcStep::CopyFile { from, to, append } => {
            assert_eq!(from, &s("a"));
            assert_eq!(to, &s("b"));
            assert!(*append);
        },
        other => panic!("expected a copy, got {:?}", other),
    }
}

#[test]
fn aliases_expand_in_argument_position_too() {
    let mut st = ShellState::new();
    let _ = set_alias(&mut st, Some("v=--verbose"));
    let p = plan_chain(&st, "tool v");
    match &p.steps[0] {
        ProcStep::Spawn { cmd, args, .. } => {
            assert_eq!(cmd, &s("tool"));
            assert_eq!(args, &vec![s("--verbose")]);
        },
        other => panic!("expected a spawn, got {:?}", other),
    }
}

#[test]
fn redirection_feeding_a_pipe_reads_the_last_file() {
    let st = ShellState::new();
    let p = plan_chain(&st, "cmd > a | wc");
    assert_eq!(p.steps.len(), 4);
    assert!(matches!(p.steps[1], ProcStep::WaitPrev));
    match &p.steps[2] {
        ProcStep::ReadFile { file } => assert_eq!(file, &s("a")),
        other => panic!("expected a file read, got {:?}", other),
    }
    match &p.steps[3] {
        ProcStep::Spawn { cmd, stdin_from_prev, .. } => {
            assert_eq!(cmd, &s("wc"));
            assert!(*stdin_from_prev);
        },
        other => panic!("expected a spawn, got {:?}", other),
    }
    assert!(matches!(p.tail, ChainTail::WaitFinal));
}

#[test]
fn builtins_short_circuit_the_chain() {
    let st = ShellState::new();
    let p = plan_chain(&st, "exit");
    assert!(p.steps.is_empty());
    assert!(matches!(p.tail, ChainTail::Builtin { call: BuiltinCall::Exit }));

    let p = plan_chain(&st, "set X=5 | wc");
    assert!(p.steps.is_empty());
    match &p.tail {
        ChainTail::Builtin { call: BuiltinCall::SetVar { expr } } => {
            assert_eq!(expr, &Some(s("X=5")));
        },
        other => panic!("expected the set builtin, got {:?}", other),
    }

    let p = plan_chain(&st, "cd ~");
    match &p.tail {
        ChainTail::Builtin { call: BuiltinCall::Cd { arg } } => assert_eq!(arg, &Some(s("~"))),
        other => panic!("expected the cd builtin, got {:?}", other),
    }

    let p = plan_chain(&st, "alias ll=ls -la");
    match &p.tail {
        ChainTail::Builtin { call: BuiltinCall::Alias { expr } } => {
            assert_eq!(expr, &s("ll=ls -la"));
        },
        other => panic!("expected the alias builtin, got {:?}", other),
    }
}

#[test]
fn alias_runs_like_its_definition() {
    let mut st = ShellState::new();
    let _ = set_alias(&mut st, Some("ll=ls -la"));
    let aliased = plan_chain(&st, "ll");
    let direct = plan_chain(&st, "ls -la");
    assert_eq!(format!("{:?}", aliased), format!("{:?}", direct));
    match &aliased.steps[0] {
        ProcStep::Spawn { cmd, args, .. } => {
            assert_eq!(cmd, &s("ls"));
            assert_eq!(args, &vec![s("-la")]);
        },
        other => panic!("expected a spawn, got {:?}", other),
    }
}

#[test]
fn quoted_name_escapes_the_alias() {
    let mut st = ShellState::new();
    let _ = set_alias(&mut st, Some("ll=ls -la"));
    let p = plan_chain(&st, "'ll");
    match &p.steps[0] {
        ProcStep::Spawn { cmd, args, .. } => {
            assert_eq!(cmd, &s("ll"));
            assert!(args.is_empty());
        },
        other => panic!("expected a spawn, got {:?}", other),
    }
}

#[test]
fn function_invocation_plans_the_substituted_script() {
    let mut st = ShellState::new();
    let decl = vec![s("greet"), s("echo"), s("hello"), s("&1")];
    let _ = function_declaration(&mut st, &decl);
    let p = plan_chain(&st, "greet world");
    assert!(p.steps.is_empty());
    match &p.tail {
        ChainTail::RunScript { script } => assert_eq!(script, &s("echo hello world")),
        other => panic!("expected a script tail, got {:?}", other),
    }
}

#[test]
fn directives_consume_capture_only_after_a_stage() {
    let mut st = ShellState::new();
    let _ = set_variable(&mut st, Some("X=5"));
    let p = plan_chain(&st, "@format $X --red");
    match &p.tail {
        ChainTail::Directive { kind, args, uses_capture } => {
            assert_eq!(*kind, DirectiveKind::Format);
            assert_eq!(args, &vec![s("5"), s("--red")]);
            assert!(!*uses_capture);
        },
        other => panic!("expected a directive tail, got {:?}", other),
    }

    let p = plan_chain(&st, "ls | @format --bold");
    assert_eq!(p.steps.len(), 1);
    match &p.tail {
        ChainTail::Directive { kind, uses_capture, .. } => {
            assert_eq!(*kind, DirectiveKind::Format);
            assert!(*uses_capture);
        },
        other => panic!("expected a directive tail, got {:?}", other),
    }

    let p = plan_chain(&st, "@unknown stuff");
    match &p.tail {
        ChainTail::Directive { kind, .. } => assert_eq!(*kind, DirectiveKind::Other),
        other => panic!("expected a directive tail, got {:?}", other),
    }
}

#[test]
fn replanning_without_stores_is_identical() {
    let mut st = ShellState::new();
    let _ = set_variable(&mut st, Some("X=5"));
    let script = ["echo $X | wc", "ls > out.txt", "@format $X --green"];
    let first: Vec<String> =
        script.iter().map(|c| format!("{:?}", plan_chain(&st, c))).collect();
    let second: Vec<String> =
        script.iter().map(|c| format!("{:?}", plan_chain(&st, c))).collect();
    assert_eq!(first, second);
}

#[test]
fn variables_expand_in_external_arguments() {
    let mut st = ShellState::new();
    let _ = set_variable(&mut st, Some("X=5"));
    let p = plan_chain(&st, "echo $X $Y 'lit");
    match &p.steps[0] {
        ProcStep::Spawn { args, .. } => {
            assert_eq!(args, &vec![s("5"), s("Y"), s("lit")]);
        },
        other => panic!("expected a spawn, got {:?}", other),
    }
}
