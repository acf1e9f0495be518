use rsh::colors::{generate_prompt, green, red, style_code, BOLD, GREEN, RED, RESET};
use rsh::execute::{chain_continues, ExecutionResult, ShellError};
use rsh::instants::{downgrade_exit, exec_target, format_line};

fn s(x: &str) -> String {
    x.to_string()
}

#[test]
fn colors_wrap_text_in_escapes() {
    assert_eq!(red("rsh"), s("\x1b[31mrsh\x1b[0m"));
    assert_eq!(green("*"), s("\x1b[32m*\x1b[0m"));
}

#[test]
fn prompt_shows_status_and_directory() {
    let ok = generate_prompt(true, "/tmp");
    assert_eq!(ok, format!("{BOLD}{GREEN}*{RESET} {BOLD}/tmp{RESET} $ "));
    let bad = generate_prompt(false, "/tmp");
    assert_eq!(bad, format!("{BOLD}{RED}*{RESET} {BOLD}/tmp{RESET} $ "));
}

#[test]
fn style_flags_name_their_escapes() {
    assert_eq!(style_code("--red"), "\x1b[31m");
    assert_eq!(style_code("--bold"), "\x1b[1m");
    assert_eq!(style_code("--underline"), "\x1b[4m");
    assert_eq!(style_code("--nope"), "");
    assert_eq!(style_code("plain"), "");
}

#[test]
fn underline_is_its_own_escape() {
    let args = vec![s("u"), s("--underline")];
    assert_eq!(format_line(&None, &args), s("\x1b[4mu"));
}

#[test]
fn format_joins_leading_arguments_and_applies_flags() {
    let args = vec![s("hello"), s("world"), s("--red")];
    assert_eq!(format_line(&None, &args), s("\x1b[31mhello world"));
}

#[test]
fn format_prefers_captured_output() {
    let args = vec![s("ignored"), s("--bold")];
    let captured = Some(s("from pipe\n"));
    assert_eq!(format_line(&captured, &args), s("\x1b[1mfrom pipe"));
}

#[test]
fn format_composes_flags_in_argument_order() {
    let args = vec![s("x"), s("--red"), s("--bold")];
    assert_eq!(format_line(&None, &args), s("\x1b[1m\x1b[31mx"));
}

#[test]
fn format_without_flags_is_plain() {
    assert_eq!(format_line(&None, &vec![s("a"), s("b")]), s("a b"));
    assert_eq!(format_line(&None, &Vec::new()), s(""));
}

#[test]
fn exec_takes_captured_path_or_first_argument() {
    let (path, noexit) = exec_target(&Some(s("  script.rsh \n")), &vec![s("other")]);
    assert_eq!(path, s("script.rsh"));
    assert!(!noexit);

    let (path, noexit) = exec_target(&None, &vec![s("run.rsh"), s("--noexit")]);
    assert_eq!(path, s("run.rsh"));
    assert!(noexit);

    let (path, noexit) = exec_target(&None, &vec![s("run.rsh"), s("-n")]);
    assert_eq!(path, s("run.rsh"));
    assert!(noexit);

    let (path, noexit) = exec_target(&None, &Vec::new());
    assert_eq!(path, s(""));
    assert!(!noexit);
}

#[test]
fn exit_requests_are_downgraded_only_with_noexit() {
    assert!(matches!(downgrade_exit(true, ExecutionResult::Exit), ExecutionResult::Success));
    assert!(matches!(downgrade_exit(false, ExecutionResult::Exit), ExecutionResult::Exit));
    assert!(matches!(
        downgrade_exit(true, ExecutionResult::Success),
        ExecutionResult::Success
    ));
    assert!(matches!(
        downgrade_exit(true, ExecutionResult::Error(ShellError::ExpressionRequired)),
        ExecutionResult::Error(ShellError::ExpressionRequired)
    ));
}

#[test]
fn chains_continue_only_after_success() {
    assert!(chain_continues(&ExecutionResult::Success));
    assert!(!chain_continues(&ExecutionResult::Exit));
    assert!(!chain_continues(&ExecutionResult::Error(ShellError::ExpressionRequired)));
}

#[test]
fn error_messages_are_stable() {
    assert_eq!(ShellError::ExpressionRequired.message(), s("expression required"));
    assert_eq!(
        ShellError::UndefinedFunction { name: s("f") }.message(),
        s("undefined function: f")
    );
    assert_eq!(
        ShellError::ProcessSpawnFailure { detail: s("no such file") }.message(),
        s("failed to spawn process: no such file")
    );
    assert_eq!(ShellError::IOFailure { detail: s("oops") }.message(), s("oops"));
}
