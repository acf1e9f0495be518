use rsh::builtins::{
    cd_target, function_call_script, function_declaration, set_alias, set_variable,
    substitute_placeholders, FnDeclOutcome,
};
use rsh::execute::{ExecutionResult, ShellError};
use rsh::resolve::{get_alias, is_function, parse_args, parse_single_argument};
use rsh::state::ShellState;

fn s(x: &str) -> String {
    x.to_string()
}

#[test]
fn set_stores_a_variable() {
    let mut st = ShellState::new();
    assert!(matches!(set_variable(&mut st, Some("X=5")), ExecutionResult::Success));
    assert_eq!(st.lookup_var("X"), Some(s("5")));
}

#[test]
fn set_without_expression_is_rejected() {
    let mut st = ShellState::new();
    assert!(matches!(
        set_variable(&mut st, None),
        ExecutionResult::Error(ShellError::ExpressionRequired)
    ));
}

#[test]
fn set_without_equals_or_value_is_rejected() {
    let mut st = ShellState::new();
    assert!(matches!(
        set_variable(&mut st, Some("X")),
        ExecutionResult::Error(ShellError::ExpressionRequired)
    ));
    assert!(matches!(
        set_variable(&mut st, Some("X=")),
        ExecutionResult::Error(ShellError::ExpressionRequired)
    ));
    assert!(matches!(
        set_variable(&mut st, Some("=5")),
        ExecutionResult::Error(ShellError::ExpressionRequired)
    ));
    assert!(st.lookup_var("X").is_none());
}

#[test]
fn set_splits_on_first_equals() {
    let mut st = ShellState::new();
    assert!(matches!(set_variable(&mut st, Some("K=a=b")), ExecutionResult::Success));
    assert_eq!(st.lookup_var("K"), Some(s("a=b")));
}

#[test]
fn set_expands_both_sides() {
    let mut st = ShellState::new();
    let _ = set_variable(&mut st, Some("NAME=COUNT"));
    assert!(matches!(set_variable(&mut st, Some("$NAME=7")), ExecutionResult::Success));
    assert_eq!(st.lookup_var("COUNT"), Some(s("7")));
}

#[test]
fn variable_token_resolves_to_value_or_bare_name() {
    let mut st = ShellState::new();
    let _ = set_variable(&mut st, Some("X=5"));
    assert_eq!(parse_single_argument(&st, "$X"), Some(s("5")));
    assert_eq!(parse_single_argument(&st, "$Y"), Some(s("Y")));
    assert_eq!(parse_single_argument(&st, "$"), Some(s("$")));
    assert_eq!(parse_single_argument(&st, "'lit"), Some(s("lit")));
    assert_eq!(parse_single_argument(&st, "#comment"), None);
    assert_eq!(parse_single_argument(&st, "word"), Some(s("word")));
}

#[test]
fn parse_args_stops_at_comment() {
    let mut st = ShellState::new();
    let _ = set_variable(&mut st, Some("X=5"));
    let toks = vec![s("a"), s("$X"), s("#rest"), s("b")];
    assert_eq!(parse_args(&st, &toks), vec![s("a"), s("5")]);
}

#[test]
fn alias_is_stored_and_looked_up() {
    let mut st = ShellState::new();
    assert!(matches!(set_alias(&mut st, Some("ll=ls -la")), ExecutionResult::Success));
    assert_eq!(get_alias(&st, "ll"), s("ls -la"));
    assert_eq!(get_alias(&st, "other"), s("other"));
    assert_eq!(get_alias(&st, "'ll"), s("ll"));
}

#[test]
fn alias_requires_name_and_value() {
    let mut st = ShellState::new();
    assert!(matches!(
        set_alias(&mut st, Some("noequals")),
        ExecutionResult::Error(ShellError::ExpressionRequired)
    ));
    assert!(matches!(
        set_alias(&mut st, Some("=v")),
        ExecutionResult::Error(ShellError::ExpressionRequired)
    ));
    assert!(matches!(
        set_alias(&mut st, Some("n=")),
        ExecutionResult::Error(ShellError::ExpressionRequired)
    ));
}

#[test]
fn function_declaration_stores_single_line_body() {
    let mut st = ShellState::new();
    let args = vec![s("greet"), s("echo"), s("hello"), s("&1")];
    assert!(matches!(function_declaration(&mut st, &args), FnDeclOutcome::Stored));
    assert!(is_function(&st, "greet"));
    assert_eq!(st.lookup_fn("greet"), Some(s("echo hello &1")));
}

#[test]
fn function_declaration_brace_form_asks_for_body() {
    let mut st = ShellState::new();
    let args = vec![s("f"), s("{")];
    match function_declaration(&mut st, &args) {
        FnDeclOutcome::NeedBody { name } => assert_eq!(name, s("f")),
        other => panic!("expected NeedBody, got {:?}", other),
    }
    assert!(!is_function(&st, "f"));
}

#[test]
fn function_declaration_needs_name_and_body() {
    let mut st = ShellState::new();
    assert!(matches!(function_declaration(&mut st, &Vec::new()), FnDeclOutcome::Rejected));
    assert!(matches!(function_declaration(&mut st, &vec![s("f")]), FnDeclOutcome::Rejected));
}

#[test]
fn positional_substitution_consumes_arguments_in_order() {
    assert_eq!(
        substitute_placeholders("echo hello &1", &vec![s("world")]),
        s("echo hello world")
    );
    assert_eq!(
        substitute_placeholders("cp &1 &2", &vec![s("a"), s("b")]),
        s("cp a b")
    );
    // arguments run out: the remaining placeholder stays literal
    assert_eq!(substitute_placeholders("cp &1 &2", &vec![s("a")]), s("cp a &2"));
    // the chain-AND sigil is not a placeholder
    assert_eq!(
        substitute_placeholders("a &1 && b", &vec![s("x"), s("y")]),
        s("a x && b")
    );
    // substitution threads through lines
    assert_eq!(
        substitute_placeholders("echo &1\necho &2", &vec![s("p"), s("q")]),
        s("echo p\necho q")
    );
}

#[test]
fn substitution_keeps_the_body_text_verbatim() {
    // runs of spaces, tabs and surrounding whitespace survive untouched
    assert_eq!(
        substitute_placeholders("cp  &1\t&2 ", &vec![s("a"), s("b")]),
        s("cp  a\tb ")
    );
    assert_eq!(substitute_placeholders(" x ;\ty", &Vec::new()), s(" x ;\ty"));
    // a placeholder keeps its own surrounding whitespace too
    assert_eq!(
        substitute_placeholders("a;\t&1", &vec![s("v")]),
        s("a;\tv")
    );
}

#[test]
fn function_call_builds_the_script() {
    let mut st = ShellState::new();
    let args = vec![s("greet"), s("echo"), s("hello"), s("&1")];
    function_declaration(&mut st, &args);
    let script = function_call_script(&st, "greet", &vec![s("world")]);
    assert_eq!(script.unwrap(), s("echo hello world"));
}

#[test]
fn unknown_function_is_a_typed_error() {
    let st = ShellState::new();
    match function_call_script(&st, "nope", &Vec::new()) {
        Err(ShellError::UndefinedFunction { name }) => assert_eq!(name, s("nope")),
        other => panic!("expected UndefinedFunction, got {:?}", other),
    }
}

#[test]
fn cd_resolves_home_and_literal_paths() {
    let mut st = ShellState::new();
    assert_eq!(cd_target(&st, &None), None);
    let _ = set_variable(&mut st, Some("HOME=/home/u"));
    assert_eq!(cd_target(&st, &None), Some(s("/home/u")));
    assert_eq!(cd_target(&st, &Some(s("~"))), Some(s("/home/u")));
    assert_eq!(cd_target(&st, &Some(s("/tmp"))), Some(s("/tmp")));
}
