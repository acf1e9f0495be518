use rsh::parse_command::parse_command;
use rsh::redirect::{parse_stages, rewrite_redirections};
use rsh::text::{join_with, split_str, str_eq, tokens_of, trim_end_str, trim_str};

fn s(x: &str) -> String {
    x.to_string()
}

#[test]
fn splits_groups_and_chains() {
    let r = parse_command("a; b && c");
    assert_eq!(r, vec![vec![s("a")], vec![s("b"), s("c")]]);
}

#[test]
fn single_command_is_one_group_one_chain() {
    let r = parse_command("echo hello");
    assert_eq!(r, vec![vec![s("echo hello")]]);
}

#[test]
fn separators_without_spaces_are_not_split() {
    let r = parse_command("a;b&&c");
    assert_eq!(r, vec![vec![s("a;b&&c")]]);
}

#[test]
fn split_str_keeps_empty_pieces() {
    assert_eq!(split_str("x;; y", ";"), vec![s("x"), s(""), s(" y")]);
    assert_eq!(split_str("", ";"), vec![s("")]);
}

#[test]
fn tokens_are_whitespace_delimited() {
    assert_eq!(tokens_of("  one\ttwo   three "), vec![s("one"), s("two"), s("three")]);
    assert_eq!(tokens_of("   "), Vec::<String>::new());
}

#[test]
fn join_and_trim() {
    assert_eq!(join_with(&vec![s("a"), s("b"), s("c")], " "), s("a b c"));
    assert_eq!(join_with(&Vec::new(), " "), s(""));
    assert_eq!(trim_str("  x y\t"), s("x y"));
    assert_eq!(trim_end_str("  x y\n"), s("  x y"));
}

#[test]
fn str_eq_compares_contents() {
    assert!(str_eq("abc", "abc"));
    assert!(!str_eq("abc", "abd"));
    assert!(!str_eq("abc", "ab"));
}

#[test]
fn rewrite_turns_redirections_into_relays() {
    assert_eq!(rewrite_redirections("cmd > f"), s("cmd | &w f"));
    assert_eq!(rewrite_redirections("cmd >> f"), s("cmd | &a f"));
    assert_eq!(rewrite_redirections("a > b >> c"), s("a | &w b | &a c"));
    assert_eq!(rewrite_redirections("plain"), s("plain"));
}

#[test]
fn stages_carry_redirect_tags() {
    let st = parse_stages("cmd > f.txt");
    assert_eq!(st.len(), 2);
    assert!(st[0].redirect.is_none());
    assert_eq!(st[0].text, s("cmd"));
    let rd = st[1].redirect.as_ref().expect("tagged stage");
    assert!(!rd.append);
    assert_eq!(rd.file, s("f.txt"));
}

#[test]
fn append_stage_is_tagged_append() {
    let st = parse_stages("cmd >> log");
    let rd = st[1].redirect.as_ref().expect("tagged stage");
    assert!(rd.append);
    assert_eq!(rd.file, s("log"));
}

#[test]
fn pipe_splits_into_untagged_stages() {
    let st = parse_stages("a | b | c");
    assert_eq!(st.len(), 3);
    assert!(st.iter().all(|x| x.redirect.is_none()));
}
