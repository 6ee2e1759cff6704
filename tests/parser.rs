use rust_shell::config::{load_config, Config};
use rust_shell::parser::{build_ast, parse_quot_string, split_simple_command, Token, TokenType, WordType};
use rust_shell::symbol_table::set_env_var;
use rust_shell::tree::TreeNode;

fn cfg() -> Config {
    load_config(&vec![])
}

fn text(n: &TreeNode<Box<Token>>) -> String {
    n.value.value.to_string()
}

fn kinds(n: &TreeNode<Box<Token>>) -> Vec<TokenType> {
    n.children.iter().map(|c| c.value.t_type).collect()
}

#[test]
fn plain_word_line_is_one_word_leaf() {
    let c = cfg();
    let t = build_ast(&"ls".to_string(), &c);
    assert_eq!(t.value.t_type, TokenType::Word);
    assert_eq!(t.children.len(), 1);
    assert_eq!(t.children[0].value.t_type, TokenType::Word);
    assert_eq!(t.children[0].value.w_type, WordType::General);
    assert_eq!(text(&t.children[0]), "ls");
    assert!(t.children[0].children.is_empty());
}

#[test]
fn plain_words_are_split_on_whitespace() {
    let c = cfg();
    let t = build_ast(&"echo  a\tb".to_string(), &c);
    assert_eq!(t.value.t_type, TokenType::Node);
    let words: Vec<String> = t.children.iter().map(text).collect();
    assert_eq!(words, vec!["echo", "a", "b"]);
    assert!(t.children.iter().all(|c| c.value.t_type == TokenType::Word && c.children.is_empty()));
}

#[test]
fn builtin_words_are_classified() {
    let c = cfg();
    let t = build_ast(&"exit 3".to_string(), &c);
    assert_eq!(t.children[0].value.w_type, WordType::Builtin);
    assert_eq!(t.children[1].value.w_type, WordType::General);
    let k = build_ast(&"if".to_string(), &c);
    assert_eq!(k.children[0].value.w_type, WordType::Keyword);
}

#[test]
fn pipeline_has_send_and_get_sides() {
    let c = cfg();
    let t = build_ast(&"echo a | echo b".to_string(), &c);
    assert_eq!(kinds(&t), vec![TokenType::PipelineRedirect]);
    let p = &t.children[0];
    assert_eq!(text(p), "|");
    assert_eq!(kinds(p), vec![TokenType::PipelineSendOuput, TokenType::PipelineGetInput]);
    let left: Vec<String> = p.children[0].children.iter().map(text).collect();
    let right: Vec<String> = p.children[1].children.iter().map(text).collect();
    assert_eq!(left, vec!["echo", "a"]);
    assert_eq!(right, vec!["echo", "b"]);
}

#[test]
fn pipeline_splits_at_last_bar() {
    let c = cfg();
    let t = build_ast(&"a | b | c".to_string(), &c);
    let p = &t.children[0];
    assert_eq!(text(&p.children[0]), "a | b");
    assert_eq!(kinds(&p.children[0]), vec![TokenType::PipelineRedirect]);
    assert_eq!(text(&p.children[1]), "c");
}

#[test]
fn quoted_string_with_substitution() {
    let c = cfg();
    let t = build_ast(&"echo \"a $(echo b) c\"".to_string(), &c);
    assert_eq!(kinds(&t), vec![TokenType::Word, TokenType::QuotedStr]);
    let q = &t.children[1];
    assert_eq!(text(q), "a $(echo b) c");
    assert_eq!(kinds(q), vec![TokenType::QuotedStr, TokenType::Subshell, TokenType::QuotedStr]);
    assert_eq!(text(&q.children[0]), "a ");
    assert_eq!(text(&q.children[2]), " c");
    let sub: Vec<String> = q.children[1].children.iter().map(text).collect();
    assert_eq!(sub, vec!["echo", "b"]);
}

#[test]
fn quoted_string_without_substitution_has_no_children() {
    let c = cfg();
    let q = parse_quot_string("hello world", &c);
    assert_eq!(q.len(), 1);
    assert_eq!(q[0].value.t_type, TokenType::QuotedStr);
    assert_eq!(text(&q[0]), "hello world");
    assert!(q[0].children.is_empty());
}

#[test]
fn first_quoted_span_is_taken() {
    let c = cfg();
    let t = build_ast(&"echo \"it's\" x".to_string(), &c);
    assert_eq!(kinds(&t), vec![TokenType::Word, TokenType::QuotedStr, TokenType::Word]);
    assert_eq!(text(&t.children[1]), "it's");
    assert_eq!(text(&t.children[2]), "x");
}

#[test]
fn command_substitution_outside_quotes() {
    let c = cfg();
    let t = build_ast(&"echo $(pwd) done".to_string(), &c);
    assert_eq!(kinds(&t), vec![TokenType::Word, TokenType::Subshell, TokenType::Word]);
    assert_eq!(text(&t.children[1]), "pwd");
    assert_eq!(text(&t.children[2]), "done");
}

#[test]
fn output_redirect_has_command_and_file() {
    let c = cfg();
    let t = build_ast(&"ls > out.txt".to_string(), &c);
    assert_eq!(kinds(&t), vec![TokenType::OutputRedirect]);
    let r = &t.children[0];
    assert_eq!(text(r), ">");
    assert_eq!(r.children.len(), 2);
    assert_eq!(text(&r.children[0]), "ls");
    assert_eq!(text(&r.children[1]), "out.txt");
}

#[test]
fn append_redirect_comes_before_redirect() {
    let c = cfg();
    let t = build_ast(&"a > b >> c".to_string(), &c);
    assert_eq!(kinds(&t), vec![TokenType::OutputRedirectAppend]);
    let r = &t.children[0];
    assert_eq!(text(&r.children[0]), "a > b");
    assert_eq!(kinds(&r.children[0]), vec![TokenType::OutputRedirect]);
    assert_eq!(text(&r.children[1]), "c");
}

#[test]
fn leading_redirect_skips_empty_side() {
    let c = cfg();
    let t = build_ast(&"> out".to_string(), &c);
    let r = &t.children[0];
    assert_eq!(r.value.t_type, TokenType::OutputRedirect);
    assert_eq!(r.children.len(), 1);
    assert_eq!(text(&r.children[0]), "out");
}

#[test]
fn unset_variable_expands_to_empty() {
    let c = cfg();
    let t = build_ast(&"echo $NOPE".to_string(), &c);
    let words: Vec<String> = t.children.iter().map(text).collect();
    assert_eq!(words, vec!["echo", ""]);
}

#[test]
fn set_variable_expands_to_value() {
    let mut c = cfg();
    set_env_var("FOO", "bar", &mut c);
    let words = split_simple_command(&"echo $FOO $?".to_string(), &c);
    assert_eq!(words, vec!["echo", "bar", "0"]);
}

#[test]
fn empty_line_has_no_children() {
    let c = cfg();
    let t = build_ast(&"".to_string(), &c);
    assert!(t.children.is_empty());
}

#[test]
fn operator_line_has_a_node_root() {
    let c = cfg();
    let t = build_ast(&"|".to_string(), &c);
    assert_eq!(t.value.t_type, TokenType::Node);
    assert_eq!(kinds(&t), vec![TokenType::PipelineRedirect]);
    assert_eq!(kinds(&t.children[0]), vec![TokenType::PipelineSendOuput, TokenType::PipelineGetInput]);
    let r = build_ast(&">>".to_string(), &c);
    assert_eq!(r.value.t_type, TokenType::Node);
    assert_eq!(kinds(&r), vec![TokenType::OutputRedirectAppend]);
}
