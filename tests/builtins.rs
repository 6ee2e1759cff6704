use rust_shell::builtins::{cd_builtin, exit_builtin, export_builtin, help_builtin};
use rust_shell::config::{load_config, Config};
use rust_shell::keywords::if_keyword;
use rust_shell::parser::build_ast;
use rust_shell::symbol_table::get_var;

fn cfg() -> Config {
    load_config(&vec![])
}

fn args(a: &[&str]) -> Vec<String> {
    a.iter().map(|s| s.to_string()).collect()
}

#[test]
fn exit_with_number_stops_the_loop() {
    let mut c = cfg();
    let r = exit_builtin(&args(&["3"]), &mut c);
    assert_eq!((r.should_continue, r.status), (0, 3));
    assert!(r.message.is_none());
}

#[test]
fn exit_with_word_prints_usage_and_continues() {
    let mut c = cfg();
    let r = exit_builtin(&args(&["abc"]), &mut c);
    assert_eq!((r.should_continue, r.status), (1, 1));
    assert_eq!(r.message.unwrap(), "Usage:\n\nexit [status code]\n");
}

#[test]
fn exit_without_argument_is_status_zero() {
    let mut c = cfg();
    let r = exit_builtin(&args(&[]), &mut c);
    assert_eq!((r.should_continue, r.status), (0, 0));
}

#[test]
fn exit_with_two_arguments_prints_usage() {
    let mut c = cfg();
    let r = exit_builtin(&args(&["1", "2"]), &mut c);
    assert_eq!((r.should_continue, r.status), (1, 1));
}

#[test]
fn exit_with_signed_and_large_numbers() {
    let mut c = cfg();
    assert_eq!(exit_builtin(&args(&["-7"]), &mut c).status, -7);
    assert_eq!(exit_builtin(&args(&["+7"]), &mut c).status, 7);
    assert_eq!(exit_builtin(&args(&["2147483647"]), &mut c).status, 2147483647);
    assert_eq!(exit_builtin(&args(&["-2147483648"]), &mut c).status, -2147483648);
    assert_eq!(exit_builtin(&args(&["2147483648"]), &mut c).should_continue, 1);
    assert_eq!(exit_builtin(&args(&["-"]), &mut c).should_continue, 1);
}

#[test]
fn export_then_reference_in_later_line() {
    let mut c = cfg();
    let r = export_builtin(&args(&["FOO=bar"]), &mut c);
    assert_eq!((r.should_continue, r.status), (1, 0));
    assert_eq!(get_var(&c, &"FOO".to_string()).unwrap(), "bar");
    let t = build_ast(&"echo $FOO".to_string(), &c);
    assert_eq!(t.children[1].value.value.to_string(), "bar");
}

#[test]
fn export_needs_exactly_one_equals_sign() {
    let mut c = cfg();
    let r = export_builtin(&args(&["A=b=c"]), &mut c);
    assert_eq!((r.should_continue, r.status), (1, 1));
    assert_eq!(r.message.unwrap(), "Usage:\n\nexport [variable]=[value]\n");
    assert!(get_var(&c, &"A".to_string()).is_none());
    let r = export_builtin(&args(&["AB"]), &mut c);
    assert_eq!(r.status, 1);
    let r = export_builtin(&args(&[]), &mut c);
    assert_eq!(r.status, 1);
}

#[test]
fn cd_asks_for_the_directory() {
    let mut c = cfg();
    let r = cd_builtin(&args(&["/tmp"]), &mut c);
    assert_eq!((r.should_continue, r.status), (1, 0));
    assert_eq!(r.chdir.unwrap(), "/tmp");
    let r = cd_builtin(&args(&[]), &mut c);
    assert_eq!((r.should_continue, r.status), (1, 1));
    assert_eq!(r.message.unwrap(), "Usage:\n\ncd [new directory]\n");
}

#[test]
fn help_lists_builtins() {
    let mut c = cfg();
    let r = help_builtin(&args(&[]), &mut c);
    assert_eq!((r.should_continue, r.status), (1, 0));
    assert!(r.message.unwrap().starts_with("Builtins:"));
}

#[test]
fn if_keyword_does_nothing() {
    let mut c = cfg();
    assert_eq!(if_keyword(&args(&["x"]), &mut c), (1, 0));
}

#[test]
fn config_seeds_defaults_over_inherited() {
    let c = load_config(&vec![("HOME".to_string(), "/root".to_string()), ("PS1".to_string(), "x".to_string())]);
    assert_eq!(get_var(&c, &"HOME".to_string()).unwrap(), "/root");
    assert_eq!(get_var(&c, &"PS1".to_string()).unwrap(), "$ ");
    assert_eq!(get_var(&c, &"PS2".to_string()).unwrap(), "> ");
    assert_eq!(get_var(&c, &"?".to_string()).unwrap(), "0");
}

#[test]
fn config_registers_only_its_names() {
    let c = load_config(&vec![]);
    assert!(c.is_builtin(&"exit".to_string()));
    assert!(!c.is_builtin(&"if".to_string()));
    assert!(c.is_keyword(&"if".to_string()));
    assert!(!c.is_keyword(&"exit".to_string()));
    assert!(!c.is_function(&"ls".to_string()));
}
