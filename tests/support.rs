use rust_shell::args::load_args;
use rust_shell::config::{load_config, LogLevel};
use rust_shell::editor::{key_backspace, key_char, key_left_arrow, key_right_arrow, read_command, rows_above, needs_newline};
use rust_shell::log::debug;
use rust_shell::number::{decimal_text, parse_int};
use rust_shell::text::trim_str;

#[test]
fn parse_int_follows_str_parse() {
    for s in ["0", "42", "-42", "+42", "2147483647", "-2147483648", "007"] {
        assert_eq!(parse_int(s), s.parse::<i32>().ok(), "{}", s);
    }
    for s in ["", "-", "+", "2147483648", "-2147483649", "1a", " 1", "99999999999999"] {
        assert_eq!(parse_int(s), None, "{}", s);
    }
}

#[test]
fn decimal_text_matches_to_string() {
    for n in [0, 7, 10, 99, -1, -305, i32::MAX, i32::MIN] {
        assert_eq!(decimal_text(n), n.to_string());
    }
}

#[test]
fn trim_removes_unicode_whitespace() {
    assert_eq!(trim_str(" \t a b \u{3000}\n"), "a b");
    assert_eq!(trim_str("   "), "");
}

#[test]
fn continuation_lines_are_joined() {
    let (l, more) = read_command(&String::new(), "  echo a \\");
    assert_eq!((l.as_str(), more), ("echo a ", true));
    let (l, more) = read_command(&l, "b  ");
    assert_eq!((l.as_str(), more), ("echo a b", false));
    let (l, more) = read_command(&String::new(), "echo \\\\");
    assert_eq!((l.as_str(), more), ("echo \\\\", false));
    let (l, more) = read_command(&String::new(), "   ");
    assert_eq!((l.as_str(), more), ("", false));
}

#[test]
fn keys_edit_the_line() {
    let mut line: Vec<char> = Vec::new();
    let (mut x, mut y, mut ins) = (3u16, 5u16, 0u32);
    key_char(&mut line, 'a', &mut x, &mut y, &mut ins, 80);
    key_char(&mut line, 'c', &mut x, &mut y, &mut ins, 80);
    assert_eq!((x, y, ins), (5, 5, 2));
    key_left_arrow(&mut x, &mut y, &mut ins, 80);
    assert_eq!((x, ins), (4, 1));
    key_char(&mut line, 'b', &mut x, &mut y, &mut ins, 80);
    assert_eq!(line.iter().collect::<String>(), "abc");
    key_right_arrow(&line, &mut x, &mut y, &mut ins, 80);
    assert_eq!((x, ins), (6, 3));
    key_right_arrow(&line, &mut x, &mut y, &mut ins, 80);
    assert_eq!((x, ins), (6, 3));
    key_backspace(&mut line, &mut x, &mut y, &mut ins, 80);
    assert_eq!(line.iter().collect::<String>(), "ab");
    assert_eq!((x, ins), (5, 2));
}

#[test]
fn keys_wrap_between_rows() {
    let mut line: Vec<char> = vec!['a'];
    let (mut x, mut y, mut ins) = (10u16, 2u16, 1u32);
    key_char(&mut line, 'b', &mut x, &mut y, &mut ins, 10);
    assert_eq!((x, y), (0, 3));
    let (mut x, mut y) = (1u16, 3u16);
    key_backspace(&mut line, &mut x, &mut y, &mut ins, 10);
    assert_eq!((x, y, ins), (10, 2, 1));
    assert_eq!(rows_above(18, 2, 10), 2);
    assert!(needs_newline(25, 24, 18, 2, 10));
    assert!(!needs_newline(25, 24, 17, 2, 10));
}

#[test]
fn log_level_option_is_read() {
    let mut c = load_config(&vec![]);
    let argv: Vec<String> = ["rsh", "--log-level", "debug", "run.sh"].iter().map(|s| s.to_string()).collect();
    let r = load_args(&mut c, &argv);
    assert_eq!(c.log_level, LogLevel::Debug);
    assert!(!r.usage);
    assert_eq!(r.scripts, vec!["run.sh".to_string()]);
    assert_eq!(debug(&c, "hello").unwrap(), "hello\n");
}

#[test]
fn bad_log_level_asks_for_usage() {
    let mut c = load_config(&vec![]);
    let argv: Vec<String> = ["rsh", "--log-level", "loud"].iter().map(|s| s.to_string()).collect();
    assert!(load_args(&mut c, &argv).usage);
    assert_eq!(c.log_level, LogLevel::Critical);
    let argv: Vec<String> = ["rsh", "--log-level"].iter().map(|s| s.to_string()).collect();
    assert!(load_args(&mut c, &argv).usage);
    assert!(debug(&c, "quiet").is_none());
}
