use rust_shell::config::{load_config, Config};
use rust_shell::exec::{Action, Event, Execution, Outcome};
use rust_shell::parser::build_ast;
use rust_shell::symbol_table::{get_var, set_env_var};

/// Runs `line` to its end, answering each action with `answer`; returns the
/// actions seen (without the `Resume`s) and the final outcome.
fn drive(line: &str, cfg: &mut Config, mut answer: impl FnMut(&Action) -> Event) -> (Vec<Action>, Outcome) {
    let tree = build_ast(&line.to_string(), cfg);
    let mut ex = Execution::new(*tree);
    let mut ev = Event::Done;
    let mut seen = Vec::new();
    for _ in 0..1000 {
        let a = ex.step(ev, cfg);
        match a {
            Action::Finished(o) => return (seen, o),
            Action::Resume => ev = Event::Done,
            other => {
                ev = answer(&other);
                seen.push(other);
            }
        }
    }
    panic!("execution did not finish");
}

fn argv_of(a: &Action) -> Vec<String> {
    match a {
        Action::Spawn { argv, .. } => argv.clone(),
        other => panic!("expected a spawn, got {:?}", other),
    }
}

fn outcome(should_continue: i32, status: i32) -> Outcome {
    Outcome { should_continue, status, stdout: 1 }
}

#[test]
fn substitution_inside_quotes_is_reassembled() {
    let mut c = load_config(&vec![]);
    let (seen, out) = drive("echo \"a $(echo b) c\"", &mut c, |a| match a {
        Action::Spawn { capture: true, .. } => Event::Captured(0, "b\n".to_string()),
        _ => Event::Exited(0),
    });
    assert_eq!(seen.len(), 2);
    assert_eq!(argv_of(&seen[0]), vec!["echo", "b"]);
    match &seen[0] {
        Action::Spawn { capture, stdin, stdout, wait, .. } => {
            assert!(*capture && *wait);
            assert_eq!((*stdin, *stdout), (None, None));
        }
        _ => unreachable!(),
    }
    assert_eq!(argv_of(&seen[1]), vec!["echo", "a b c"]);
    assert_eq!(out, outcome(1, 0));
}

#[test]
fn substitution_outside_quotes_becomes_an_argument() {
    let mut c = load_config(&vec![]);
    let (seen, _) = drive("echo $(pwd) x", &mut c, |a| match a {
        Action::Spawn { capture: true, .. } => Event::Captured(0, "  /home/u \n".to_string()),
        _ => Event::Exited(0),
    });
    assert_eq!(argv_of(&seen[0]), vec!["pwd"]);
    assert_eq!(argv_of(&seen[1]), vec!["echo", "/home/u", "x"]);
}

#[test]
fn redirect_opens_truncating_and_closes() {
    let mut c = load_config(&vec![]);
    let (seen, out) = drive("ls > out.txt", &mut c, |a| match a {
        Action::OpenFile { .. } => Event::Opened(7),
        Action::Spawn { .. } => Event::Exited(0),
        _ => Event::Done,
    });
    assert_eq!(seen.len(), 3);
    match &seen[0] {
        Action::OpenFile { name, append } => {
            assert_eq!(name, "out.txt");
            assert!(!*append);
        }
        other => panic!("{:?}", other),
    }
    match &seen[1] {
        Action::Spawn { argv, stdin, stdout, capture, wait } => {
            assert_eq!(argv, &vec!["ls".to_string()]);
            assert_eq!((*stdin, *stdout, *capture, *wait), (None, Some(7), false, true));
        }
        other => panic!("{:?}", other),
    }
    assert!(matches!(seen[2], Action::Close(7)));
    assert_eq!(out, outcome(1, 0));
}

#[test]
fn append_redirect_opens_for_appending() {
    let mut c = load_config(&vec![]);
    let (seen, out) = drive("ls >> out.txt", &mut c, |a| match a {
        Action::OpenFile { .. } => Event::Opened(9),
        Action::Spawn { .. } => Event::Exited(0),
        _ => Event::Done,
    });
    match &seen[0] {
        Action::OpenFile { name, append } => {
            assert_eq!(name, "out.txt");
            assert!(*append);
        }
        other => panic!("{:?}", other),
    }
    assert!(matches!(seen[2], Action::Close(9)));
    assert_eq!(out, outcome(1, 0));
}

#[test]
fn unopenable_redirect_target_is_recoverable() {
    let mut c = load_config(&vec![]);
    let (seen, out) = drive("ls > /nope/out.txt", &mut c, |_| Event::OpenFailed);
    assert_eq!(seen.len(), 1);
    assert_eq!(out, outcome(1, 1));
}

#[test]
fn pipeline_runs_both_sides_then_waits() {
    let mut c = load_config(&vec![]);
    let (seen, out) = drive("echo a | wc -l", &mut c, |a| match a {
        Action::MakePipe => Event::PipeMade(10, 11),
        Action::Spawn { wait: false, .. } => Event::Started,
        Action::Spawn { .. } => Event::Exited(4),
        _ => Event::Done,
    });
    assert_eq!(seen.len(), 6);
    assert!(matches!(seen[0], Action::MakePipe));
    match &seen[1] {
        Action::Spawn { argv, stdin, stdout, capture, wait } => {
            assert_eq!(argv, &vec!["echo".to_string(), "a".to_string()]);
            assert_eq!((*stdin, *stdout, *capture, *wait), (None, Some(11), false, false));
        }
        other => panic!("{:?}", other),
    }
    assert!(matches!(seen[2], Action::Close(11)));
    match &seen[3] {
        Action::Spawn { argv, stdin, stdout, capture, wait } => {
            assert_eq!(argv, &vec!["wc".to_string(), "-l".to_string()]);
            assert_eq!((*stdin, *stdout, *capture, *wait), (Some(10), None, false, true));
        }
        other => panic!("{:?}", other),
    }
    assert!(matches!(seen[4], Action::Close(10)));
    assert!(matches!(seen[5], Action::WaitStarted));
    assert_eq!(out, outcome(1, 4));
    assert_eq!(get_var(&c, &"?".to_string()).unwrap(), "4");
}

#[test]
fn builtin_on_the_sending_side_runs_inline() {
    let mut c = load_config(&vec![]);
    let (seen, out) = drive("help | cat", &mut c, |a| match a {
        Action::MakePipe => Event::PipeMade(3, 4),
        Action::Spawn { .. } => Event::Exited(0),
        _ => Event::Done,
    });
    assert!(matches!(&seen[1], Action::Print(m) if m.starts_with("Builtins:")));
    assert!(matches!(seen[2], Action::Close(4)));
    assert_eq!(argv_of(&seen[3]), vec!["cat"]);
    assert_eq!(out, outcome(1, 0));
}

#[test]
fn exit_with_status_ends_the_loop() {
    let mut c = load_config(&vec![]);
    let (seen, out) = drive("exit 3", &mut c, |_| Event::Done);
    assert!(seen.is_empty());
    assert_eq!(out, outcome(0, 3));
}

#[test]
fn exit_with_word_continues() {
    let mut c = load_config(&vec![]);
    let (seen, out) = drive("exit abc", &mut c, |_| Event::Done);
    assert_eq!(seen.len(), 1);
    match &seen[0] {
        Action::Print(m) => assert_eq!(m, "Usage:\n\nexit [status code]\n"),
        other => panic!("{:?}", other),
    }
    assert_eq!(out, outcome(1, 1));
}

#[test]
fn missing_command_keeps_the_shell_running() {
    let mut c = load_config(&vec![]);
    let (seen, out) = drive("no-such-command --flag", &mut c, |_| Event::SpawnFailed);
    assert_eq!(argv_of(&seen[0]), vec!["no-such-command", "--flag"]);
    assert_eq!(out, outcome(1, 1));
    assert_eq!(get_var(&c, &"?".to_string()).unwrap(), "1");
}

#[test]
fn exit_status_is_recorded() {
    let mut c = load_config(&vec![]);
    let (_, out) = drive("false", &mut c, |_| Event::Exited(1));
    assert_eq!(out, outcome(1, 1));
    assert_eq!(get_var(&c, &"?".to_string()).unwrap(), "1");
    let (_, out) = drive("true", &mut c, |_| Event::Exited(0));
    assert_eq!(out, outcome(1, 0));
    assert_eq!(get_var(&c, &"?".to_string()).unwrap(), "0");
    let (_, _) = drive("kill-me", &mut c, |_| Event::Exited(-255));
    assert_eq!(get_var(&c, &"?".to_string()).unwrap(), "-255");
}

#[test]
fn export_through_execution_reaches_later_lines() {
    let mut c = load_config(&vec![]);
    let (seen, out) = drive("export FOO=bar", &mut c, |_| Event::Done);
    assert!(seen.is_empty());
    assert_eq!(out, outcome(1, 0));
    let (seen, _) = drive("echo $FOO", &mut c, |_| Event::Exited(0));
    assert_eq!(argv_of(&seen[0]), vec!["echo", "bar"]);
}

#[test]
fn cd_changes_directory_or_fails_softly() {
    let mut c = load_config(&vec![]);
    let (seen, out) = drive("cd /tmp", &mut c, |_| Event::Done);
    match &seen[0] {
        Action::ChangeDir(d) => assert_eq!(d, "/tmp"),
        other => panic!("{:?}", other),
    }
    assert_eq!(out, outcome(1, 0));
    let (_, out) = drive("cd /nope", &mut c, |_| Event::ChdirFailed);
    assert_eq!(out, outcome(1, 1));
}

#[test]
fn help_prints_and_succeeds() {
    let mut c = load_config(&vec![]);
    let (seen, out) = drive("help", &mut c, |_| Event::Done);
    assert!(matches!(&seen[0], Action::Print(m) if m.starts_with("Builtins:")));
    assert_eq!(out, outcome(1, 0));
}

#[test]
fn finished_execution_stays_finished() {
    let mut c = load_config(&vec![]);
    let tree = build_ast(&"exit 5".to_string(), &c);
    let mut ex = Execution::new(*tree);
    let mut a = ex.step(Event::Done, &mut c);
    while matches!(a, Action::Resume) {
        a = ex.step(Event::Done, &mut c);
    }
    assert!(matches!(a, Action::Finished(o) if o == outcome(0, 5)));
    assert!(matches!(ex.step(Event::Done, &mut c), Action::Finished(o) if o == outcome(0, 5)));
}

#[test]
fn empty_command_finishes_at_once() {
    let mut c = load_config(&vec![]);
    let (seen, out) = drive("", &mut c, |_| Event::Done);
    assert!(seen.is_empty());
    assert_eq!(out, outcome(1, 0));
    assert_eq!(get_var(&c, &"?".to_string()).unwrap(), "0");
}

#[test]
fn one_sided_pipeline_fails_without_a_pipe() {
    let mut c = load_config(&vec![]);
    set_env_var("BAR", "|", &mut c);
    let (seen, out) = drive("$BAR", &mut c, |_| Event::Done);
    assert!(seen.is_empty());
    assert_eq!(out, outcome(1, 1));
}

#[test]
fn captured_output_keeps_status_of_last_command() {
    let mut c = load_config(&vec![]);
    let (seen, out) = drive("echo $(false)", &mut c, |a| match a {
        Action::Spawn { capture: true, .. } => Event::Captured(1, "".to_string()),
        _ => Event::Exited(0),
    });
    assert_eq!(argv_of(&seen[1]), vec!["echo", ""]);
    assert_eq!(out, outcome(1, 0));
    assert_eq!(get_var(&c, &"?".to_string()).unwrap(), "0");
}
