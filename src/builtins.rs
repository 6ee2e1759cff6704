//! The capabilities that run inside the shell: `help`, `cd`, `export` and
//! `exit`. Each returns what the shell does next; printing the message and
//! changing the working directory are left to the caller.
use vstd::prelude::*;
use vstd::string::StrSliceExecFns;
use crate::config::{Builtin, Config, lookup, table_insert};
use crate::number::{parse_i32, parse_int};
use crate::symbol_table::same_tables;
use crate::text::{first_index_from, first_index_of, lemma_first_index_from};

verus! {

/// The descriptor of the shell's own standard output.
pub const STDOUT_FD: i32 = 1;

/// The descriptor of the shell's own standard input.
pub const STDIN_FD: i32 = 0;

/// What a builtin decided.
pub struct Reply {
    /// 0 ends the read-eval loop; anything else continues it.
    pub should_continue: i32,
    pub status: i32,
    pub stdout: i32,
    /// Text to print on the shell's standard output.
    pub message: Option<String>,
    /// A directory to make the working directory.
    pub chdir: Option<String>,
}

pub open spec fn help_text() -> Seq<char> {
    "Builtins:\n\nhelp - prints this help message\ncd - changes directory\nexit - exits the program with specified return code\n"@
}

pub open spec fn cd_usage() -> Seq<char> {
    "Usage:\n\ncd [new directory]\n"@
}

pub open spec fn export_usage() -> Seq<char> {
    "Usage:\n\nexport [variable]=[value]\n"@
}

pub open spec fn exit_usage() -> Seq<char> {
    "Usage:\n\nexit [status code]\n"@
}

/// A reply that continues with `status` and prints `message`.
pub open spec fn is_reply(r: Reply, should_continue: i32, status: i32, message: Option<Seq<char>>) -> bool {
    &&& r.should_continue == should_continue
    &&& r.status == status
    &&& r.stdout == STDOUT_FD
    &&& match message {
        Some(m) => r.message is Some && r.message->0@ == m,
        None => r.message is None,
    }
    &&& r.chdir is None
}

fn reply(should_continue: i32, status: i32, message: Option<String>) -> (r: Reply)
    ensures
        r.should_continue == should_continue,
        r.status == status,
        r.stdout == STDOUT_FD,
        r.message == message,
        r.chdir is None,
{
    Reply { should_continue, status, stdout: STDOUT_FD, message, chdir: None }
}

/// `cd DIR`: asks for the working directory to become `DIR`.
pub fn cd_builtin(argv: &Vec<String>, _config: &mut Config) -> (r: Reply)
    ensures
        argv@.len() != 1 ==> is_reply(r, 1, 1, Some(cd_usage())),
        argv@.len() == 1 ==> r.should_continue == 1 && r.status == 0 && r.stdout == STDOUT_FD
            && r.message is None && r.chdir is Some && r.chdir->0@ == argv@[0]@,
        *final(_config) == *old(_config),
{
    if argv.len() != 1 {
        proof {
            reveal_strlit("Usage:\n\ncd [new directory]\n");
        }
        return reply(1, 1, Some("Usage:\n\ncd [new directory]\n".to_string()));
    }
    Reply {
        should_continue: 1,
        status: 0,
        stdout: STDOUT_FD,
        message: None,
        chdir: Some(argv[0].clone()),
    }
}

/// `help`: the list of builtins.
pub fn help_builtin(_argv: &Vec<String>, _config: &mut Config) -> (r: Reply)
    ensures
        is_reply(r, 1, 0, Some(help_text())),
        *final(_config) == *old(_config),
{
    reply(
        1,
        0,
        Some(
            "Builtins:\n\nhelp - prints this help message\ncd - changes directory\nexit - exits the program with specified return code\n".to_string(),
        ),
    )
}

/// The index of the only `=` in `a`, if it holds exactly one.
pub open spec fn single_eq(a: Seq<char>) -> Option<int> {
    let i = first_index_from(a, '=', 0);
    if i >= 0 && first_index_from(a, '=', i + 1) == -1 {
        Some(i)
    } else {
        None
    }
}

/// What `export` with the argument `a` (of the form `KEY=VALUE`) does: the
/// variable `KEY` becomes `VALUE`, and nothing else changes.
pub open spec fn export_applies(before: Config, after: Config, a: Seq<char>) -> bool {
    let i = single_eq(a)->0;
    &&& after.var(a.subrange(0, i)) == Some(a.subrange(i + 1, a.len() as int))
    &&& forall|k: Seq<char>| k != a.subrange(0, i) ==> after.var(k) == before.var(k)
    &&& same_tables(before, after)
}

/// `export KEY=VALUE`: sets the variable `KEY`.
pub fn export_builtin(argv: &Vec<String>, config: &mut Config) -> (r: Reply)
    ensures
        argv@.len() != 1 || single_eq(argv@[0]@) is None ==> is_reply(r, 1, 1, Some(export_usage()))
            && *final(config) == *old(config),
        argv@.len() == 1 && single_eq(argv@[0]@) is Some ==> is_reply(r, 1, 0, None)
            && export_applies(*old(config), *final(config), argv@[0]@),
{
    if argv.len() != 1 {
        proof {
            reveal_strlit("Usage:\n\nexport [variable]=[value]\n");
        }
        return reply(1, 1, Some("Usage:\n\nexport [variable]=[value]\n".to_string()));
    }
    let a = argv[0].as_str();
    let n = a.unicode_len();
    proof {
        lemma_first_index_from(a@, '=', 0);
    }
    let split = match first_index_of(a, '=', 0) {
        Some(i) => match first_index_of(a, '=', i + 1) {
            Some(_) => None,
            None => Some(i),
        },
        None => None,
    };
    match split {
        Some(i) => {
            proof {
                lemma_first_index_from(a@, '=', 0);
            }
            let key = a.substring_char(0, i).to_string();
            let value = a.substring_char(i + 1, n).to_string();
            table_insert(&mut config.variables, key, value);
            reply(1, 0, None)
        },
        None => {
            proof {
                reveal_strlit("Usage:\n\nexport [variable]=[value]\n");
            }
            reply(1, 1, Some("Usage:\n\nexport [variable]=[value]\n".to_string()))
        },
    }
}

/// `exit [N]`: ends the loop with status `N` (0 by default); a non-numeric
/// `N` only prints the usage.
pub fn exit_builtin(argv: &Vec<String>, _config: &mut Config) -> (r: Reply)
    ensures
        argv@.len() > 1 ==> is_reply(r, 1, 1, Some(exit_usage())),
        argv@.len() == 1 ==> match parse_i32(argv@[0]@) {
            Some(v) => is_reply(r, 0, v as i32, None),
            None => is_reply(r, 1, 1, Some(exit_usage())),
        },
        argv@.len() == 0 ==> is_reply(r, 0, 0, None),
        *final(_config) == *old(_config),
{
    proof {
        reveal_strlit("Usage:\n\nexit [status code]\n");
    }
    if argv.len() > 1 {
        return reply(1, 1, Some("Usage:\n\nexit [status code]\n".to_string()));
    }
    let mut status_code: i32 = 0;
    if argv.len() > 0 {
        match parse_int(argv[0].as_str()) {
            Some(v) => {
                status_code = v;
            },
            None => {
                return reply(1, 1, Some("Usage:\n\nexit [status code]\n".to_string()));
            },
        }
    }
    reply(0, status_code, None)
}

pub open spec fn builtin_name(b: Builtin) -> Seq<char> {
    match b {
        Builtin::Help => "help"@,
        Builtin::Cd => "cd"@,
        Builtin::Exit => "exit"@,
        Builtin::Export => "export"@,
    }
}

/// Registers the four builtins under their names.
pub fn load_builtins(cfg: &mut Config)
    ensures
        forall|b: Builtin| lookup(final(cfg).rsh_builtins@, #[trigger] builtin_name(b)) == Some(b),
        forall|k: Seq<char>|
            k != "help"@ && k != "cd"@ && k != "exit"@ && k != "export"@ ==> lookup(
                final(cfg).rsh_builtins@,
                k,
            ) == lookup(old(cfg).rsh_builtins@, k),
        final(cfg).variables == old(cfg).variables,
        final(cfg).keywords == old(cfg).keywords,
        final(cfg).functions == old(cfg).functions,
        final(cfg).log_level == old(cfg).log_level,
        final(cfg).log_file == old(cfg).log_file,
        final(cfg).stdin_to_execute == old(cfg).stdin_to_execute,
{
    proof {
        reveal_strlit("help");
        reveal_strlit("cd");
        reveal_strlit("exit");
        reveal_strlit("export");
    }
    table_insert(&mut cfg.rsh_builtins, "help".to_string(), Builtin::Help);
    table_insert(&mut cfg.rsh_builtins, "cd".to_string(), Builtin::Cd);
    table_insert(&mut cfg.rsh_builtins, "exit".to_string(), Builtin::Exit);
    table_insert(&mut cfg.rsh_builtins, "export".to_string(), Builtin::Export);
    proof {
        assert("help"@.len() == 4 && "cd"@.len() == 2 && "exit"@.len() == 4 && "export"@.len()
            == 6);
        assert("help"@[0] == 'h' && "exit"@[0] == 'e');
    }
}

/// The texts of a list of strings.
pub open spec fn texts_of(v: Seq<String>) -> Seq<Seq<char>> {
    v.map_values(|s: String| s@)
}

/// What running the builtin `b` with the arguments `args` does: its reply
/// `r`, and the environment going from `before` to `after`.
pub open spec fn builtin_effect(b: Builtin, args: Seq<Seq<char>>, before: Config, after: Config, r: Reply) -> bool {
    match b {
        Builtin::Help => is_reply(r, 1, 0, Some(help_text())) && after == before,
        Builtin::Cd => {
            &&& args.len() != 1 ==> is_reply(r, 1, 1, Some(cd_usage()))
            &&& args.len() == 1 ==> r.should_continue == 1 && r.status == 0 && r.stdout
                == STDOUT_FD && r.message is None && r.chdir is Some && r.chdir->0@ == args[0]
            &&& after == before
        },
        Builtin::Exit => {
            &&& args.len() > 1 ==> is_reply(r, 1, 1, Some(exit_usage()))
            &&& args.len() == 1 ==> match parse_i32(args[0]) {
                Some(v) => is_reply(r, 0, v as i32, None),
                None => is_reply(r, 1, 1, Some(exit_usage())),
            }
            &&& args.len() == 0 ==> is_reply(r, 0, 0, None)
            &&& after == before
        },
        Builtin::Export => {
            &&& args.len() != 1 || single_eq(args[0]) is None ==> is_reply(r, 1, 1, Some(export_usage()))
                && after == before
            &&& args.len() == 1 && single_eq(args[0]) is Some ==> is_reply(r, 1, 0, None)
                && export_applies(before, after, args[0])
        },
    }
}

/// Runs the builtin `b` with the arguments `args`.
pub fn run_builtin(b: Builtin, args: &Vec<String>, config: &mut Config) -> (r: Reply)
    ensures
        builtin_effect(b, texts_of(args@), *old(config), *final(config), r),
{
    match b {
        Builtin::Help => help_builtin(args, config),
        Builtin::Cd => cd_builtin(args, config),
        Builtin::Exit => exit_builtin(args, config),
        Builtin::Export => export_builtin(args, config),
    }
}

} // verus!
