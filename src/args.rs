//! The command-line options of the shell.
use vstd::prelude::*;
use vstd::string::StrSliceExecFns;
use crate::builtins::STDIN_FD;
use crate::config::{Config, LogLevel};

verus! {

pub open spec fn ends_with(s: Seq<char>, suffix: Seq<char>) -> bool {
    s.len() >= suffix.len() && s.subrange(s.len() - suffix.len(), s.len() as int) == suffix
}

/// Whether `s` ends with `suffix`.
pub fn has_suffix(s: &str, suffix: &str) -> (r: bool)
    ensures
        r == ends_with(s@, suffix@),
{
    let n = s.unicode_len();
    let m = suffix.unicode_len();
    if n < m {
        return false;
    }
    let mut k: usize = 0;
    while k < m
        invariant
            n == s@.len(),
            m == suffix@.len(),
            m <= n,
            k <= m,
            forall|j: int| 0 <= j < k ==> s@[n - m + j] == suffix@[j],
        decreases m - k,
    {
        if s.get_char(n - m + k) != suffix.get_char(k) {
            assert(s@.subrange(n - m, n as int)[k as int] != suffix@[k as int]);
            return false;
        }
        k = k + 1;
    }
    assert(s@.subrange(n - m, n as int) =~= suffix@);
    true
}

/// The level that a `--log-level` value names.
pub open spec fn level_named(v: Seq<char>) -> Option<LogLevel> {
    if v == "debug"@ {
        Some(LogLevel::Debug)
    } else if v == "info"@ {
        Some(LogLevel::Info)
    } else if v == "warn"@ {
        Some(LogLevel::Warn)
    } else if v == "crit"@ {
        Some(LogLevel::Critical)
    } else {
        None
    }
}

/// Whether the argument names a script: `.sh`, or `.rsh` while the shell
/// still reads its standard input.
pub open spec fn is_script(a: Seq<char>, stdin_to_execute: i32) -> bool {
    ends_with(a, ".sh"@) || (ends_with(a, ".rsh"@) && stdin_to_execute == STDIN_FD)
}

/// What the options from index `i` on do to the log level `lv`: the level
/// they leave, and whether the usage is to be printed.
pub open spec fn options_from(argv: Seq<String>, i: int, lv: LogLevel, stdin_to_execute: i32) -> (
    LogLevel,
    bool,
)
    decreases argv.len() - i,
{
    if i < 0 || i >= argv.len() {
        (lv, false)
    } else if is_script(argv[i]@, stdin_to_execute) {
        options_from(argv, i + 1, lv, stdin_to_execute)
    } else if argv[i]@ == "--log-level"@ {
        if i + 1 >= argv.len() {
            (lv, true)
        } else {
            match level_named(argv[i + 1]@) {
                Some(l) => options_from(argv, i + 1, l, stdin_to_execute),
                None => (lv, true),
            }
        }
    } else {
        options_from(argv, i + 1, lv, stdin_to_execute)
    }
}

/// The scripts named from index `i` on, up to where the reading stops.
pub open spec fn scripts_from(argv: Seq<String>, i: int, stdin_to_execute: i32) -> Seq<Seq<char>>
    decreases argv.len() - i,
{
    if i < 0 || i >= argv.len() {
        Seq::empty()
    } else if is_script(argv[i]@, stdin_to_execute) {
        seq![argv[i]@] + scripts_from(argv, i + 1, stdin_to_execute)
    } else if argv[i]@ == "--log-level"@ && (i + 1 >= argv.len() || level_named(argv[i + 1]@) is None) {
        Seq::empty()
    } else {
        scripts_from(argv, i + 1, stdin_to_execute)
    }
}

/// What the command line asks of the shell besides the log level.
pub struct ArgsReport {
    /// The scripts named on the command line.
    pub scripts: Vec<String>,
    /// Whether the usage text is to be printed.
    pub usage: bool,
}

fn level_of(v: &str) -> (r: Option<LogLevel>)
    ensures
        r == level_named(v@),
{
    let d = "debug".to_string();
    let i = "info".to_string();
    let w = "warn".to_string();
    let c = "crit".to_string();
    let s = v.to_string();
    if s == d {
        Some(LogLevel::Debug)
    } else if s == i {
        Some(LogLevel::Info)
    } else if s == w {
        Some(LogLevel::Warn)
    } else if s == c {
        Some(LogLevel::Critical)
    } else {
        None
    }
}

/// Reads the options: `--log-level LEVEL` sets the level, an argument
/// ending in `.sh` (or `.rsh`) names a script; a missing or unknown level
/// stops the reading and asks for the usage text.
pub fn load_args(cfg: &mut Config, argv: &Vec<String>) -> (r: ArgsReport)
    ensures
        (final(cfg).log_level, r.usage) == options_from(argv@, 0, old(cfg).log_level, old(cfg).stdin_to_execute),
        r.scripts@.map_values(|x: String| x@) == scripts_from(argv@, 0, old(cfg).stdin_to_execute),
        final(cfg).variables == old(cfg).variables,
        final(cfg).rsh_builtins == old(cfg).rsh_builtins,
        final(cfg).keywords == old(cfg).keywords,
        final(cfg).functions == old(cfg).functions,
        final(cfg).log_file == old(cfg).log_file,
        final(cfg).stdin_to_execute == old(cfg).stdin_to_execute,
{
    let ghost c0 = *cfg;
    let mut scripts: Vec<String> = Vec::new();
    let mut i: usize = 0;
    let opt = "--log-level".to_string();
    while i < argv.len()
        invariant
            i <= argv@.len(),
            options_from(argv@, i as int, cfg.log_level, c0.stdin_to_execute) == options_from(
                argv@,
                0,
                c0.log_level,
                c0.stdin_to_execute,
            ),
            scripts@.map_values(|x: String| x@) + scripts_from(argv@, i as int, c0.stdin_to_execute)
                == scripts_from(argv@, 0, c0.stdin_to_execute),
            cfg.variables == c0.variables,
            cfg.rsh_builtins == c0.rsh_builtins,
            cfg.keywords == c0.keywords,
            cfg.functions == c0.functions,
            cfg.log_file == c0.log_file,
            cfg.stdin_to_execute == c0.stdin_to_execute,
            opt@ == "--log-level"@,
            c0 == *old(cfg),
        decreases argv.len() - i,
    {
        let a = argv[i].as_str();
        if has_suffix(a, ".sh") || (has_suffix(a, ".rsh") && cfg.stdin_to_execute == STDIN_FD) {
            let ghost before = scripts@.map_values(|x: String| x@);
            scripts.push(argv[i].clone());
            assert(scripts@.map_values(|x: String| x@) =~= before.push(argv@[i as int]@));
            assert(before.push(argv@[i as int]@) + scripts_from(argv@, i + 1, c0.stdin_to_execute) =~= before
                + scripts_from(argv@, i as int, c0.stdin_to_execute));
            i = i + 1;
            continue;
        }
        if argv[i] == opt {
            if i + 1 >= argv.len() {
                assert(scripts@.map_values(|x: String| x@) + Seq::<Seq<char>>::empty() =~= scripts@.map_values(|x: String| x@));
                return ArgsReport { scripts, usage: true };
            }
            match level_of(argv[i + 1].as_str()) {
                Some(l) => {
                    cfg.log_level = l;
                },
                None => {
                    assert(scripts@.map_values(|x: String| x@) + Seq::<Seq<char>>::empty() =~= scripts@.map_values(|x: String| x@));
                    return ArgsReport { scripts, usage: true };
                },
            }
        }
        i = i + 1;
    }
    assert(scripts@.map_values(|x: String| x@) + Seq::<Seq<char>>::empty() =~= scripts@.map_values(|x: String| x@));
    ArgsReport { scripts, usage: false }
}

} // verus!
