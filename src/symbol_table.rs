//! Shell variables: setting one, and seeding the table at startup.
use vstd::prelude::*;
use crate::config::{Config, table_insert};

verus! {

/// The names of the variables that the shell itself seeds.
pub open spec fn status_name() -> Seq<char> {
    seq!['?']
}

pub open spec fn prompt1_name() -> Seq<char> {
    seq!['P', 'S', '1']
}

pub open spec fn prompt2_name() -> Seq<char> {
    seq!['P', 'S', '2']
}

/// The value of the last entry for `k` among the first `n` entries of `t`.
pub open spec fn last_value(t: Seq<(String, String)>, k: Seq<char>, n: int) -> Option<Seq<char>>
    decreases n,
{
    if n <= 0 {
        None
    } else if t[n - 1].0@ == k {
        Some(t[n - 1].1@)
    } else {
        last_value(t, k, n - 1)
    }
}

/// Two states of the shell that differ at most in their variables.
pub open spec fn same_tables(a: Config, b: Config) -> bool {
    &&& a.rsh_builtins == b.rsh_builtins
    &&& a.functions == b.functions
    &&& a.keywords == b.keywords
    &&& a.log_level == b.log_level
    &&& a.log_file == b.log_file
    &&& a.stdin_to_execute == b.stdin_to_execute
}

/// Sets the shell variable `key` to `value`. Spawned commands receive the
/// variables as their environment.
pub fn set_env_var(key: &str, value: &str, cfg: &mut Config)
    ensures
        final(cfg).var(key@) == Some(value@),
        forall|k: Seq<char>| k != key@ ==> final(cfg).var(k) == old(cfg).var(k),
        same_tables(*old(cfg), *final(cfg)),
{
    table_insert(&mut cfg.variables, key.to_string(), value.to_string());
}

/// Seeds the variables from the inherited environment, then sets `?` to
/// `0` and the two prompts.
pub fn load_variables(cfg: &mut Config, inherited: &Vec<(String, String)>)
    ensures
        final(cfg).var(status_name()) == Some(seq!['0']),
        final(cfg).var(prompt1_name()) == Some(seq!['$', ' ']),
        final(cfg).var(prompt2_name()) == Some(seq!['>', ' ']),
        forall|k: Seq<char>|
            k != status_name() && k != prompt1_name() && k != prompt2_name() ==> final(cfg).var(k)
                == match last_value(inherited@, k, inherited@.len() as int) {
                Some(v) => Some(v),
                None => old(cfg).var(k),
            },
        same_tables(*old(cfg), *final(cfg)),
{
    let ghost c0 = *cfg;
    let mut i: usize = 0;
    while i < inherited.len()
        invariant
            i <= inherited@.len(),
            same_tables(c0, *cfg),
            forall|k: Seq<char>|
                #![trigger cfg.var(k)]
                cfg.var(k) == match last_value(inherited@, k, i as int) {
                    Some(v) => Some(v),
                    None => c0.var(k),
                },
        decreases inherited.len() - i,
    {
        let (k, v) = (&inherited[i].0, &inherited[i].1);
        set_env_var(k.as_str(), v.as_str(), cfg);
        i = i + 1;
    }
    proof {
        reveal_strlit("?");
        reveal_strlit("0");
        reveal_strlit("PS1");
        reveal_strlit("$ ");
        reveal_strlit("PS2");
        reveal_strlit("> ");
        assert("?"@ =~= status_name());
        assert("0"@ =~= seq!['0']);
        assert("PS1"@ =~= prompt1_name());
        assert("$ "@ =~= seq!['$', ' ']);
        assert("PS2"@ =~= prompt2_name());
        assert("> "@ =~= seq!['>', ' ']);
    }
    set_env_var("?", "0", cfg);
    set_env_var("PS1", "$ ", cfg);
    set_env_var("PS2", "> ", cfg);
}

/// The value of the shell variable `name`.
pub fn get_var(cfg: &Config, name: &String) -> (r: Option<String>)
    ensures
        match r {
            Some(v) => cfg.var(name@) == Some(v@),
            None => cfg.var(name@) is None,
        },
{
    crate::config::lookup_value(&cfg.variables, name)
}

} // verus!
