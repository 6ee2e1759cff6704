//! The shell's environment: variables, the capability tables and the log
//! settings, with the keyed tables modelled by first-match lookup.
use vstd::prelude::*;

verus! {

#[derive(Clone, Copy, Debug, PartialEq, Eq, Structural)]
pub enum LogLevel {
    Debug,
    Info,
    Warn,
    Critical,
}

/// The capabilities that run inside the shell.
#[derive(Clone, Copy, Debug, PartialEq, Eq, Structural)]
pub enum Builtin {
    Help,
    Cd,
    Exit,
    Export,
}

/// The reserved words of the command language.
#[derive(Clone, Copy, Debug, PartialEq, Eq, Structural)]
pub enum Keyword {
    If,
}

/// The process-wide state of the shell.
pub struct Config {
    pub rsh_builtins: Vec<(String, Builtin)>,
    pub variables: Vec<(String, String)>,
    pub functions: Vec<(String, String)>,
    pub keywords: Vec<(String, Keyword)>,
    pub log_level: LogLevel,
    pub log_file: i32,
    pub stdin_to_execute: i32,
}

/// The first index at or after `i` whose entry has key `k`, or -1.
pub open spec fn find_from<V>(t: Seq<(String, V)>, k: Seq<char>, i: int) -> int
    decreases t.len() - i,
{
    if i < 0 || i >= t.len() {
        -1
    } else if t[i].0@ == k {
        i
    } else {
        find_from(t, k, i + 1)
    }
}

/// What a table maps `k` to: its first entry with that key.
pub open spec fn lookup<V>(t: Seq<(String, V)>, k: Seq<char>) -> Option<V> {
    let i = find_from(t, k, 0);
    if i >= 0 {
        Some(t[i].1)
    } else {
        None
    }
}

/// What a table of strings maps `k` to, as characters.
pub open spec fn lookup_text(t: Seq<(String, String)>, k: Seq<char>) -> Option<Seq<char>> {
    match lookup(t, k) {
        Some(v) => Some(v@),
        None => None,
    }
}

impl Config {
    /// The value of the shell variable `name`.
    pub open spec fn var(&self, name: Seq<char>) -> Option<Seq<char>> {
        lookup_text(self.variables@, name)
    }

    pub open spec fn has_builtin(&self, name: Seq<char>) -> bool {
        lookup(self.rsh_builtins@, name) is Some
    }

    pub open spec fn has_function(&self, name: Seq<char>) -> bool {
        lookup(self.functions@, name) is Some
    }

    pub open spec fn has_keyword(&self, name: Seq<char>) -> bool {
        lookup(self.keywords@, name) is Some
    }
}

pub proof fn lemma_find_from<V>(t: Seq<(String, V)>, k: Seq<char>, i: int)
    requires
        0 <= i,
    ensures
        find_from(t, k, i) == -1 || (i <= find_from(t, k, i) < t.len() && t[find_from(
            t,
            k,
            i,
        )].0@ == k),
        forall|j: int|
            i <= j < (if find_from(t, k, i) == -1 {
                t.len() as int
            } else {
                find_from(t, k, i)
            }) ==> (#[trigger] t[j]).0@ != k,
    decreases t.len() - i,
{
    if i < t.len() && t[i].0@ != k {
        lemma_find_from(t, k, i + 1);
    }
}

/// Two tables with the same keys in the same places find every key alike.
pub proof fn lemma_find_same_keys<V>(t1: Seq<(String, V)>, t2: Seq<(String, V)>, k: Seq<char>, i: int)
    requires
        t1.len() == t2.len(),
        forall|j: int| 0 <= j < t1.len() ==> (#[trigger] t1[j]).0@ == t2[j].0@,
    ensures
        find_from(t1, k, i) == find_from(t2, k, i),
    decreases t1.len() - i,
{
    if 0 <= i < t1.len() && t1[i].0@ != k {
        lemma_find_same_keys(t1, t2, k, i + 1);
    }
}

/// Appending an entry leaves every earlier find alone.
pub proof fn lemma_find_push<V>(t: Seq<(String, V)>, e: (String, V), k: Seq<char>, i: int)
    requires
        0 <= i <= t.len(),
    ensures
        find_from(t.push(e), k, i) == (if find_from(t, k, i) >= 0 {
            find_from(t, k, i)
        } else if e.0@ == k {
            t.len() as int
        } else {
            -1
        }),
    decreases t.len() - i,
{
    assert(t.push(e)[i] == if i < t.len() {
        t[i]
    } else {
        e
    });
    if i < t.len() {
        if t[i].0@ != k {
            lemma_find_push(t, e, k, i + 1);
        }
    } else {
        assert(find_from(t.push(e), k, i + 1) == -1);
    }
}

/// The index of the first entry of `t` whose key is `k`.
pub fn find_key<V>(t: &Vec<(String, V)>, k: &String) -> (r: Option<usize>)
    ensures
        match r {
            Some(i) => i < t.len() && i as int == find_from(t@, k@, 0),
            None => find_from(t@, k@, 0) == -1,
        },
{
    proof {
        lemma_find_from(t@, k@, 0);
    }
    let mut i: usize = 0;
    while i < t.len()
        invariant
            i <= t.len(),
            find_from(t@, k@, i as int) == find_from(t@, k@, 0),
        decreases t.len() - i,
    {
        if t[i].0 == *k {
            return Some(i);
        }
        i = i + 1;
    }
    None
}

/// Maps `k` to `v` in `t`, keeping every other key's entry.
pub fn table_insert<V>(t: &mut Vec<(String, V)>, k: String, v: V)
    ensures
        lookup(final(t)@, k@) == Some(v),
        forall|k2: Seq<char>| k2 != k@ ==> lookup(final(t)@, k2) == lookup(old(t)@, k2),
{
    let ghost kv = k@;
    match find_key(t, &k) {
        Some(i) => {
            let ghost t0 = t@;
            t.set(i, (k, v));
            proof {
                lemma_find_from(t0, kv, 0);
                assert forall|j: int| 0 <= j < t0.len() implies (#[trigger] t0[j]).0@ == t@[j].0@ by {}
                lemma_find_same_keys(t0, t@, kv, 0);
                assert forall|k2: Seq<char>| k2 != kv implies lookup(t@, k2) == lookup(t0, k2) by {
                    lemma_find_same_keys(t0, t@, k2, 0);
                    lemma_find_from(t0, k2, 0);
                }
            }
        },
        None => {
            let ghost t0 = t@;
            t.push((k, v));
            proof {
                lemma_find_push(t0, (k, v), kv, 0);
                assert forall|k2: Seq<char>| k2 != kv implies lookup(t@, k2) == lookup(t0, k2) by {
                    lemma_find_push(t0, (k, v), k2, 0);
                    lemma_find_from(t0, k2, 0);
                }
            }
        },
    }
}

/// The value of a key in a table of strings.
pub fn lookup_value(t: &Vec<(String, String)>, k: &String) -> (r: Option<String>)
    ensures
        match r {
            Some(v) => lookup_text(t@, k@) == Some(v@),
            None => lookup_text(t@, k@) is None,
        },
{
    match find_key(t, k) {
        Some(i) => Some(t[i].1.clone()),
        None => None,
    }
}

impl Config {
    pub fn is_builtin(&self, name: &String) -> (r: bool)
        ensures
            r == self.has_builtin(name@),
    {
        find_key(&self.rsh_builtins, name).is_some()
    }

    pub fn is_function(&self, name: &String) -> (r: bool)
        ensures
            r == self.has_function(name@),
    {
        find_key(&self.functions, name).is_some()
    }

    pub fn is_keyword(&self, name: &String) -> (r: bool)
        ensures
            r == self.has_keyword(name@),
    {
        find_key(&self.keywords, name).is_some()
    }
}

/// A fresh environment: the builtins and keywords registered, no
/// functions, the variables seeded from `inherited` (pairs of name and
/// value, as the process environment lists them) and the shell's defaults,
/// logging at the critical level to standard error.
pub fn load_config(inherited: &Vec<(String, String)>) -> (r: Config)
    ensures
        forall|b: Builtin| lookup(r.rsh_builtins@, #[trigger] crate::builtins::builtin_name(b)) == Some(b),
        forall|k: Seq<char>|
            k != "help"@ && k != "cd"@ && k != "exit"@ && k != "export"@ ==> lookup(r.rsh_builtins@, k)
                is None,
        lookup(r.keywords@, crate::keywords::if_name()) == Some(Keyword::If),
        forall|k: Seq<char>| k != crate::keywords::if_name() ==> lookup(r.keywords@, k) is None,
        r.functions@.len() == 0,
        r.var(crate::symbol_table::status_name()) == Some(seq!['0']),
        r.var(crate::symbol_table::prompt1_name()) == Some(seq!['$', ' ']),
        r.var(crate::symbol_table::prompt2_name()) == Some(seq!['>', ' ']),
        forall|k: Seq<char>|
            k != crate::symbol_table::status_name() && k != crate::symbol_table::prompt1_name() && k
                != crate::symbol_table::prompt2_name() ==> r.var(k) == crate::symbol_table::last_value(
                inherited@,
                k,
                inherited@.len() as int,
            ),
        r.log_level == LogLevel::Critical,
        r.log_file == 2,
        r.stdin_to_execute == -1,
{
    let mut cfg = Config {
        rsh_builtins: Vec::new(),
        variables: Vec::new(),
        functions: Vec::new(),
        keywords: Vec::new(),
        log_level: LogLevel::Critical,
        log_file: 2,
        stdin_to_execute: -1,
    };
    assert forall|k: Seq<char>| cfg.var(k) is None by {
        assert(find_from(cfg.variables@, k, 0) == -1);
    }
    assert forall|k: Seq<char>| lookup(cfg.rsh_builtins@, k) is None && lookup(cfg.keywords@, k) is None by {
        assert(find_from(cfg.rsh_builtins@, k, 0) == -1);
        assert(find_from(cfg.keywords@, k, 0) == -1);
    }
    crate::keywords::load_keywords(&mut cfg);
    crate::builtins::load_builtins(&mut cfg);
    crate::symbol_table::load_variables(&mut cfg, inherited);
    cfg
}

} // verus!
