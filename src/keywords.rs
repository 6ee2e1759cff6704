//! The reserved words of the command language.
use vstd::prelude::*;
use crate::config::{Config, Keyword, lookup, table_insert};

verus! {

pub open spec fn if_name() -> Seq<char> {
    seq!['i', 'f']
}

/// The `if` keyword: accepted, and does nothing yet.
pub fn if_keyword(_argv: &Vec<String>, config: &mut Config) -> (r: (i32, i32))
    ensures
        r == (1i32, 0i32),
        *final(config) == *old(config),
{
    (1, 0)
}

/// Registers the keywords.
pub fn load_keywords(cfg: &mut Config)
    ensures
        lookup(final(cfg).keywords@, if_name()) == Some(Keyword::If),
        forall|k: Seq<char>| k != if_name() ==> lookup(final(cfg).keywords@, k) == lookup(old(cfg).keywords@, k),
        final(cfg).rsh_builtins == old(cfg).rsh_builtins,
        final(cfg).variables == old(cfg).variables,
        final(cfg).functions == old(cfg).functions,
        final(cfg).log_level == old(cfg).log_level,
        final(cfg).log_file == old(cfg).log_file,
        final(cfg).stdin_to_execute == old(cfg).stdin_to_execute,
{
    proof {
        reveal_strlit("if");
        assert("if"@ =~= if_name());
    }
    table_insert(&mut cfg.keywords, "if".to_string(), Keyword::If);
}

} // verus!
