//! The leveled debug trace.
use vstd::prelude::*;
use vstd::string::StringExecFns;
use crate::config::{Config, LogLevel};

verus! {

/// The record to append to the log file for `msg`: the message and a
/// newline, and only at the debug level.
pub fn debug(cfg: &Config, msg: &str) -> (r: Option<String>)
    ensures
        cfg.log_level == LogLevel::Debug ==> r is Some && r->0@ == msg@ + seq!['\n'],
        cfg.log_level != LogLevel::Debug ==> r is None,
{
    if cfg.log_level == LogLevel::Debug {
        let mut line = msg.to_string();
        proof {
            reveal_strlit("\n");
        }
        line.append("\n");
        assert(line@ =~= msg@ + seq!['\n']);
        Some(line)
    } else {
        None
    }
}

} // verus!
