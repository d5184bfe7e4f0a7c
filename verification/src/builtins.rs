//! The builtin set: the fixed, process-wide reserved command names the
//! shell implements itself rather than by spawning a process.

use vstd::prelude::*;

use crate::text::str_eq;

verus! {

/// True when `s` is one of the reserved builtin command names.
pub open spec fn is_builtin_name(s: Seq<char>) -> bool {
    s == "echo"@ || s == "exit"@ || s == "type"@ || s == "pwd"@ || s == "cd"@
}

/// True when `name` is a builtin command.
pub fn is_builtin(name: &str) -> (r: bool)
    ensures
        r == is_builtin_name(name@),
{
    str_eq(name, "echo") || str_eq(name, "exit") || str_eq(name, "type") || str_eq(name, "pwd")
        || str_eq(name, "cd")
}

} // verus!
