//! The target shell flavour a command is generated for.

use vstd::prelude::*;

use crate::text::{eq_str_ci, seq_eq_ci};

verus! {

/// The shells the pipeline can target.
#[derive(Copy, Clone, Debug, PartialEq, Eq)]
pub enum Shell {
    Bash,
    Zsh,
}

/// The name of each shell.
pub open spec fn spec_shell_name(s: Shell) -> Seq<char> {
    match s {
        Shell::Bash => "bash"@,
        Shell::Zsh => "zsh"@,
    }
}

impl Shell {
    /// The shell's name, as handed to the request builder.
    pub fn as_str(&self) -> (r: &'static str)
        ensures
            r@ == spec_shell_name(*self),
    {
        match self {
            Shell::Bash => "bash",
            Shell::Zsh => "zsh",
        }
    }

    /// Parse a shell name, ignoring case; any other name is refused.
    pub fn from_str_case_insensitive(value: &str) -> (r: Option<Shell>)
        ensures
            seq_eq_ci(value@, "bash"@) ==> r == Some(Shell::Bash),
            !seq_eq_ci(value@, "bash"@) && seq_eq_ci(value@, "zsh"@) ==> r == Some(Shell::Zsh),
            !seq_eq_ci(value@, "bash"@) && !seq_eq_ci(value@, "zsh"@) ==> r is None,
    {
        if eq_str_ci(value, "bash") {
            Some(Shell::Bash)
        } else if eq_str_ci(value, "zsh") {
            Some(Shell::Zsh)
        } else {
            None
        }
    }
}

} // verus!
