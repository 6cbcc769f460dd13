//! The utilities of the diff family that the parsers serve.
use vstd::prelude::*;

use crate::text::same_text;

verus! {

/// Which utility a set of parameters belongs to.
#[derive(Debug, Clone, Copy, PartialEq, Eq, Structural)]
pub enum Executable {
    Cmp,
    Diff,
    Diff3,
    SDiff,
}

/// The command name of a utility.
pub open spec fn executable_name(e: Executable) -> Seq<char> {
    match e {
        Executable::Cmp => "cmp"@,
        Executable::Diff => "diff"@,
        Executable::Diff3 => "diff3"@,
        Executable::SDiff => "sdiff"@,
    }
}

/// The utility that the command name `name` calls; a name of no utility of
/// the family is read as `cmp`.
pub open spec fn util_named(name: Seq<char>) -> Executable {
    if name == "sdiff"@ {
        Executable::SDiff
    } else if name == "diff3"@ {
        Executable::Diff3
    } else if name == "diff"@ {
        Executable::Diff
    } else {
        Executable::Cmp
    }
}

impl Executable {
    /// The utility that the command name `name` calls, `cmp` where the name
    /// is none of the family's.
    pub fn from_name(name: &str) -> (r: Executable)
        ensures
            r == util_named(name@),
    {
        if same_text(name, "sdiff") {
            Executable::SDiff
        } else if same_text(name, "diff3") {
            Executable::Diff3
        } else if same_text(name, "diff") {
            Executable::Diff
        } else {
            Executable::Cmp
        }
    }

    /// The command name of the utility, e.g. `cmp`.
    pub fn name(&self) -> (r: &'static str)
        ensures
            r@ == executable_name(*self),
    {
        match self {
            Executable::Cmp => "cmp",
            Executable::Diff => "diff",
            Executable::Diff3 => "diff3",
            Executable::SDiff => "sdiff",
        }
    }
}

} // verus!
