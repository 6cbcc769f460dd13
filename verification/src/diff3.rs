//! `diff3`: compares three files line by line.
pub mod params_diff3;
pub mod params_diff3_def;

use vstd::prelude::*;

use crate::diff3::params_diff3_def::{diff3_error_text, ParamsDiff3Error};
use crate::params_gen::hint_for;

verus! {

/// The outcome of a diff3 run that did not fail.
#[derive(Debug, PartialEq, Clone, Copy, Eq, Structural)]
pub enum Diff3Ok {
    Different,
    Equal,
    Help,
    Version,
}

/// Errors for diff3.
///
/// To centralize error messages and make it easier to use in a lib.
#[derive(Debug, PartialEq)]
pub enum Diff3Error {
    // parse errors
    ParseError(ParamsDiff3Error),
    NotYetImplemented,
    // compare errors
    OutputError(String),
    // (msg)
    ReadFileError(String),
}

/// The message of a diff3 error.
pub open spec fn diff3_run_error_text(e: &Diff3Error) -> Seq<char> {
    match e {
        Diff3Error::ParseError(p) => hint_for("diff3"@, diff3_error_text(p@)),
        Diff3Error::NotYetImplemented => "Diff3 compare functionality is not yet implemented"@,
        Diff3Error::OutputError(msg) => msg@,
        Diff3Error::ReadFileError(msg) => msg@,
    }
}

impl Diff3Error {
    /// Wraps an error of the parser.
    pub fn from(e: ParamsDiff3Error) -> (r: Self)
        ensures
            r == Diff3Error::ParseError(e),
    {
        Diff3Error::ParseError(e)
    }

    /// The message of the error as the user sees it.
    pub fn message(&self) -> (r: String)
        ensures
            r@ == diff3_run_error_text(self),
    {
        match self {
            Diff3Error::ParseError(p) => {
                let m = p.message();
                crate::params_gen::hinted_for("diff3", m.as_str())
            },
            Diff3Error::NotYetImplemented => String::from_str(
                "Diff3 compare functionality is not yet implemented",
            ),
            Diff3Error::OutputError(msg) => msg.clone(),
            Diff3Error::ReadFileError(msg) => msg.clone(),
        }
    }
}

} // verus!
