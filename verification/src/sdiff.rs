//! `sdiff`: compares two files side by side.
pub mod params_sdiff;
pub mod params_sdiff_def;

use vstd::prelude::*;

use crate::executable::executable_name;
use crate::params_gen::hint_for;
use crate::sdiff::params_sdiff_def::{sdiff_error_text, ParamsSdiffErrorCtx};

verus! {

/// The help text of sdiff.
pub const TEXT_HELP: &'static str = r#"
    sdiff is a tool which allows to compare two text files for differences.
    It outputs the differences in a side-by-side view.
    Use 'diff' for a row-by-row view.
    Use 'cmp' to compare binary files.
    
    Usage: sdiff [OPTIONS] [FILE]...
    If a FILE is '-', read operating system's standard input.

    Options:
    -o, --output=FILE                  operate interactively while sending output to FILE
        --diff-program=PROGRAM         use PROGRAM to compare files
    -a, --text                         treat all files as text
    -H, --speed-large-files            assume large files with many scattered small changes
    -d, --minimal                      try to find a smaller set of changes
        
    -i, --ignore-case                  do not distinguish between upper- and lower-case letters
    -E, --ignore-tab-expansion         ignore changes due to tab expansion
    -Z, --ignore-trailing-space        ignore white space at line end
    -b, --ignore-space-change          ignore changes in the amount of white space
    -W, --ignore-all-space             ignore all white space
    -B, --ignore-blank-lines           ignore changes whose lines are all blank
    -I, --ignore-matching-lines=REGEX  ignore changes all whose lines match REGEX expression
        --strip-trailing-cr            strip trailing carriage return on input

    -s, --suppress-common-lines        do not output common lines
    -l, --left-column                  output only the left column of common lines
    -t, --expand-tabs                  expand tabs to spaces in output
        --tabsize=NUM                  tab stops at every NUM (default 8) print columns
    -w, --width=NUM                    limit the print width to NUM print columns (default 130) 

    -h  --help                         display this help and exit
    -v, --version                      output version information and exit

    Exit status is 0 if inputs are identical, 1 if different, 2 in error case.
    "#;

/// The outcome of an sdiff run that did not fail.
#[derive(Debug, Clone, Copy, PartialEq, Eq, Structural)]
pub enum SDiffOk {
    Different,
    Equal,
    Help,
    Version,
}

/// Errors of core sdiff functionality.
///
/// To centralize error messages and make it easier to use in a lib.
#[derive(Debug, PartialEq)]
pub enum SDiffError {
    // parse errors
    ParseError(ParamsSdiffErrorCtx),
    // compare errors
    OutputError(String),
    // (msg)
    ReadFileError(String),
}

/// The message of an sdiff error.
pub open spec fn sdiff_run_error_text(e: &SDiffError) -> Seq<char> {
    match e {
        SDiffError::ParseError(c) => hint_for(executable_name(c.util), sdiff_error_text(c.error@)),
        SDiffError::OutputError(msg) => msg@,
        SDiffError::ReadFileError(msg) => msg@,
    }
}

impl SDiffError {
    /// Wraps an error of the parser.
    pub fn from(e: ParamsSdiffErrorCtx) -> (r: Self)
        ensures
            r == SDiffError::ParseError(e),
    {
        SDiffError::ParseError(e)
    }

    /// The message of the error as the user sees it.
    pub fn message(&self) -> (r: String)
        ensures
            r@ == sdiff_run_error_text(self),
    {
        match self {
            SDiffError::ParseError(c) => c.message(),
            SDiffError::OutputError(msg) => msg.clone(),
            SDiffError::ReadFileError(msg) => msg.clone(),
        }
    }
}

} // verus!
