//! The command line parser of `cmp` with its options built in.
//!
//! Long options may be abbreviated as long as they stay unambiguous
//! (`--verb` for `--verbose`), short options may be grouped (`-bl`), and the
//! values of `-n` and `-i` may follow the option letter directly (`-bln50`).
use vstd::prelude::*;

use crate::cmp::params_cmp::ParamsCmp;
use crate::executable::executable_name;
use crate::params_gen::{
    args_wf, char_index, lemma_char_index, opt_text, spec_parse_bytes, spec_parse_number_unit, texts,
    Bytes, ParamsGen,
};
use crate::text::{chars_of, starts_with, string_of_range};

verus! {

/// The number of bytes to skip at the start of a file.
pub type IgnInit = u64;

pub const TEXT_HELP_HINT: &'static str = "Try 'cmp --help' for more information.";

pub const TEXT_VERSION: &'static str = "cmp (Rust diffutils) 0.1.0
Copyright (C) 2026 <TODO>?
Licenses: MIT License, Apache License 2.0 <https://www.apache.org/licenses/LICENSE-2.0>.
This is free software: you are free to change and redistribute it.
There is NO WARRANTY, to the extent permitted by law.

Written by <TODO>.";

pub const TEXT_HELP: &'static str = "Usage: cmp [OPTION]... FILE1 [FILE2 [SKIP1 [SKIP2]]]
Compare two files byte by byte.

The optional SKIP1 and SKIP2 specify the number of bytes to skip
at the beginning of each file (zero by default).

Mandatory arguments to long options are mandatory for short options too.
  -b, --print-bytes          print differing bytes
  -i, --ignore-initial=SKIP         skip first SKIP bytes of both inputs
  -i, --ignore-initial=SKIP1:SKIP2  skip first SKIP1 bytes of FILE1 and
                                      first SKIP2 bytes of FILE2
  -l, --verbose              output byte numbers and differing byte values
  -n, --bytes=LIMIT          compare at most LIMIT bytes
  -s, --quiet, --silent      suppress all normal output
      --help                 display this help and exit
  -v, --version              output version information and exit

SKIP values may be followed by the following multiplicative suffixes:
kB 1000, K 1024, MB 1,000,000, M 1,048,576,
GB 1,000,000,000, G 1,073,741,824, and so on for T, P, E, Z, Y.

If a FILE is '-' or missing, read standard input.
Exit status is 0 if inputs are the same, 1 if different, 2 if trouble.

Report bugs by creating an issue.
home page: <https://github.com/uutils/diffutils>
";

/// Static texts for --help and --version.
///
/// The parser returns these enums to the caller, allowing the caller can identify this as information,
/// so that the program exit code is SUCCESS(0).
#[derive(Debug, Clone, Copy, PartialEq, Eq, Structural)]
pub enum ParamsParseInfo {
    Help,
    Version,
}

impl ParamsParseInfo {
    /// The text to show: the help or the version text.
    pub fn text(&self) -> (r: &'static str)
        ensures
            r@ == (match self {
                ParamsParseInfo::Help => TEXT_HELP@,
                ParamsParseInfo::Version => TEXT_VERSION@,
            }),
    {
        match self {
            ParamsParseInfo::Help => TEXT_HELP,
            ParamsParseInfo::Version => TEXT_VERSION,
        }
    }
}

/// Differentiation for error messages when parsing of a numeric value fails.
#[derive(Debug, Clone, Copy, PartialEq, Eq, Structural)]
pub enum BytesType {
    Limit,
    IgnoreInitial,
}

/// How the option of a byte value is named in messages.
pub open spec fn bytes_type_text(t: BytesType) -> Seq<char> {
    match t {
        BytesType::Limit => "'--bytes' ('-n')"@,
        BytesType::IgnoreInitial => "'--ignore-initial' ('-i')"@,
    }
}

impl BytesType {
    /// How the option is named in messages.
    pub fn text(&self) -> (r: &'static str)
        ensures
            r@ == bytes_type_text(*self),
    {
        match self {
            BytesType::Limit => "'--bytes' ('-n')",
            BytesType::IgnoreInitial => "'--ignore-initial' ('-i')",
        }
    }
}

/// Contains all parser errors and their text messages.
///
/// First argument is always the exe name ('cmp').
#[derive(Debug, PartialEq)]
pub enum ParamsParseError {
    /// ('cmp', ambiguous option, possible Options)
    AmbiguousOption(String, String, String),
    /// cmp: option '--silent' doesn't allow an argument
    /// ('cmp', Option)
    ArgForOptionNotAllowed(String, String),
    /// ('cmp', BytesType)
    BytesNoValue(String, BytesType),
    /// ('cmp', bytes option as given, e.g. 1000LB)
    BytesInvalidNumber(String, BytesType, String),
    /// ('cmp', bytes option as given, e.g. 1000LB)
    BytesInvalidUnit(String, BytesType, String),
    BytesPosOverflow(String, BytesType, String),
    /// Having 5 operands or more
    /// ('cmp', wrong operand)
    ExtraOperand(String, String),
    /// Non-existent single dash option.
    /// ('cmp', wrong option)
    InvalidOption(String, String),
    /// cmp as parameter missing.
    NoExecutable,
    /// cmp, but no other args
    /// ('cmp')
    NoOperand(String),
    /// ('cmp')
    SilentPrintBytesIncompatible(String),
    /// ('cmp')
    SilentVerboseIncompatible(String),
    /// Non-existent double dash option. This is unrecognized because the name can be abbreviated.
    /// ('cmp', wrong option)
    UnrecognizedOption(String, String),
}

/// A [`ParamsParseError`] with its texts as sequences of characters.
pub enum ParseErrorView {
    AmbiguousOption(Seq<char>, Seq<char>, Seq<char>),
    ArgForOptionNotAllowed(Seq<char>, Seq<char>),
    BytesNoValue(Seq<char>, BytesType),
    BytesInvalidNumber(Seq<char>, BytesType, Seq<char>),
    BytesInvalidUnit(Seq<char>, BytesType, Seq<char>),
    BytesPosOverflow(Seq<char>, BytesType, Seq<char>),
    ExtraOperand(Seq<char>, Seq<char>),
    InvalidOption(Seq<char>, Seq<char>),
    NoExecutable,
    NoOperand(Seq<char>),
    SilentPrintBytesIncompatible(Seq<char>),
    SilentVerboseIncompatible(Seq<char>),
    UnrecognizedOption(Seq<char>, Seq<char>),
}

impl View for ParamsParseError {
    type V = ParseErrorView;

    open spec fn view(&self) -> ParseErrorView {
        match self {
            ParamsParseError::AmbiguousOption(c, p, o) => ParseErrorView::AmbiguousOption(
                c@,
                p@,
                o@,
            ),
            ParamsParseError::ArgForOptionNotAllowed(c, o) => ParseErrorView::ArgForOptionNotAllowed(
                c@,
                o@,
            ),
            ParamsParseError::BytesNoValue(c, t) => ParseErrorView::BytesNoValue(c@, *t),
            ParamsParseError::BytesInvalidNumber(c, t, b) => ParseErrorView::BytesInvalidNumber(
                c@,
                *t,
                b@,
            ),
            ParamsParseError::BytesInvalidUnit(c, t, b) => ParseErrorView::BytesInvalidUnit(
                c@,
                *t,
                b@,
            ),
            ParamsParseError::BytesPosOverflow(c, t, b) => ParseErrorView::BytesPosOverflow(
                c@,
                *t,
                b@,
            ),
            ParamsParseError::ExtraOperand(c, o) => ParseErrorView::ExtraOperand(c@, o@),
            ParamsParseError::InvalidOption(c, o) => ParseErrorView::InvalidOption(c@, o@),
            ParamsParseError::NoExecutable => ParseErrorView::NoExecutable,
            ParamsParseError::NoOperand(c) => ParseErrorView::NoOperand(c@),
            ParamsParseError::SilentPrintBytesIncompatible(c) => ParseErrorView::SilentPrintBytesIncompatible(c@),
            ParamsParseError::SilentVerboseIncompatible(c) => ParseErrorView::SilentVerboseIncompatible(c@),
            ParamsParseError::UnrecognizedOption(c, o) => ParseErrorView::UnrecognizedOption(c@, o@),
        }
    }
}

/// Errors of the number parser for byte values.
#[derive(Debug, Clone, Copy, PartialEq, Eq, Structural)]
pub enum ParseBytesError {
    NoValue,
    PosOverflow,
    InvalidUnit,
    InvalidNumber,
}

/// The parse error that a failed byte value of the option `bytes_type` gives.
pub open spec fn bytes_error(
    e: ParseBytesError,
    executable: Seq<char>,
    bytes_type: BytesType,
    bytes: Seq<char>,
) -> ParseErrorView {
    match e {
        ParseBytesError::NoValue => ParseErrorView::BytesNoValue(executable, bytes_type),
        ParseBytesError::PosOverflow => ParseErrorView::BytesPosOverflow(
            executable,
            bytes_type,
            bytes,
        ),
        ParseBytesError::InvalidNumber => ParseErrorView::BytesInvalidNumber(
            executable,
            bytes_type,
            bytes,
        ),
        ParseBytesError::InvalidUnit => ParseErrorView::BytesInvalidUnit(
            executable,
            bytes_type,
            bytes,
        ),
    }
}

impl ParseBytesError {
    pub fn to_params_parse_error(
        &self,
        executable: String,
        bytes_type: BytesType,
        bytes: String,
    ) -> (r: ParamsParseError)
        ensures
            r@ == bytes_error(*self, executable@, bytes_type, bytes@),
    {
        match self {
            ParseBytesError::NoValue => ParamsParseError::BytesNoValue(executable, bytes_type),
            ParseBytesError::PosOverflow => {
                ParamsParseError::BytesPosOverflow(executable, bytes_type, bytes)
            },
            ParseBytesError::InvalidNumber => {
                ParamsParseError::BytesInvalidNumber(executable, bytes_type, bytes)
            },
            ParseBytesError::InvalidUnit => {
                ParamsParseError::BytesInvalidUnit(executable, bytes_type, bytes)
            },
        }
    }
}

/// The same error kind, as the generic number parser names it.
pub open spec fn from_gen_bytes_error(e: crate::params_gen::ParseBytesError) -> ParseBytesError {
    match e {
        crate::params_gen::ParseBytesError::NoValue => ParseBytesError::NoValue,
        crate::params_gen::ParseBytesError::PosOverflow => ParseBytesError::PosOverflow,
        crate::params_gen::ParseBytesError::InvalidNumber => ParseBytesError::InvalidNumber,
        crate::params_gen::ParseBytesError::InvalidUnit => ParseBytesError::InvalidUnit,
    }
}

/// The result of the generic number parser, with this module's error kinds.
pub open spec fn bytes_result(r: Result<u64, crate::params_gen::ParseBytesError>) -> Result<
    u64,
    ParseBytesError,
> {
    match r {
        Ok(v) => Ok(v),
        Err(e) => Err(from_gen_bytes_error(e)),
    }
}

/// Holds the given command line arguments except "--version" and "--help".
#[derive(Debug, PartialEq, Eq)]
pub struct Params {
    /// Identifier
    pub executable: String,
    pub file_1: String,
    pub file_2: String,
    /// If None will be set to 0.
    pub ignore_initial_bytes_file_1: Option<IgnInit>,
    pub ignore_initial_bytes_file_2: Option<IgnInit>,
    /// cmp from diffutils has a limit of i64::MAX (9_223_372_036_854_775_807)
    /// If None limit will be set to Bytes::MAX.
    pub bytes_limit: Option<Bytes>,
    pub print_bytes: bool,
    // use set_silent
    pub silent: bool,
    // use set_verbose
    pub verbose: bool,
}

/// A [`Params`] with its texts as sequences of characters.
pub struct ParamsView {
    pub executable: Seq<char>,
    pub file_1: Seq<char>,
    pub file_2: Seq<char>,
    pub ignore_initial_bytes_file_1: Option<IgnInit>,
    pub ignore_initial_bytes_file_2: Option<IgnInit>,
    pub bytes_limit: Option<Bytes>,
    pub print_bytes: bool,
    pub silent: bool,
    pub verbose: bool,
}

impl View for Params {
    type V = ParamsView;

    open spec fn view(&self) -> ParamsView {
        ParamsView {
            executable: self.executable@,
            file_1: self.file_1@,
            file_2: self.file_2@,
            ignore_initial_bytes_file_1: self.ignore_initial_bytes_file_1,
            ignore_initial_bytes_file_2: self.ignore_initial_bytes_file_2,
            bytes_limit: self.bytes_limit,
            print_bytes: self.print_bytes,
            silent: self.silent,
            verbose: self.verbose,
        }
    }
}

impl Clone for Params {
    fn clone(&self) -> (r: Self)
        ensures
            r@ == self@,
    {
        Params {
            executable: self.executable.clone(),
            file_1: self.file_1.clone(),
            file_2: self.file_2.clone(),
            ignore_initial_bytes_file_1: self.ignore_initial_bytes_file_1,
            ignore_initial_bytes_file_2: self.ignore_initial_bytes_file_2,
            bytes_limit: self.bytes_limit,
            print_bytes: self.print_bytes,
            silent: self.silent,
            verbose: self.verbose,
        }
    }
}

impl Default for Params {
    fn default() -> (r: Self)
        ensures
            r@ == default_params(Seq::empty()),
    {
        Params {
            executable: String::new(),
            file_1: String::new(),
            file_2: String::new(),
            ignore_initial_bytes_file_1: None,
            ignore_initial_bytes_file_2: None,
            bytes_limit: None,
            print_bytes: false,
            silent: false,
            verbose: false,
        }
    }
}

impl Params {
    /// Does as GNU cmp, and completely disables printing where the output
    /// goes to `/dev/null`, as `stdout_is_dev_null` says.
    pub fn silenced_for(self, stdout_is_dev_null: bool) -> (r: Self)
        ensures
            r@ == if stdout_is_dev_null {
                ParamsView { silent: true, verbose: false, print_bytes: false, ..self@ }
            } else {
                self@
            },
    {
        let mut params = self;
        if stdout_is_dev_null {
            params.silent = true;
            params.verbose = false;
            params.print_bytes = false;
        }
        params
    }

    /// The parameters of this parser that hold what a [`ParamsCmp`] holds;
    /// the executable is the name of its utility.
    pub fn from_params_cmp(p: ParamsCmp) -> (r: Params)
        ensures
            r@ == (ParamsView {
                executable: executable_name(p.util),
                file_1: p.from@,
                file_2: p.to@,
                ignore_initial_bytes_file_1: p.ignore_initial_bytes_from,
                ignore_initial_bytes_file_2: p.ignore_initial_bytes_to,
                bytes_limit: p.bytes_limit,
                print_bytes: p.print_bytes,
                silent: p.silent,
                verbose: p.verbose,
            }),
    {
        Params {
            executable: String::from_str(p.util.name()),
            file_1: p.from,
            file_2: p.to,
            ignore_initial_bytes_file_1: p.ignore_initial_bytes_from,
            ignore_initial_bytes_file_2: p.ignore_initial_bytes_to,
            bytes_limit: p.bytes_limit,
            print_bytes: p.print_bytes,
            silent: p.silent,
            verbose: p.verbose,
        }
    }
}

/// Parameters with nothing set but the executable's name.
pub open spec fn default_params(executable: Seq<char>) -> ParamsView {
    ParamsView {
        executable,
        file_1: Seq::empty(),
        file_2: Seq::empty(),
        ignore_initial_bytes_file_1: None,
        ignore_initial_bytes_file_2: None,
        bytes_limit: None,
        print_bytes: false,
        silent: false,
        verbose: false,
    }
}

/// Success return type for parsing of params.
///
/// Successful parsing will return Params, \
/// -- help und --version will return an Info message, \
/// Error will be returned as [ParamsParseError] in the function Result.
#[derive(Debug, PartialEq)]
pub enum ParamsParseOk {
    Info(ParamsParseInfo),
    Params(Params),
}

/// A [`ParamsParseOk`] with its texts as sequences of characters.
pub enum ParseOkView {
    Info(ParamsParseInfo),
    Params(ParamsView),
}

/// The view of a parse result.
pub open spec fn parse_result_view(r: Result<ParamsParseOk, ParamsParseError>) -> Result<
    ParseOkView,
    ParseErrorView,
> {
    match r {
        Ok(ParamsParseOk::Info(i)) => Ok(ParseOkView::Info(i)),
        Ok(ParamsParseOk::Params(p)) => Ok(ParseOkView::Params(p@)),
        Err(e) => Err(e@),
    }
}

// ---------------------------------------------------------------------------
// The setters.
// ---------------------------------------------------------------------------

/// Sets the limit of bytes to compare from the text `bytes`.
pub open spec fn spec_set_bytes_limit(p: ParamsView, bytes: Seq<char>) -> Result<
    ParamsView,
    ParseErrorView,
> {
    match bytes_result(spec_parse_bytes(bytes)) {
        Ok(r) => Ok(ParamsView { bytes_limit: Some(r), ..p }),
        Err(e) => Err(bytes_error(e, p.executable, BytesType::Limit, bytes)),
    }
}

/// Sets the bytes to skip of the first file from the text `bytes`.
pub open spec fn spec_set_skip_1(p: ParamsView, bytes: Seq<char>) -> Result<
    ParamsView,
    ParseErrorView,
> {
    match bytes_result(spec_parse_bytes(bytes)) {
        Ok(r) => Ok(ParamsView { ignore_initial_bytes_file_1: Some(r), ..p }),
        Err(e) => Err(bytes_error(e, p.executable, BytesType::IgnoreInitial, bytes)),
    }
}

/// Sets the bytes to skip of the second file from the text `bytes`.
pub open spec fn spec_set_skip_2(p: ParamsView, bytes: Seq<char>) -> Result<
    ParamsView,
    ParseErrorView,
> {
    match bytes_result(spec_parse_bytes(bytes)) {
        Ok(r) => Ok(ParamsView { ignore_initial_bytes_file_2: Some(r), ..p }),
        Err(e) => Err(bytes_error(e, p.executable, BytesType::IgnoreInitial, bytes)),
    }
}

/// Sets the bytes to skip of both files from `SKIP` (both the same) or
/// `SKIP1:SKIP2`, split at the first colon.
pub open spec fn spec_set_skip_files(p: ParamsView, bytes: Seq<char>) -> Result<
    ParamsView,
    ParseErrorView,
> {
    if bytes.len() == 0 {
        Err(ParseErrorView::BytesNoValue(p.executable, BytesType::IgnoreInitial))
    } else {
        let c = char_index(bytes, ':', 0);
        let (s1, s2) = if c < bytes.len() {
            (bytes.take(c), bytes.skip(c + 1))
        } else {
            (bytes, bytes)
        };
        match spec_set_skip_1(p, s1) {
            Ok(p1) => spec_set_skip_2(p1, s2),
            Err(e) => Err(e),
        }
    }
}

/// Turns on printing the differing bytes; not together with silence.
pub open spec fn spec_set_print_bytes(p: ParamsView) -> Result<ParamsView, ParseErrorView> {
    if p.silent {
        Err(ParseErrorView::SilentPrintBytesIncompatible(p.executable))
    } else {
        Ok(ParamsView { print_bytes: true, ..p })
    }
}

/// Turns on silence; not together with verbose output or printing bytes.
pub open spec fn spec_set_silent(p: ParamsView) -> Result<ParamsView, ParseErrorView> {
    if p.verbose {
        Err(ParseErrorView::SilentVerboseIncompatible(p.executable))
    } else if p.print_bytes {
        Err(ParseErrorView::SilentPrintBytesIncompatible(p.executable))
    } else {
        Ok(ParamsView { silent: true, ..p })
    }
}

/// Turns on verbose output; not together with silence.
pub open spec fn spec_set_verbose(p: ParamsView) -> Result<ParamsView, ParseErrorView> {
    if p.silent {
        Err(ParseErrorView::SilentVerboseIncompatible(p.executable))
    } else {
        Ok(ParamsView { verbose: true, ..p })
    }
}

/// The result of a setter, as the caller sees it: the new state or the error.
pub open spec fn set_result(
    before: ParamsView,
    after: ParamsView,
    r: Result<(), ParamsParseError>,
    s: Result<ParamsView, ParseErrorView>,
) -> bool {
    match s {
        Ok(p) => r is Ok && after == p,
        Err(e) => r matches Err(x) && x@ == e && after.executable == before.executable,
    }
}

/// Silence never goes with verbose output or printed bytes.
pub open spec fn output_modes_compatible(p: ParamsView) -> bool {
    p.silent ==> !p.verbose && !p.print_bytes
}

impl Params {
    /// Returns the executable's name, should be "cmp".
    /// The first refused combination of output options, now that the
    /// parameters are these: `pend` where there was one before.
    fn refusal_after(&self, pend: Option<ParamsParseError>) -> (r: Option<ParamsParseError>)
        ensures
            pend_view(r) == note_refusal(pend_view(pend), self@),
    {
        match pend {
            Some(x) => Some(x),
            None => if self.silent && self.verbose {
                Some(ParamsParseError::SilentVerboseIncompatible(self.executable_str()))
            } else if self.silent && self.print_bytes {
                Some(ParamsParseError::SilentPrintBytesIncompatible(self.executable_str()))
            } else {
                None
            },
        }
    }

    pub fn executable_str(&self) -> (r: String)
        ensures
            r@ == self.executable@,
    {
        self.executable.clone()
    }

    /// Returns the argument at `*next` and steps over it, or an empty String
    /// when there are no more arguments.
    pub fn get_next_opt_as_bytes(args: &Vec<String>, next: &mut usize) -> (r: String)
        requires
            *old(next) <= args@.len(),
        ensures
            (r@, *final(next) as int) == next_or_empty(texts(args@), *old(next) as int),
    {
        if *next < args.len() {
            let r = args[*next].clone();
            *next = *next + 1;
            r
        } else {
            String::new()
        }
    }

    /// Parses a number as defined in <https://www.gnu.org/software/diffutils/manual/html_node/cmp-Options.html>. \
    /// e.g. 1024 or 1KiB
    pub fn parse_bytes(bytes: &str) -> (r: Result<Bytes, ParseBytesError>)
        ensures
            r == bytes_result(spec_parse_bytes(bytes@)),
    {
        match ParamsGen::parse_bytes(bytes) {
            Ok(v) => Ok(v),
            Err(e) => Err(
                match e {
                    crate::params_gen::ParseBytesError::NoValue => ParseBytesError::NoValue,
                    crate::params_gen::ParseBytesError::PosOverflow => ParseBytesError::PosOverflow,
                    crate::params_gen::ParseBytesError::InvalidNumber => {
                        ParseBytesError::InvalidNumber
                    },
                    crate::params_gen::ParseBytesError::InvalidUnit => ParseBytesError::InvalidUnit,
                },
            ),
        }
    }

    /// Returns a multiplier depending on the given unit, e.g. 'KiB' -> 1024,
    /// which then can be used to calculate the final number of bytes.
    pub fn parse_number_unit(unit: &str) -> (r: Result<Bytes, ParseBytesError>)
        ensures
            r == bytes_result(spec_parse_number_unit(unit@)),
    {
        match ParamsGen::parse_number_unit(unit) {
            Ok(v) => Ok(v),
            Err(_) => Err(ParseBytesError::InvalidUnit),
        }
    }

    /// Sets the --bytes limit and returns the input as number.
    pub fn set_bytes_limit(&mut self, bytes: &str) -> (r: Result<Bytes, ParamsParseError>)
        ensures
            match spec_set_bytes_limit(old(self)@, bytes@) {
                Ok(p) => r matches Ok(v) && final(self)@ == p && p.bytes_limit == Some(v),
                Err(e) => r matches Err(x) && x@ == e && final(self)@ == old(self)@,
            },
    {
        match Self::parse_bytes(bytes) {
            Ok(r) => {
                self.bytes_limit = Some(r);
                Ok(r)
            },
            Err(e) => Err(e.to_params_parse_error(self.executable_str(), BytesType::Limit, bytes.to_owned())),
        }
    }

    /// Sets the ignore initial bytes for both files.
    ///
    /// Sets the 2nd file to the value of the 1st file if no second parameter is given. \
    /// Returns true if a value for the second file was given.
    pub fn set_skip_bytes_files(&mut self, bytes: &str) -> (r: Result<bool, ParamsParseError>)
        ensures
            set_result(old(self)@, final(self)@, unit_of_result(r), spec_set_skip_files(old(self)@, bytes@)),
            r matches Ok(b) ==> b == (char_index(bytes@, ':', 0) < bytes@.len()),
    {
        let v = chars_of(bytes);
        if v.len() == 0 {
            return Err(ParamsParseError::BytesNoValue(self.executable_str(), BytesType::IgnoreInitial));
        }
        let mut c: usize = 0;
        while c < v.len() && v[c] != ':'
            invariant
                c <= v@.len(),
                char_index(v@, ':', 0) == char_index(v@, ':', c as int),
            decreases v.len() - c,
        {
            c = c + 1;
        }
        proof {
            lemma_char_index(v@, ':', c as int);
        }
        let has_2nd = c < v.len();
        let (skip_1, skip_2) = if has_2nd {
            let s1 = string_of_range(&v, 0, c);
            let s2 = string_of_range(&v, c + 1, v.len());
            assert(v@.subrange(0, c as int) =~= bytes@.take(c as int));
            assert(v@.subrange(c as int + 1, v@.len() as int) =~= bytes@.skip(c as int + 1));
            (s1, s2)
        } else {
            (bytes.to_owned(), bytes.to_owned())
        };
        match self.set_skip_bytes_file_1(skip_1.as_str()) {
            Ok(_) => {},
            Err(e) => {
                return Err(e);
            },
        }
        match self.set_skip_bytes_file_2(skip_2.as_str()) {
            Ok(_) => Ok(has_2nd),
            Err(e) => Err(e),
        }
    }

    /// Sets the bytes to skip of the first file.
    ///
    /// * bytes - A valid number String, e.g. 1800 or 12KiB
    pub fn set_skip_bytes_file_1(&mut self, bytes: &str) -> (r: Result<IgnInit, ParamsParseError>)
        ensures
            match spec_set_skip_1(old(self)@, bytes@) {
                Ok(p) => r matches Ok(v) && final(self)@ == p && p.ignore_initial_bytes_file_1 == Some(v),
                Err(e) => r matches Err(x) && x@ == e && final(self)@ == old(self)@,
            },
    {
        match Self::parse_bytes(bytes) {
            Ok(r) => {
                self.ignore_initial_bytes_file_1 = Some(r);
                Ok(r)
            },
            Err(e) => Err(e.to_params_parse_error(self.executable_str(), BytesType::IgnoreInitial, bytes.to_owned())),
        }
    }

    /// Sets the bytes to skip of the second file.
    ///
    /// * bytes - A valid number String, e.g. 1800 or 12KiB
    pub fn set_skip_bytes_file_2(&mut self, bytes: &str) -> (r: Result<IgnInit, ParamsParseError>)
        ensures
            match spec_set_skip_2(old(self)@, bytes@) {
                Ok(p) => r matches Ok(v) && final(self)@ == p && p.ignore_initial_bytes_file_2 == Some(v),
                Err(e) => r matches Err(x) && x@ == e && final(self)@ == old(self)@,
            },
    {
        match Self::parse_bytes(bytes) {
            Ok(r) => {
                self.ignore_initial_bytes_file_2 = Some(r);
                Ok(r)
            },
            Err(e) => Err(e.to_params_parse_error(self.executable_str(), BytesType::IgnoreInitial, bytes.to_owned())),
        }
    }

    pub fn set_print_bytes(&mut self) -> (r: Result<(), ParamsParseError>)
        ensures
            set_result(old(self)@, final(self)@, r, spec_set_print_bytes(old(self)@)),
    {
        if self.silent {
            Err(ParamsParseError::SilentPrintBytesIncompatible(self.executable_str()))
        } else {
            self.print_bytes = true;
            Ok(())
        }
    }

    pub fn set_silent(&mut self) -> (r: Result<(), ParamsParseError>)
        ensures
            set_result(old(self)@, final(self)@, r, spec_set_silent(old(self)@)),
    {
        if self.verbose {
            Err(ParamsParseError::SilentVerboseIncompatible(self.executable_str()))
        } else if self.print_bytes {
            Err(ParamsParseError::SilentPrintBytesIncompatible(self.executable_str()))
        } else {
            self.silent = true;
            Ok(())
        }
    }

    pub fn set_verbose(&mut self) -> (r: Result<(), ParamsParseError>)
        ensures
            set_result(old(self)@, final(self)@, r, spec_set_verbose(old(self)@)),
    {
        if self.silent {
            Err(ParamsParseError::SilentVerboseIncompatible(self.executable_str()))
        } else {
            self.verbose = true;
            Ok(())
        }
    }
}

/// A result without its value.
pub open spec fn unit_of_result<T>(r: Result<T, ParamsParseError>) -> Result<(), ParamsParseError> {
    match r {
        Ok(_) => Ok(()),
        Err(e) => Err(e),
    }
}

/// The argument at `k` and the index after it, or an empty text when there
/// is none.
pub open spec fn next_or_empty(args: Seq<Seq<char>>, k: int) -> (Seq<char>, int) {
    if k < args.len() {
        (args[k], k + 1)
    } else {
        (Seq::empty(), k)
    }
}

// ---------------------------------------------------------------------------
// The parser.
// ---------------------------------------------------------------------------

/// The long names of the options of `cmp`.
pub open spec fn option_names() -> Seq<Seq<char>> {
    seq![
        "bytes"@,
        "help"@,
        "ignore-initial"@,
        "print-bytes"@,
        "quiet"@,
        "silent"@,
        "verbose"@,
        "version"@,
    ]
}

/// The names that start with `p`, in table order.
pub open spec fn matching_names(names: Seq<Seq<char>>, p: Seq<char>) -> Seq<Seq<char>>
    decreases names.len(),
{
    if names.len() == 0 {
        Seq::empty()
    } else {
        let r = matching_names(names.drop_last(), p);
        if p.is_prefix_of(names.last()) {
            r.push(names.last())
        } else {
            r
        }
    }
}

/// The names, each as `'--name'`, separated by blanks.
pub open spec fn quoted_names(names: Seq<Seq<char>>) -> Seq<char>
    decreases names.len(),
{
    if names.len() == 0 {
        Seq::empty()
    } else if names.len() == 1 {
        "'--"@ + names[0] + "'"@
    } else {
        quoted_names(names.drop_last()) + " "@ + "'--"@ + names.last() + "'"@
    }
}

/// What the parser does after reading one argument: go on with the new
/// parameters, an operand perhaps, the index of the next argument and,
/// where the argument set the bytes to skip, whether it gave the skip of
/// each file (`SKIP1:SKIP2`), and the first refused combination of output
/// options so far; or stop with a result.
pub enum StepView {
    Continue(ParamsView, Option<Seq<char>>, int, Option<bool>, Option<ParseErrorView>),
    Stop(Result<ParseOkView, ParseErrorView>),
}

/// The error to stop with: the first refused combination of output options
/// where there was one before, else `e`.
pub open spec fn or_pending(pend: Option<ParseErrorView>, e: ParseErrorView) -> ParseErrorView {
    match pend {
        Some(x) => x,
        None => e,
    }
}

/// The first refused combination of output options, once the parameters
/// are `q`: silence with verbose output, or else with printed bytes, is
/// refused as soon as it is asked for; only `--help` and `--version` can
/// still come before the refusal is reported.
pub open spec fn note_refusal(pend: Option<ParseErrorView>, q: ParamsView) -> Option<ParseErrorView> {
    if pend is Some {
        pend
    } else if q.silent && q.verbose {
        Some(ParseErrorView::SilentVerboseIncompatible(q.executable))
    } else if q.silent && q.print_bytes {
        Some(ParseErrorView::SilentPrintBytesIncompatible(q.executable))
    } else {
        None
    }
}

/// Goes on at `next` with the parameters a setter gave, or stops with its error.
pub open spec fn lift(r: Result<ParamsView, ParseErrorView>, next: int, pend: Option<ParseErrorView>) -> StepView {
    match r {
        Ok(p) => StepView::Continue(p, None, next, None, pend),
        Err(e) => StepView::Stop(Err(or_pending(pend, e))),
    }
}

/// Does the value of `-i` give the skip of each file, `SKIP1:SKIP2`?
pub open spec fn gives_both_skips(bytes: Seq<char>) -> bool {
    char_index(bytes, ':', 0) < bytes.len()
}

/// Goes on at `next` with the skips that `-i bytes` sets, or stops with
/// the error.
pub open spec fn lift_skips(p: ParamsView, bytes: Seq<char>, next: int, pend: Option<ParseErrorView>) -> StepView {
    match spec_set_skip_files(p, bytes) {
        Ok(q) => StepView::Continue(q, None, next, Some(gives_both_skips(bytes)), pend),
        Err(e) => StepView::Stop(Err(or_pending(pend, e))),
    }
}

/// Goes on at `next` with the output option that gives `q` turned on.
pub open spec fn switch_step(q: ParamsView, next: int, pend: Option<ParseErrorView>) -> StepView {
    StepView::Continue(q, None, next, None, note_refusal(pend, q))
}

/// The value of an option: the text after `=` when there is one, else the
/// next argument.
pub open spec fn value_or_next(bytes: Seq<char>, args: Seq<Seq<char>>, k: int) -> (Seq<char>, int) {
    if bytes.len() > 0 {
        (bytes, k)
    } else {
        next_or_empty(args, k)
    }
}

/// A long option at `args[i]`.
pub open spec fn spec_long(args: Seq<Seq<char>>, i: int, p: ParamsView, pend: Option<ParseErrorView>) -> StepView {
    let param = args[i];
    let eq = char_index(param, '=', 2);
    let name = param.take(eq);
    let bytes = if eq < param.len() {
        param.skip(eq + 1)
    } else {
        Seq::empty()
    };
    let possible = matching_names(option_names(), name.skip(2));
    if possible.len() == 0 {
        StepView::Stop(Err(or_pending(pend, ParseErrorView::UnrecognizedOption(p.executable, name))))
    } else if possible.len() > 1 {
        StepView::Stop(
            Err(
                or_pending(
                    pend,
                    ParseErrorView::AmbiguousOption(p.executable, name, quoted_names(possible)),
                ),
            ),
        )
    } else {
        let opt = possible[0];
        if bytes.len() > 0 && opt != "bytes"@ && opt != "ignore-initial"@ {
            StepView::Stop(Err(or_pending(pend, ParseErrorView::ArgForOptionNotAllowed(p.executable, opt))))
        } else if opt == "bytes"@ {
            let (b, n) = value_or_next(bytes, args, i + 1);
            lift(spec_set_bytes_limit(p, b), n, pend)
        } else if opt == "help"@ {
            StepView::Stop(Ok(ParseOkView::Info(ParamsParseInfo::Help)))
        } else if opt == "ignore-initial"@ {
            let (b, n) = value_or_next(bytes, args, i + 1);
            lift_skips(p, b, n, pend)
        } else if opt == "quiet"@ || opt == "silent"@ {
            switch_step(ParamsView { silent: true, ..p }, i + 1, pend)
        } else if opt == "print-bytes"@ {
            switch_step(ParamsView { print_bytes: true, ..p }, i + 1, pend)
        } else if opt == "verbose"@ {
            switch_step(ParamsView { verbose: true, ..p }, i + 1, pend)
        } else {
            StepView::Stop(Ok(ParseOkView::Info(ParamsParseInfo::Version)))
        }
    }
}

/// A group of short options at `args[i]`, from the character at `pos` on.
/// `-i` and `-n` end the group; their value is the rest of the group or the
/// next argument.
pub open spec fn spec_short(
    args: Seq<Seq<char>>,
    i: int,
    pos: int,
    p: ParamsView,
    pend: Option<ParseErrorView>,
) -> StepView
    decreases args[i].len() - pos,
{
    let param = args[i];
    if pos < 1 || pos >= param.len() {
        StepView::Continue(p, None, i + 1, None, pend)
    } else {
        let c = param[pos];
        if c == 'b' {
            let q = ParamsView { print_bytes: true, ..p };
            spec_short(args, i, pos + 1, q, note_refusal(pend, q))
        } else if c == 'l' {
            let q = ParamsView { verbose: true, ..p };
            spec_short(args, i, pos + 1, q, note_refusal(pend, q))
        } else if c == 's' {
            let q = ParamsView { silent: true, ..p };
            spec_short(args, i, pos + 1, q, note_refusal(pend, q))
        } else if c == 'i' || c == 'n' {
            let (b, n) = if param.len() > pos + 1 {
                (param.skip(pos + 1), i + 1)
            } else {
                next_or_empty(args, i + 1)
            };
            if c == 'i' {
                lift_skips(p, b, n, pend)
            } else {
                lift(spec_set_bytes_limit(p, b), n, pend)
            }
        } else if c == 'v' {
            StepView::Stop(Ok(ParseOkView::Info(ParamsParseInfo::Version)))
        } else {
            StepView::Stop(Err(or_pending(pend, ParseErrorView::InvalidOption(p.executable, param))))
        }
    }
}

/// A single short option `-x` at `args[i]`.
pub open spec fn spec_single(args: Seq<Seq<char>>, i: int, p: ParamsView, pend: Option<ParseErrorView>) -> StepView {
    let param = args[i];
    let c = param[1];
    if c == 'b' {
        switch_step(ParamsView { print_bytes: true, ..p }, i + 1, pend)
    } else if c == 'i' {
        let (b, n) = next_or_empty(args, i + 1);
        lift_skips(p, b, n, pend)
    } else if c == 'l' {
        switch_step(ParamsView { verbose: true, ..p }, i + 1, pend)
    } else if c == 'n' {
        let (b, n) = next_or_empty(args, i + 1);
        lift(spec_set_bytes_limit(p, b), n, pend)
    } else if c == 's' {
        switch_step(ParamsView { silent: true, ..p }, i + 1, pend)
    } else if c == 'v' {
        StepView::Stop(Ok(ParseOkView::Info(ParamsParseInfo::Version)))
    } else if c == '-' {
        StepView::Stop(Err(or_pending(pend, ParseErrorView::UnrecognizedOption(p.executable, param))))
    } else {
        StepView::Stop(Err(or_pending(pend, ParseErrorView::InvalidOption(p.executable, param))))
    }
}

/// What the argument `args[i]` does.
pub open spec fn spec_arg(args: Seq<Seq<char>>, i: int, p: ParamsView, pend: Option<ParseErrorView>) -> StepView {
    let param = args[i];
    if param[0] != '-' || param.len() == 1 {
        StepView::Continue(p, Some(param), i + 1, None, pend)
    } else if param.len() == 2 {
        spec_single(args, i, p, pend)
    } else if param[1] == '-' {
        spec_long(args, i, p, pend)
    } else {
        spec_short(args, i, 1, p, pend)
    }
}

/// The first refused combination of output options, where there was one
/// (`--help` and `--version` did not come, wherever they stand). Else the
/// files from the operands: one operand compares with standard input; the
/// third and fourth give the bytes to skip unless `-i` already did. `-i`
/// with one value overrides only the third operand, `-i SKIP1:SKIP2` both;
/// `both_skips` says which was last.
pub open spec fn spec_finish(
    p: ParamsView,
    ops: Seq<Seq<char>>,
    both_skips: bool,
    pend: Option<ParseErrorView>,
) -> Result<ParseOkView, ParseErrorView> {
    if pend is Some {
        Err(pend->Some_0)
    } else if ops.len() == 0 {
        Err(ParseErrorView::NoOperand(p.executable))
    } else if ops.len() == 1 {
        Ok(ParseOkView::Params(ParamsView { file_1: ops[0], file_2: "-"@, ..p }))
    } else if ops.len() <= 4 {
        let p2 = ParamsView { file_1: ops[0], file_2: ops[1], ..p };
        if ops.len() > 2 && p2.ignore_initial_bytes_file_1 is None {
            match spec_set_skip_1(p2, ops[2]) {
                Ok(p3) => if ops.len() > 3 {
                    match spec_set_skip_2(p3, ops[3]) {
                        Ok(p4) => Ok(ParseOkView::Params(p4)),
                        Err(e) => Err(e),
                    }
                } else {
                    Ok(ParseOkView::Params(p3))
                },
                Err(e) => Err(e),
            }
        } else if ops.len() > 3 && !both_skips {
            match spec_set_skip_2(p2, ops[3]) {
                Ok(p4) => Ok(ParseOkView::Params(p4)),
                Err(e) => Err(e),
            }
        } else {
            Ok(ParseOkView::Params(p2))
        }
    } else {
        Err(ParseErrorView::ExtraOperand(p.executable, ops[4]))
    }
}

/// The result of parsing the arguments from `args[i]` on, with the
/// parameters `p` and the operands `ops` collected from those before;
/// `both_skips` tells whether the last `-i` before gave both skips, `pend`
/// the first refused combination of output options before.
pub open spec fn spec_run(
    args: Seq<Seq<char>>,
    i: int,
    p: ParamsView,
    ops: Seq<Seq<char>>,
    both_skips: bool,
    pend: Option<ParseErrorView>,
) -> Result<ParseOkView, ParseErrorView>
    decreases args.len() - i,
{
    if i >= args.len() {
        spec_finish(p, ops, both_skips, pend)
    } else {
        match spec_arg(args, i, p, pend) {
            StepView::Continue(p2, op, n, sk, pend2) => if i < n <= args.len() {
                spec_run(
                    args,
                    n,
                    p2,
                    match op {
                        Some(o) => ops.push(o),
                        None => ops,
                    },
                    match sk {
                        Some(b) => b,
                        None => both_skips,
                    },
                    pend2,
                )
            } else {
                spec_finish(p, ops, both_skips, pend)
            },
            StepView::Stop(r) => r,
        }
    }
}

/// What [`Params::parse_params`] gives for a command line whose first
/// argument is the executable's name.
pub open spec fn spec_parse_params(args: Seq<Seq<char>>) -> Result<ParseOkView, ParseErrorView> {
    if args.len() == 0 {
        Err(ParseErrorView::NoExecutable)
    } else {
        spec_run(args, 1, default_params(args[0]), Seq::empty(), false, None)
    }
}

/// A step of the parser as the exec code gives it.
enum ParamsStep {
    Continue(Option<String>, usize, Option<bool>, Option<ParamsParseError>),
    Stop(Result<ParamsParseOk, ParamsParseError>),
}

/// The exec step `r`, with the parameters `after`, is the step `s`.
spec fn step_is(after: ParamsView, r: ParamsStep, s: StepView) -> bool {
    match s {
        StepView::Continue(p2, op, n, sk, pend) => r matches ParamsStep::Continue(o, m, k, e)
            && after == p2 && opt_text(o) == op && m as int == n && k == sk && pend_view(e) == pend,
        StepView::Stop(res) => r matches ParamsStep::Stop(x) && parse_result_view(x) == res,
    }
}

/// The view of a remembered error.
pub open spec fn pend_view(o: Option<ParamsParseError>) -> Option<ParseErrorView> {
    match o {
        Some(e) => Some(e@),
        None => None,
    }
}

/// The error to stop with: the remembered refusal where there is one, else `e`.
fn or_pending_exec(pend: Option<ParamsParseError>, e: ParamsParseError) -> (r: ParamsParseError)
    ensures
        r@ == or_pending(pend_view(pend), e@),
{
    match pend {
        Some(x) => x,
        None => e,
    }
}

/// The long name of the option at `k` of the table.
fn option_name(k: usize) -> (s: &'static str)
    requires
        k < 8,
    ensures
        s@ == option_names()[k as int],
{
    match k {
        0 => "bytes",
        1 => "help",
        2 => "ignore-initial",
        3 => "print-bytes",
        4 => "quiet",
        5 => "silent",
        6 => "verbose",
        _ => "version",
    }
}

/// The long names of the options are all different.
proof fn lemma_option_names()
    ensures
        option_names().len() == 8,
        forall|a: int, b: int|
            0 <= a < 8 && 0 <= b < 8 && a != b ==> #[trigger] option_names()[a]
                != #[trigger] option_names()[b],
{
    reveal_strlit("bytes");
    reveal_strlit("help");
    reveal_strlit("ignore-initial");
    reveal_strlit("print-bytes");
    reveal_strlit("quiet");
    reveal_strlit("silent");
    reveal_strlit("verbose");
    reveal_strlit("version");
    let n = option_names();
    assert forall|a: int, b: int|
        0 <= a < 8 && 0 <= b < 8 && a != b implies #[trigger] n[a] != #[trigger] n[b] by {
        assert(a == 0 || a == 1 || a == 2 || a == 3 || a == 4 || a == 5 || a == 6 || a == 7);
        assert(b == 0 || b == 1 || b == 2 || b == 3 || b == 4 || b == 5 || b == 6 || b == 7);
        if (a == 6 && b == 7) || (a == 7 && b == 6) {
            assert(n[a][4] != n[b][4]);
        } else {
            assert(n[a][0] != n[b][0]);
        }
    }
}

/// The names of `option_names()[..k+1]` that start with `pre`, from those of `..k`.
proof fn lemma_matching_names_step(pre: Seq<char>, k: int)
    requires
        0 <= k < option_names().len(),
    ensures
        matching_names(option_names().take(k + 1), pre) == (if pre.is_prefix_of(option_names()[k]) {
            matching_names(option_names().take(k), pre).push(option_names()[k])
        } else {
            matching_names(option_names().take(k), pre)
        }),
{
    assert(option_names().take(k + 1).drop_last() =~= option_names().take(k));
}

impl Params {
    /// A long option at `args[i]`, whose characters are `p`.
    fn parse_long(
        &mut self,
        args: &Vec<String>,
        i: usize,
        p: &Vec<char>,
        pend: Option<ParamsParseError>,
    ) -> (r: ParamsStep)
        requires
            1 <= i < args@.len(),
            p@ == args@[i as int]@,
            p@.len() >= 3,
            p@[1] == '-',
        ensures
            step_is(final(self)@, r, spec_long(texts(args@), i as int, old(self)@, pend_view(pend))),
            r matches ParamsStep::Continue(_o, n, _k, _e) ==> i < n <= args@.len(),
    {
        let ghost a = texts(args@);
        let ghost param = a[i as int];
        assert(param == p@);
        let len = args.len();
        let mut eq: usize = 2;
        while eq < p.len() && p[eq] != '='
            invariant
                2 <= eq <= p@.len(),
                char_index(p@, '=', 2) == char_index(p@, '=', eq as int),
            decreases p.len() - eq,
        {
            eq = eq + 1;
        }
        assert(char_index(p@, '=', eq as int) == eq as int);
        let name = string_of_range(p, 0, eq);
        assert(p@.subrange(0, eq as int) =~= param.take(eq as int));
        let ghost pre = p@.subrange(2, eq as int);
        assert(pre =~= param.take(eq as int).skip(2));
        let mut count: usize = 0;
        let mut first: usize = 0;
        let mut list = String::new();
        let mut k: usize = 0;
        while k < 8
            invariant
                2 <= eq <= p@.len(),
                pre == p@.subrange(2, eq as int),
                k <= 8,
                count as int == matching_names(option_names().take(k as int), pre).len(),
                list@ == quoted_names(matching_names(option_names().take(k as int), pre)),
                count > 0 ==> first < k && option_names()[first as int] == matching_names(
                    option_names().take(k as int),
                    pre,
                )[0],
                count <= k,
            decreases 8 - k,
        {
            let nm = option_name(k);
            proof {
                lemma_matching_names_step(pre, k as int);
            }
            let ghost m = matching_names(option_names().take(k as int), pre);
            if starts_with(nm, p, 2, eq) {
                if count > 0 {
                    list.append(" ");
                }
                list.append("'--");
                list.append(nm);
                list.append("'");
                proof {
                    assert(m.push(nm@).drop_last() =~= m);
                    assert(list@ =~= quoted_names(m.push(nm@)));
                }
                if count == 0 {
                    first = k;
                }
                count = count + 1;
            }
            k = k + 1;
        }
        assert(option_names().take(8) =~= option_names());
        proof {
            lemma_option_names();
        }
        if count == 0 {
            return ParamsStep::Stop(
                Err(or_pending_exec(pend, ParamsParseError::UnrecognizedOption(self.executable_str(), name))),
            );
        }
        if count > 1 {
            return ParamsStep::Stop(
                Err(
                    or_pending_exec(
                        pend,
                        ParamsParseError::AmbiguousOption(self.executable_str(), name, list),
                    ),
                ),
            );
        }
        let has_bytes = p.len() - eq > 1;
        let ghost bytes: Seq<char> = if (eq as int) < param.len() {
            param.skip(eq as int + 1)
        } else {
            Seq::empty()
        };
        assert(has_bytes == (bytes.len() > 0));
        if has_bytes && first != 0 && first != 2 {
            return ParamsStep::Stop(
                Err(
                    or_pending_exec(
                        pend,
                        ParamsParseError::ArgForOptionNotAllowed(
                            self.executable_str(),
                            option_name(first).to_owned(),
                        ),
                    ),
                ),
            );
        }
        if first == 0 || first == 2 {
            let (b, n) = if has_bytes {
                let b = string_of_range(p, eq + 1, p.len());
                assert(p@.subrange(eq as int + 1, p@.len() as int) =~= bytes);
                (b, i + 1)
            } else {
                let mut nx = i + 1;
                let b = Self::get_next_opt_as_bytes(args, &mut nx);
                (b, nx)
            };
            if first == 0 {
                match self.set_bytes_limit(b.as_str()) {
                    Ok(_) => ParamsStep::Continue(None, n, None, pend),
                    Err(e) => ParamsStep::Stop(Err(or_pending_exec(pend, e))),
                }
            } else {
                match self.set_skip_bytes_files(b.as_str()) {
                    Ok(both) => ParamsStep::Continue(None, n, Some(both), pend),
                    Err(e) => ParamsStep::Stop(Err(or_pending_exec(pend, e))),
                }
            }
        } else if first == 1 {
            ParamsStep::Stop(Ok(ParamsParseOk::Info(ParamsParseInfo::Help)))
        } else if first == 3 {
            self.print_bytes = true;
            let pend2 = self.refusal_after(pend);
            ParamsStep::Continue(None, i + 1, None, pend2)
        } else if first == 4 || first == 5 {
            self.silent = true;
            let pend2 = self.refusal_after(pend);
            ParamsStep::Continue(None, i + 1, None, pend2)
        } else if first == 6 {
            self.verbose = true;
            let pend2 = self.refusal_after(pend);
            ParamsStep::Continue(None, i + 1, None, pend2)
        } else {
            ParamsStep::Stop(Ok(ParamsParseOk::Info(ParamsParseInfo::Version)))
        }
    }

    /// A group of short options at `args[i]`, whose characters are `p`, from
    /// position `pos` on.
    fn parse_short(
        &mut self,
        args: &Vec<String>,
        i: usize,
        p: &Vec<char>,
        pos: usize,
        pend: Option<ParamsParseError>,
    ) -> (r: ParamsStep)
        requires
            1 <= i < args@.len(),
            p@ == args@[i as int]@,
            1 <= pos < p@.len(),
        ensures
            step_is(
                final(self)@,
                r,
                spec_short(texts(args@), i as int, pos as int, old(self)@, pend_view(pend)),
            ),
            r matches ParamsStep::Continue(_o, n, _k, _e) ==> i < n <= args@.len(),
        decreases p@.len() - pos,
    {
        let ghost a = texts(args@);
        assert(a[i as int] == p@);
        let len = args.len();
        let plen = p.len();
        let c = p[pos];
        if c == 'b' || c == 'l' || c == 's' {
            if c == 'b' {
                self.print_bytes = true;
            } else if c == 'l' {
                self.verbose = true;
            } else {
                self.silent = true;
            }
            let ghost mid = self@;
            let pend2 = self.refusal_after(pend);
            assert(spec_short(a, i as int, pos as int, old(self)@, pend_view(pend)) == spec_short(
                a,
                i as int,
                pos as int + 1,
                mid,
                pend_view(pend2),
            ));
            if pos + 1 < p.len() {
                self.parse_short(args, i, p, pos + 1, pend2)
            } else {
                ParamsStep::Continue(None, i + 1, None, pend2)
            }
        } else if c == 'i' || c == 'n' {
            let (b, n) = if p.len() > pos + 1 {
                let b = string_of_range(p, pos + 1, p.len());
                assert(p@.subrange(pos as int + 1, p@.len() as int) =~= p@.skip(pos as int + 1));
                (b, i + 1)
            } else {
                let mut nx = i + 1;
                let b = Self::get_next_opt_as_bytes(args, &mut nx);
                (b, nx)
            };
            if c == 'i' {
                match self.set_skip_bytes_files(b.as_str()) {
                    Ok(both) => ParamsStep::Continue(None, n, Some(both), pend),
                    Err(e) => ParamsStep::Stop(Err(or_pending_exec(pend, e))),
                }
            } else {
                match self.set_bytes_limit(b.as_str()) {
                    Ok(_) => ParamsStep::Continue(None, n, None, pend),
                    Err(e) => ParamsStep::Stop(Err(or_pending_exec(pend, e))),
                }
            }
        } else if c == 'v' {
            ParamsStep::Stop(Ok(ParamsParseOk::Info(ParamsParseInfo::Version)))
        } else {
            ParamsStep::Stop(
                Err(
                    or_pending_exec(
                        pend,
                        ParamsParseError::InvalidOption(self.executable_str(), args[i].clone()),
                    ),
                ),
            )
        }
    }

    /// A single short option at `args[i]`, whose second character is `c`.
    fn parse_single(
        &mut self,
        args: &Vec<String>,
        i: usize,
        c: char,
        pend: Option<ParamsParseError>,
    ) -> (r: ParamsStep)
        requires
            1 <= i < args@.len(),
            args@[i as int]@.len() == 2,
            args@[i as int]@[1] == c,
        ensures
            step_is(final(self)@, r, spec_single(texts(args@), i as int, old(self)@, pend_view(pend))),
            r matches ParamsStep::Continue(_o, n, _k, _e) ==> i < n <= args@.len(),
    {
        let ghost a = texts(args@);
        assert(a[i as int] == args@[i as int]@);
        let len = args.len();
        if c == 'b' {
            self.print_bytes = true;
            let pend2 = self.refusal_after(pend);
            ParamsStep::Continue(None, i + 1, None, pend2)
        } else if c == 'i' || c == 'n' {
            let mut nx = i + 1;
            let b = Self::get_next_opt_as_bytes(args, &mut nx);
            if c == 'i' {
                match self.set_skip_bytes_files(b.as_str()) {
                    Ok(both) => ParamsStep::Continue(None, nx, Some(both), pend),
                    Err(e) => ParamsStep::Stop(Err(or_pending_exec(pend, e))),
                }
            } else {
                match self.set_bytes_limit(b.as_str()) {
                    Ok(_) => ParamsStep::Continue(None, nx, None, pend),
                    Err(e) => ParamsStep::Stop(Err(or_pending_exec(pend, e))),
                }
            }
        } else if c == 'l' {
            self.verbose = true;
            let pend2 = self.refusal_after(pend);
            ParamsStep::Continue(None, i + 1, None, pend2)
        } else if c == 's' {
            self.silent = true;
            let pend2 = self.refusal_after(pend);
            ParamsStep::Continue(None, i + 1, None, pend2)
        } else if c == 'v' {
            ParamsStep::Stop(Ok(ParamsParseOk::Info(ParamsParseInfo::Version)))
        } else if c == '-' {
            ParamsStep::Stop(
                Err(
                    or_pending_exec(
                        pend,
                        ParamsParseError::UnrecognizedOption(self.executable_str(), args[i].clone()),
                    ),
                ),
            )
        } else {
            ParamsStep::Stop(
                Err(
                    or_pending_exec(
                        pend,
                        ParamsParseError::InvalidOption(self.executable_str(), args[i].clone()),
                    ),
                ),
            )
        }
    }

    /// What the argument `args[i]` does.
    fn parse_arg(&mut self, args: &Vec<String>, i: usize, pend: Option<ParamsParseError>) -> (r:
        ParamsStep)
        requires
            1 <= i < args@.len(),
            args_wf(texts(args@)),
        ensures
            step_is(final(self)@, r, spec_arg(texts(args@), i as int, old(self)@, pend_view(pend))),
            r matches ParamsStep::Continue(_o, n, _k, _e) ==> i < n <= args@.len(),
    {
        let ghost a = texts(args@);
        let len = args.len();
        let p = chars_of(args[i].as_str());
        assert(a[i as int] == p@);
        assert(p@.len() > 0);
        if p[0] != '-' || p.len() == 1 {
            ParamsStep::Continue(Some(args[i].clone()), i + 1, None, pend)
        } else if p.len() == 2 {
            self.parse_single(args, i, p[1], pend)
        } else if p[1] == '-' {
            self.parse_long(args, i, &p, pend)
        } else {
            self.parse_short(args, i, &p, 1, pend)
        }
    }

    /// Sets the files from the operands.
    fn finish(
        self,
        operands: Vec<String>,
        both_skips: bool,
        pend: Option<ParamsParseError>,
    ) -> (r: Result<ParamsParseOk, ParamsParseError>)
        ensures
            parse_result_view(r) == spec_finish(self@, texts(operands@), both_skips, pend_view(pend)),
    {
        if let Some(e) = pend {
            return Err(e);
        }
        let ghost ops = texts(operands@);
        let n = operands.len();
        if n == 0 {
            return Err(ParamsParseError::NoOperand(self.executable_str()));
        }
        let mut params = self;
        assert(ops[0] == operands@[0]@);
        if n == 1 {
            params.file_1 = operands[0].clone();
            params.file_2 = String::from_str("-");
            return Ok(ParamsParseOk::Params(params));
        }
        if n <= 4 {
            assert(ops[1] == operands@[1]@);
            params.file_1 = operands[0].clone();
            params.file_2 = operands[1].clone();
            if n > 2 && params.ignore_initial_bytes_file_1.is_none() {
                assert(ops[2] == operands@[2]@);
                match params.set_skip_bytes_file_1(operands[2].as_str()) {
                    Err(e) => {
                        return Err(e);
                    },
                    Ok(_) => {},
                }
                if n > 3 {
                    assert(ops[3] == operands@[3]@);
                    match params.set_skip_bytes_file_2(operands[3].as_str()) {
                        Err(e) => {
                            return Err(e);
                        },
                        Ok(_) => {},
                    }
                }
            } else if n > 3 && !both_skips {
                assert(ops[3] == operands@[3]@);
                match params.set_skip_bytes_file_2(operands[3].as_str()) {
                    Err(e) => {
                        return Err(e);
                    },
                    Ok(_) => {},
                }
            }
            return Ok(ParamsParseOk::Params(params));
        }
        assert(ops[4] == operands@[4]@);
        Err(ParamsParseError::ExtraOperand(params.executable_str(), operands[4].clone()))
    }

    /// Parses the command line arguments. \
    /// Since cmp is called from diffutils, the first argument must always be "cmp".
    ///
    /// These are all identical:
    /// - cmp file_1 file_2 -b -l -n 50
    /// - cmp file_1 file_2 -bl -n50
    /// - cmp file_1 file_2 -bln50
    /// - cmp file_1 file_2 --print-bytes --verbose --bytes=50
    /// - cmp file_1 file_2 --p --verb --by 50
    ///
    /// '--ignore-initial' overrides the third operand, and with
    /// `SKIP1:SKIP2` the fourth too: `cmp file_1 file_2 99 20 -i10` skips
    /// 10 and 20 bytes, `cmp file_1 file_2 99 20 -i10:10` 10 and 10.
    ///
    /// `--help` and `--version` disregard the other options: the first
    /// refused combination of silence with verbose output or printed bytes
    /// is remembered, and reported (before any later error) unless `--help`
    /// or `--version` comes.
    pub fn parse_params(args: &Vec<String>) -> (r: Result<ParamsParseOk, ParamsParseError>)
        requires
            args_wf(texts(args@)),
        ensures
            parse_result_view(r) == spec_parse_params(texts(args@)),
    {
        let ghost a = texts(args@);
        if args.len() == 0 {
            return Err(ParamsParseError::NoExecutable);
        }
        let mut params = Params {
            executable: args[0].clone(),
            file_1: String::new(),
            file_2: String::new(),
            ignore_initial_bytes_file_1: None,
            ignore_initial_bytes_file_2: None,
            bytes_limit: None,
            print_bytes: false,
            silent: false,
            verbose: false,
        };
        let mut operands: Vec<String> = Vec::new();
        assert(texts(operands@) =~= Seq::<Seq<char>>::empty());
        assert(params@ == default_params(a[0]));
        let mut i: usize = 1;
        let mut both_skips = false;
        let mut pend: Option<ParamsParseError> = None;
        while i < args.len()
            invariant
                1 <= i <= args@.len(),
                a == texts(args@),
                args_wf(a),
                spec_parse_params(a) == spec_run(
                    a,
                    i as int,
                    params@,
                    texts(operands@),
                    both_skips,
                    pend_view(pend),
                ),
            decreases args.len() - i,
        {
            match params.parse_arg(args, i, pend) {
                ParamsStep::Continue(op, n, sk, pend2) => {
                    pend = pend2;
                    if let Some(b) = sk {
                        both_skips = b;
                    }
                    match op {
                        Some(o) => {
                            let ghost before = texts(operands@);
                            operands.push(o);
                            assert(texts(operands@) =~= before.push(o@));
                        },
                        None => {},
                    }
                    i = n;
                },
                ParamsStep::Stop(r) => {
                    return r;
                },
            }
        }
        params.finish(operands, both_skips, pend)
    }
}

// ---------------------------------------------------------------------------
// Silence never goes with verbose output or printed bytes.
// ---------------------------------------------------------------------------

/// Setting a byte value leaves the output modes alone.
proof fn lemma_setters_keep_modes(p: ParamsView, b: Seq<char>)
    ensures
        spec_set_bytes_limit(p, b) matches Ok(q) ==> q.silent == p.silent && q.verbose == p.verbose
            && q.print_bytes == p.print_bytes,
        spec_set_skip_1(p, b) matches Ok(q) ==> q.silent == p.silent && q.verbose == p.verbose
            && q.print_bytes == p.print_bytes,
        spec_set_skip_2(p, b) matches Ok(q) ==> q.silent == p.silent && q.verbose == p.verbose
            && q.print_bytes == p.print_bytes,
        spec_set_skip_files(p, b) matches Ok(q) ==> q.silent == p.silent && q.verbose == p.verbose
            && q.print_bytes == p.print_bytes,
{
    if b.len() > 0 {
        let c = char_index(b, ':', 0);
        let s1 = if c < b.len() {
            b.take(c)
        } else {
            b
        };
        let s2 = if c < b.len() {
            b.skip(c + 1)
        } else {
            b
        };
        if let Ok(p1) = spec_set_skip_1(p, s1) {
            assert(spec_set_skip_2(p1, s2) matches Ok(q) ==> q.silent == p.silent && q.verbose
                == p.verbose && q.print_bytes == p.print_bytes);
        }
    }
}

/// While no combination of output options was refused, silence goes with
/// neither verbose output nor printed bytes; and a group of short options
/// never stops with parameters.
proof fn lemma_short_modes(
    args: Seq<Seq<char>>,
    i: int,
    pos: int,
    p: ParamsView,
    pend: Option<ParseErrorView>,
)
    requires
        0 <= i < args.len(),
        pend is None ==> output_modes_compatible(p),
    ensures
        spec_short(args, i, pos, p, pend) matches StepView::Continue(q, _o, _n, _k, pend2) ==> (
        pend2 is None ==> output_modes_compatible(q)),
        spec_short(args, i, pos, p, pend) matches StepView::Stop(r) ==> !(r matches Ok(
            ParseOkView::Params(_),
        )),
    decreases args[i].len() - pos,
{
    let param = args[i];
    if 1 <= pos < param.len() {
        let c = param[pos];
        let (b, n) = if param.len() > pos + 1 {
            (param.skip(pos + 1), i + 1)
        } else {
            next_or_empty(args, i + 1)
        };
        lemma_setters_keep_modes(p, b);
        if c == 'b' {
            let q = ParamsView { print_bytes: true, ..p };
            lemma_short_modes(args, i, pos + 1, q, note_refusal(pend, q));
        } else if c == 'l' {
            let q = ParamsView { verbose: true, ..p };
            lemma_short_modes(args, i, pos + 1, q, note_refusal(pend, q));
        } else if c == 's' {
            let q = ParamsView { silent: true, ..p };
            lemma_short_modes(args, i, pos + 1, q, note_refusal(pend, q));
        }
    }
}

/// The same for any argument.
proof fn lemma_arg_modes(args: Seq<Seq<char>>, i: int, p: ParamsView, pend: Option<ParseErrorView>)
    requires
        0 <= i < args.len(),
        pend is None ==> output_modes_compatible(p),
    ensures
        spec_arg(args, i, p, pend) matches StepView::Continue(q, _o, _n, _k, pend2) ==> (pend2 is None
            ==> output_modes_compatible(q)),
        spec_arg(args, i, p, pend) matches StepView::Stop(r) ==> !(r matches Ok(
            ParseOkView::Params(_),
        )),
{
    let param = args[i];
    lemma_setters_keep_modes(p, next_or_empty(args, i + 1).0);
    let eq = char_index(param, '=', 2);
    let bytes: Seq<char> = if eq < param.len() {
        param.skip(eq + 1)
    } else {
        Seq::empty()
    };
    lemma_setters_keep_modes(p, value_or_next(bytes, args, i + 1).0);
    lemma_short_modes(args, i, 1, p, pend);
}

proof fn lemma_finish_compatible(
    p: ParamsView,
    ops: Seq<Seq<char>>,
    both_skips: bool,
    pend: Option<ParseErrorView>,
)
    requires
        pend is None ==> output_modes_compatible(p),
    ensures
        spec_finish(p, ops, both_skips, pend) matches Ok(ParseOkView::Params(q))
            ==> output_modes_compatible(q),
{
    if 2 <= ops.len() <= 4 {
        let p2 = ParamsView { file_1: ops[0], file_2: ops[1], ..p };
        lemma_setters_keep_modes(p2, ops[2]);
        lemma_setters_keep_modes(p2, ops[3]);
        if let Ok(p3) = spec_set_skip_1(p2, ops[2]) {
            lemma_setters_keep_modes(p3, ops[3]);
        }
    }
}

proof fn lemma_run_compatible(
    args: Seq<Seq<char>>,
    i: int,
    p: ParamsView,
    ops: Seq<Seq<char>>,
    both_skips: bool,
    pend: Option<ParseErrorView>,
)
    requires
        0 <= i,
        pend is None ==> output_modes_compatible(p),
    ensures
        spec_run(args, i, p, ops, both_skips, pend) matches Ok(ParseOkView::Params(q))
            ==> output_modes_compatible(q),
    decreases args.len() - i,
{
    lemma_finish_compatible(p, ops, both_skips, pend);
    if i < args.len() {
        lemma_arg_modes(args, i, p, pend);
        if let StepView::Continue(p2, op, n, sk, pend2) = spec_arg(args, i, p, pend) {
            if i < n <= args.len() {
                lemma_run_compatible(
                    args,
                    n,
                    p2,
                    match op {
                        Some(o) => ops.push(o),
                        None => ops,
                    },
                    match sk {
                        Some(b) => b,
                        None => both_skips,
                    },
                    pend2,
                );
            }
        }
    }
}

/// Whatever the command line, the parameters `cmp` gets never ask for
/// silence together with verbose output or printed bytes: the options are
/// incompatible and the parser refuses to combine them.
pub proof fn lemma_parse_params_output_modes(args: Seq<Seq<char>>)
    ensures
        spec_parse_params(args) matches Ok(ParseOkView::Params(p)) ==> output_modes_compatible(p),
{
    if args.len() > 0 {
        lemma_run_compatible(args, 1, default_params(args[0]), Seq::empty(), false, None);
    }
}

/// A group of short options reads only its own argument and those after it.
proof fn lemma_short_local(
    args: Seq<Seq<char>>,
    args2: Seq<Seq<char>>,
    i: int,
    pos: int,
    p: ParamsView,
    pend: Option<ParseErrorView>,
)
    requires
        0 <= i < args.len(),
        args2.len() == args.len(),
        forall|j: int| i <= j < args.len() ==> #[trigger] args[j] == args2[j],
    ensures
        spec_short(args, i, pos, p, pend) == spec_short(args2, i, pos, p, pend),
    decreases args[i].len() - pos,
{
    assert(args[i] == args2[i]);
    if i + 1 < args.len() {
        assert(args[i + 1] == args2[i + 1]);
    }
    let param = args[i];
    if 1 <= pos < param.len() {
        let c = param[pos];
        if c == 'b' {
            let q = ParamsView { print_bytes: true, ..p };
            lemma_short_local(args, args2, i, pos + 1, q, note_refusal(pend, q));
        } else if c == 'l' {
            let q = ParamsView { verbose: true, ..p };
            lemma_short_local(args, args2, i, pos + 1, q, note_refusal(pend, q));
        } else if c == 's' {
            let q = ParamsView { silent: true, ..p };
            lemma_short_local(args, args2, i, pos + 1, q, note_refusal(pend, q));
        }
    }
}

/// The parser, from `args[i]` on, reads only the arguments from there on.
proof fn lemma_run_local(
    args: Seq<Seq<char>>,
    args2: Seq<Seq<char>>,
    i: int,
    p: ParamsView,
    ops: Seq<Seq<char>>,
    both_skips: bool,
    pend: Option<ParseErrorView>,
)
    requires
        0 <= i,
        args2.len() == args.len(),
        forall|j: int| i <= j < args.len() ==> #[trigger] args[j] == args2[j],
    ensures
        spec_run(args, i, p, ops, both_skips, pend) == spec_run(args2, i, p, ops, both_skips, pend),
    decreases args.len() - i,
{
    if i < args.len() {
        assert(args[i] == args2[i]);
        if i + 1 < args.len() {
            assert(args[i + 1] == args2[i + 1]);
        }
        lemma_short_local(args, args2, i, 1, p, pend);
        assert(spec_arg(args, i, p, pend) == spec_arg(args2, i, p, pend));
        if let StepView::Continue(p2, op, n, sk, pend2) = spec_arg(args, i, p, pend) {
            if i < n <= args.len() {
                lemma_run_local(
                    args,
                    args2,
                    n,
                    p2,
                    match op {
                        Some(o) => ops.push(o),
                        None => ops,
                    },
                    match sk {
                        Some(b) => b,
                        None => both_skips,
                    },
                    pend2,
                );
            }
        }
    }
}

/// The parameters `p` with the switch of the output option `a` turned on.
pub open spec fn switched_on(p: ParamsView, a: Seq<char>) -> ParamsView {
    if a == "-b"@ {
        ParamsView { print_bytes: true, ..p }
    } else if a == "-l"@ {
        ParamsView { verbose: true, ..p }
    } else {
        ParamsView { silent: true, ..p }
    }
}

/// Is `a` one of the options `-b`, `-l` and `-s`, which choose the output?
pub open spec fn is_output_option(a: Seq<char>) -> bool {
    a == "-b"@ || a == "-l"@ || a == "-s"@
}

/// Where the parser comes to the first two output options of the command
/// line, each `-b`, `-l` or `-s`, or to two of them after a combination was
/// already refused, their order changes nothing: `-s -l` and `-l -s` give
/// the same parameters or the same error.
pub proof fn lemma_output_options_commute(
    args: Seq<Seq<char>>,
    i: int,
    p: ParamsView,
    ops: Seq<Seq<char>>,
    both_skips: bool,
    pend: Option<ParseErrorView>,
)
    requires
        0 <= i,
        i + 1 < args.len(),
        is_output_option(args[i]),
        is_output_option(args[i + 1]),
        pend is Some || (!p.silent && !p.verbose && !p.print_bytes),
    ensures
        spec_run(args, i, p, ops, both_skips, pend) == spec_run(
            args.update(i, args[i + 1]).update(i + 1, args[i]),
            i,
            p,
            ops,
            both_skips,
            pend,
        ),
{
    reveal_strlit("-b");
    reveal_strlit("-l");
    reveal_strlit("-s");
    let args2 = args.update(i, args[i + 1]).update(i + 1, args[i]);
    let x = args[i];
    let y = args[i + 1];
    let q = ParamsView {
        print_bytes: p.print_bytes || x == "-b"@ || y == "-b"@,
        verbose: p.verbose || x == "-l"@ || y == "-l"@,
        silent: p.silent || x == "-s"@ || y == "-s"@,
        ..p
    };
    assert(args2[i] == y);
    assert(args2[i + 1] == x);
    // Each argument turns its switch on and moves to the next; the first
    // alone is refused nothing.
    let px = switched_on(p, x);
    let py = switched_on(p, y);
    let ex = note_refusal(pend, px);
    let ey = note_refusal(pend, py);
    let e = note_refusal(ex, q);
    assert(note_refusal(ey, q) == e);
    assert(spec_arg(args, i, p, pend) == StepView::Continue(px, None, i + 1, None, ex));
    assert(spec_arg(args, i + 1, px, ex) == StepView::Continue(q, None, i + 2, None, e));
    assert(spec_arg(args2, i, p, pend) == StepView::Continue(py, None, i + 1, None, ey));
    assert(spec_arg(args2, i + 1, py, ey) == StepView::Continue(q, None, i + 2, None, e));
    assert(spec_run(args, i, p, ops, both_skips, pend) == spec_run(args, i + 1, px, ops, both_skips, ex));
    assert(spec_run(args, i + 1, px, ops, both_skips, ex) == spec_run(args, i + 2, q, ops, both_skips, e));
    assert(spec_run(args2, i, p, ops, both_skips, pend) == spec_run(args2, i + 1, py, ops, both_skips, ey));
    assert(spec_run(args2, i + 1, py, ops, both_skips, ey) == spec_run(args2, i + 2, q, ops, both_skips, e));
    lemma_run_local(args, args2, i + 2, q, ops, both_skips, e);
}

/// No long option name holds `=`.
proof fn lemma_names_without_eq()
    ensures
        forall|k: int, j: int|
            0 <= k < 8 && 0 <= j < option_names()[k].len() ==> #[trigger] option_names()[k][j]
                != '=',
{
    reveal_strlit("bytes");
    reveal_strlit("help");
    reveal_strlit("ignore-initial");
    reveal_strlit("print-bytes");
    reveal_strlit("quiet");
    reveal_strlit("silent");
    reveal_strlit("verbose");
    reveal_strlit("version");
    let n = option_names();
    assert forall|k: int, j: int| 0 <= k < 8 && 0 <= j < n[k].len() implies #[trigger] n[k][j]
        != '=' by {
        assert(k == 0 || k == 1 || k == 2 || k == 3 || k == 4 || k == 5 || k == 6 || k == 7);
    }
}

/// Every name that `matching_names` gives starts with `p` and is one of `names`.
proof fn lemma_matching_names_from(names: Seq<Seq<char>>, p: Seq<char>)
    ensures
        forall|j: int|
            0 <= j < matching_names(names, p).len() ==> p.is_prefix_of(
                #[trigger] matching_names(names, p)[j],
            ) && names.contains(matching_names(names, p)[j]),
    decreases names.len(),
{
    if names.len() > 0 {
        lemma_matching_names_from(names.drop_last(), p);
        let r = matching_names(names.drop_last(), p);
        assert forall|j: int| 0 <= j < matching_names(names, p).len() implies p.is_prefix_of(
            #[trigger] matching_names(names, p)[j],
        ) && names.contains(matching_names(names, p)[j]) by {
            if j < r.len() {
                assert(matching_names(names, p)[j] == r[j]);
                let k = choose|k: int| 0 <= k < names.drop_last().len() && names.drop_last()[k] == r[j];
                assert(names[k] == r[j]);
            } else {
                assert(names[names.len() - 1] == names.last());
            }
        }
    }
}

/// The names that start with `full` are those, among the names that start
/// with its prefix `p`, that start with `full`.
proof fn lemma_matching_names_refine(names: Seq<Seq<char>>, p: Seq<char>, full: Seq<char>)
    requires
        p.is_prefix_of(full),
    ensures
        matching_names(names, full) == matching_names(matching_names(names, p), full),
    decreases names.len(),
{
    if names.len() > 0 {
        lemma_matching_names_refine(names.drop_last(), p, full);
        let last = names.last();
        let m = matching_names(names.drop_last(), p);
        if full.is_prefix_of(last) {
            assert(p.is_prefix_of(last)) by {
                assert forall|j: int| 0 <= j < p.len() implies p[j] == last[j] by {
                    assert(p[j] == full[j]);
                }
            }
        }
        if p.is_prefix_of(last) {
            assert(m.push(last).drop_last() =~= m);
        }
    }
}

/// An unambiguous abbreviation of a long option reads as the option itself:
/// `--ign=5` as `--ignore-initial=5`, `--verb` as `--verbose`, with the same
/// parameters, value and errors.
pub proof fn lemma_long_abbreviation(
    args: Seq<Seq<char>>,
    i: int,
    p: ParamsView,
    pend: Option<ParseErrorView>,
)
    requires
        0 <= i < args.len(),
        args[i].len() > 2,
        args[i][0] == '-',
        args[i][1] == '-',
        matching_names(option_names(), args[i].take(char_index(args[i], '=', 2)).skip(2)).len()
            == 1,
    ensures
        spec_arg(args, i, p, pend) == spec_arg(
            args.update(
                i,
                "--"@ + matching_names(
                    option_names(),
                    args[i].take(char_index(args[i], '=', 2)).skip(2),
                )[0] + args[i].skip(char_index(args[i], '=', 2)),
            ),
            i,
            p,
            pend,
        ),
{
    let a = args[i];
    let eq = char_index(a, '=', 2);
    let pre = a.take(eq).skip(2);
    let m = matching_names(option_names(), pre);
    let full = m[0];
    let rest = a.skip(eq);
    let a2 = "--"@ + full + rest;
    let args2 = args.update(i, a2);
    reveal_strlit("--");
    lemma_char_index(a, '=', 2);
    lemma_matching_names_from(option_names(), pre);
    assert(pre.is_prefix_of(full));
    assert(option_names().contains(full));
    let k = choose|k: int| 0 <= k < option_names().len() && option_names()[k] == full;
    lemma_option_names();
    lemma_names_without_eq();
    assert forall|j: int| 0 <= j < full.len() implies full[j] != '=' by {
        assert(option_names()[k][j] != '=');
    }
    let q: int = full.len() + 2int;
    assert(a2.len() == q + rest.len());
    assert forall|j: int| 2 <= j < q implies a2[j] == full[j - 2] by {}
    assert(q < a2.len() ==> a2[q] == '=') by {
        if q < a2.len() {
            assert(a2[q] == rest[0]);
            assert(rest[0] == a[eq]);
        }
    }
    lemma_char_index(a2, '=', 2);
    let ci = char_index(a2, '=', 2);
    if ci < q {
        assert(a2[ci] == full[ci - 2]);
    }
    if ci > q {
        assert(a2[q] != '=');
    }
    assert(ci == q);
    assert(a2.take(q).skip(2) =~= full);
    if eq < a.len() {
        assert(a2.skip(q + 1) =~= a.skip(eq + 1));
    }
    lemma_matching_names_refine(option_names(), pre, full);
    assert(m =~= seq![full]);
    assert(seq![full].drop_last() =~= Seq::<Seq<char>>::empty());
    assert(full.is_prefix_of(full)) by {
        assert(full.subrange(0, full.len() as int) =~= full);
    }
    assert(matching_names(Seq::<Seq<char>>::empty(), full) == Seq::<Seq<char>>::empty());
    assert(seq![full].last() == full);
    assert(matching_names(seq![full], full) =~= Seq::<Seq<char>>::empty().push(full));
    assert(args2[i] == a2);
    if i + 1 < args.len() {
        assert(args2[i + 1] == args[i + 1]);
    }
}

// ---------------------------------------------------------------------------
// Error messages.
// ---------------------------------------------------------------------------

/// A message prefixed with the executable's name and followed by the help hint.
pub open spec fn err_text(cmp: Seq<char>, msg: Seq<char>) -> Seq<char> {
    cmp + ": "@ + msg + "\n"@ + cmp + ": "@ + TEXT_HELP_HINT@
}

/// The message of a parse error.
pub open spec fn parse_error_text(e: ParseErrorView) -> Seq<char> {
    match e {
        ParseErrorView::AmbiguousOption(cmp, param, options) => err_text(
            cmp,
            "option '"@ + param + "' is ambiguous; possibilities: "@ + options,
        ),
        ParseErrorView::ArgForOptionNotAllowed(cmp, opt) => err_text(
            cmp,
            "option '"@ + opt + "' doesn't allow an argument"@,
        ),
        ParseErrorView::BytesNoValue(cmp, t) => err_text(
            cmp,
            "option "@ + bytes_type_text(t) + " requires an argument"@,
        ),
        ParseErrorView::BytesInvalidNumber(cmp, t, n) => err_text(
            cmp,
            "invalid "@ + bytes_type_text(t) + " value '"@ + n + "'"@,
        ),
        ParseErrorView::BytesInvalidUnit(cmp, t, unit) => err_text(
            cmp,
            "invalid "@ + bytes_type_text(t) + " value '"@ + unit + "'"@,
        ),
        ParseErrorView::BytesPosOverflow(cmp, t, bytes) => err_text(
            cmp,
            "invalid "@ + bytes_type_text(t) + " value (too large) '"@ + bytes + "'"@,
        ),
        ParseErrorView::NoExecutable => "This program must be called with 'cmp' and its parameters."@,
        ParseErrorView::ExtraOperand(cmp, opt) => err_text(cmp, "extra operand '"@ + opt + "'"@),
        ParseErrorView::InvalidOption(cmp, opt) => err_text(cmp, "invalid option '"@ + opt + "'"@),
        ParseErrorView::NoOperand(cmp) => err_text(cmp, "missing operand after '"@ + cmp + "'"@),
        ParseErrorView::UnrecognizedOption(cmp, opt) => err_text(
            cmp,
            "unrecognized option '"@ + opt + "'"@,
        ),
        ParseErrorView::SilentPrintBytesIncompatible(cmp) => err_text(
            cmp,
            "options '--print-bytes' ('-b') and '--silent' ('-s') are incompatible"@,
        ),
        ParseErrorView::SilentVerboseIncompatible(cmp) => err_text(
            cmp,
            "options '--verbose' ('-l') and '--silent' ('-s') are incompatible"@,
        ),
    }
}

/// `msg` prefixed with the executable's name and followed by the help hint.
fn write_err(cmp: &str, msg: &str) -> (r: String)
    ensures
        r@ == err_text(cmp@, msg@),
{
    let mut r = String::new();
    r.append(cmp);
    r.append(": ");
    r.append(msg);
    r.append("\n");
    r.append(cmp);
    r.append(": ");
    r.append(TEXT_HELP_HINT);
    assert(r@ =~= err_text(cmp@, msg@));
    r
}

/// The text `a`, `b`, `c` put together.
fn concat3(a: &str, b: &str, c: &str) -> (r: String)
    ensures
        r@ == a@ + b@ + c@,
{
    let mut r = String::new();
    r.append(a);
    r.append(b);
    r.append(c);
    assert(r@ =~= a@ + b@ + c@);
    r
}

/// The text `a`, `b`, `c`, `d`, `e` put together.
fn concat5(a: &str, b: &str, c: &str, d: &str, e: &str) -> (r: String)
    ensures
        r@ == a@ + b@ + c@ + d@ + e@,
{
    let mut r = String::new();
    r.append(a);
    r.append(b);
    r.append(c);
    r.append(d);
    r.append(e);
    assert(r@ =~= a@ + b@ + c@ + d@ + e@);
    r
}

impl ParamsParseError {
    /// The message of the error, as the user sees it.
    pub fn message(&self) -> (r: String)
        ensures
            r@ == parse_error_text(self@),
    {
        match self {
            ParamsParseError::AmbiguousOption(cmp, param, options) => {
                let mut m = concat3("option '", param.as_str(), "' is ambiguous; possibilities: ");
                m.append(options.as_str());
                write_err(cmp.as_str(), m.as_str())
            },
            ParamsParseError::ArgForOptionNotAllowed(cmp, opt) => {
                let m = concat3("option '", opt.as_str(), "' doesn't allow an argument");
                write_err(cmp.as_str(), m.as_str())
            },
            ParamsParseError::BytesNoValue(cmp, t) => {
                let m = concat3("option ", t.text(), " requires an argument");
                write_err(cmp.as_str(), m.as_str())
            },
            ParamsParseError::BytesInvalidNumber(cmp, t, n) => {
                let m = concat5("invalid ", t.text(), " value '", n.as_str(), "'");
                write_err(cmp.as_str(), m.as_str())
            },
            ParamsParseError::BytesInvalidUnit(cmp, t, unit) => {
                let m = concat5("invalid ", t.text(), " value '", unit.as_str(), "'");
                write_err(cmp.as_str(), m.as_str())
            },
            ParamsParseError::BytesPosOverflow(cmp, t, bytes) => {
                let m = concat5("invalid ", t.text(), " value (too large) '", bytes.as_str(), "'");
                write_err(cmp.as_str(), m.as_str())
            },
            ParamsParseError::NoExecutable => {
                String::from_str("This program must be called with 'cmp' and its parameters.")
            },
            ParamsParseError::ExtraOperand(cmp, opt) => {
                let m = concat3("extra operand '", opt.as_str(), "'");
                write_err(cmp.as_str(), m.as_str())
            },
            ParamsParseError::InvalidOption(cmp, opt) => {
                let m = concat3("invalid option '", opt.as_str(), "'");
                write_err(cmp.as_str(), m.as_str())
            },
            ParamsParseError::NoOperand(cmp) => {
                let m = concat3("missing operand after '", cmp.as_str(), "'");
                write_err(cmp.as_str(), m.as_str())
            },
            ParamsParseError::UnrecognizedOption(cmp, opt) => {
                let m = concat3("unrecognized option '", opt.as_str(), "'");
                write_err(cmp.as_str(), m.as_str())
            },
            ParamsParseError::SilentPrintBytesIncompatible(cmp) => {
                write_err(
                    cmp.as_str(),
                    "options '--print-bytes' ('-b') and '--silent' ('-s') are incompatible",
                )
            },
            ParamsParseError::SilentVerboseIncompatible(cmp) => {
                write_err(
                    cmp.as_str(),
                    "options '--verbose' ('-l') and '--silent' ('-s') are incompatible",
                )
            },
        }
    }
}

} // verus!
