//! This module holds all definitions, text and error messages for cmp.
use vstd::prelude::*;

use crate::cmp::params_cmp::{CmpView, ParamsCmp};
use crate::params_gen::{
    gen_error_text, hinted, parsed, spec_opt_help, spec_opt_version, with_hint, AppOption,
    GenErrorView, OptionNameTypeUsed, ParamsGenParseError, ParseBytesError, ParsedOption,
    ParsedOptionView,
};

verus! {

pub const TEXT_HELP: &'static str = r#"
        Usage: {} [OPTION]... FILE1 [FILE2 [SKIP1 [SKIP2]]]
        Compare two files byte by byte.

        The optional SKIP1 and SKIP2 specify the number of bytes to skip
        at the beginning of each file (zero by default).

        Mandatory arguments to long options are mandatory for short options too.
          -b, --print-bytes          print differing bytes
          -i, --ignore-initial=SKIP         skip first SKIP bytes of both inputs
          -i, --ignore-initial=SKIP1:SKIP2  skip first SKIP1 bytes of FILE1 and
                                              first SKIP2 bytes of FILE2
          -l, --verbose              output byte numbers and differing byte values
          -n, --bytes=LIMIT          compare at most LIMIT bytes
          -s, --quiet, --silent      suppress all normal output
              --help                 display this help and exit
          -v, --version              output version information and exit

        SKIP values may be followed by the following multiplicative suffixes:
        kB 1000, K 1024, MB 1,000,000, M 1,048,576,
        GB 1,000,000,000, G 1,073,741,824, and so on for T, P, E, Z, Y.

        If a FILE is '-' or missing, read standard input.
        Exit status is 0 if inputs are the same, 1 if different, 2 if trouble.

        This utility is part of the uutils project: https://github.com/uutils/
        Report bugs here: https://github.com/uutils/diffutils/issues
    "},
        params.executable.to_string_lossy()
    );"#;

pub const TEXT_VERSION: &'static str = "cmp (Rust DiffUtils) 0.1.0";

/// -n, --bytes=LIMIT          compare at most LIMIT bytes
pub open spec fn spec_opt_bytes_limit() -> AppOption {
    AppOption { long_name: "bytes", short: Some('n'), has_arg: true, arg_default: None }
}

/// -i, --ignore-initial=SKIP         skip first SKIP bytes of both inputs
pub open spec fn spec_opt_ignore_initial() -> AppOption {
    AppOption { long_name: "ignore-initial", short: Some('i'), has_arg: true, arg_default: None }
}

/// -b, --print-bytes          print differing bytes
pub open spec fn spec_opt_print_bytes() -> AppOption {
    AppOption { long_name: "print-bytes", short: Some('b'), has_arg: false, arg_default: None }
}

/// -s, --quiet      suppress all normal output
pub open spec fn spec_opt_quiet() -> AppOption {
    AppOption { long_name: "quiet", short: Some('s'), has_arg: false, arg_default: None }
}

/// -s, --silent      suppress all normal output
pub open spec fn spec_opt_silent() -> AppOption {
    AppOption { long_name: "silent", short: Some('s'), has_arg: false, arg_default: None }
}

/// -l, --verbose              output byte numbers and differing byte values
pub open spec fn spec_opt_verbose() -> AppOption {
    AppOption { long_name: "verbose", short: Some('l'), has_arg: false, arg_default: None }
}

/// The options of cmp.
pub open spec fn spec_app_options() -> Seq<AppOption> {
    seq![
        spec_opt_bytes_limit(),
        spec_opt_ignore_initial(),
        spec_opt_print_bytes(),
        spec_opt_quiet(),
        spec_opt_silent(),
        spec_opt_verbose(),
        spec_opt_help(),
        spec_opt_version(),
    ]
}

pub fn opt_bytes_limit() -> (o: AppOption)
    ensures
        o == spec_opt_bytes_limit(),
{
    AppOption { long_name: "bytes", short: Some('n'), has_arg: true, arg_default: None }
}

pub fn opt_ignore_initial() -> (o: AppOption)
    ensures
        o == spec_opt_ignore_initial(),
{
    AppOption { long_name: "ignore-initial", short: Some('i'), has_arg: true, arg_default: None }
}

pub fn opt_print_bytes() -> (o: AppOption)
    ensures
        o == spec_opt_print_bytes(),
{
    AppOption { long_name: "print-bytes", short: Some('b'), has_arg: false, arg_default: None }
}

pub fn opt_quiet() -> (o: AppOption)
    ensures
        o == spec_opt_quiet(),
{
    AppOption { long_name: "quiet", short: Some('s'), has_arg: false, arg_default: None }
}

pub fn opt_silent() -> (o: AppOption)
    ensures
        o == spec_opt_silent(),
{
    AppOption { long_name: "silent", short: Some('s'), has_arg: false, arg_default: None }
}

pub fn opt_verbose() -> (o: AppOption)
    ensures
        o == spec_opt_verbose(),
{
    AppOption { long_name: "verbose", short: Some('l'), has_arg: false, arg_default: None }
}

/// The options of cmp; must contain the help and version options.
pub fn app_options() -> (v: Vec<AppOption>)
    ensures
        v@ == spec_app_options(),
{
    let mut v: Vec<AppOption> = Vec::new();
    v.push(opt_bytes_limit());
    v.push(opt_ignore_initial());
    v.push(opt_print_bytes());
    v.push(opt_quiet());
    v.push(opt_silent());
    v.push(opt_verbose());
    v.push(crate::params_gen::opt_help());
    v.push(crate::params_gen::opt_version());
    assert(v@ =~= spec_app_options());
    v
}

/// Success return type for parsing of params.
///
/// Successful parsing will return ParamsCmp, \
/// -- help und --version will return an Info message, \
/// Error will be returned as [ParamsCmpError] in the function Result.
#[derive(Debug, PartialEq)]
pub enum ParamsCmpOk {
    Info(String),
    ParamsCmp(ParamsCmp),
}

/// A [`ParamsCmpOk`] with its texts as sequences of characters.
pub enum CmpOkView {
    Info(Seq<char>),
    ParamsCmp(CmpView),
}

/// Contains all parser errors and their text messages.
#[derive(Debug, PartialEq)]
pub enum ParamsCmpError {
    /// Bubbled up error
    ArgParserError(ParamsGenParseError),
    /// bytes number incorrect
    BytesInvalidNumber(ParsedOption),
    /// bytes unit incorrect, e.g. 1000LB
    BytesInvalidUnit(ParsedOption),
    /// bytes number too large (>u64)
    BytesPosOverflow(ParsedOption),
    /// Having 5 operands or more
    /// (wrong operand)
    ExtraOperand(String),
    SilentPrintBytesIncompatible,
    SilentVerboseIncompatible,
}

/// A [`ParamsCmpError`] with its texts as sequences of characters.
pub enum CmpErrorView {
    ArgParserError(GenErrorView),
    BytesInvalidNumber(ParsedOptionView),
    BytesInvalidUnit(ParsedOptionView),
    BytesPosOverflow(ParsedOptionView),
    ExtraOperand(Seq<char>),
    SilentPrintBytesIncompatible,
    SilentVerboseIncompatible,
}

impl View for ParamsCmpError {
    type V = CmpErrorView;

    open spec fn view(&self) -> CmpErrorView {
        match self {
            ParamsCmpError::ArgParserError(e) => CmpErrorView::ArgParserError(e@),
            ParamsCmpError::BytesInvalidNumber(o) => CmpErrorView::BytesInvalidNumber(o@),
            ParamsCmpError::BytesInvalidUnit(o) => CmpErrorView::BytesInvalidUnit(o@),
            ParamsCmpError::BytesPosOverflow(o) => CmpErrorView::BytesPosOverflow(o@),
            ParamsCmpError::ExtraOperand(s) => CmpErrorView::ExtraOperand(s@),
            ParamsCmpError::SilentPrintBytesIncompatible => CmpErrorView::SilentPrintBytesIncompatible,
            ParamsCmpError::SilentVerboseIncompatible => CmpErrorView::SilentVerboseIncompatible,
        }
    }
}

/// The cmp error that a failed byte value of the option `o` gives.
pub open spec fn spec_from_parse_byte_error(e: ParseBytesError, o: ParsedOptionView) -> CmpErrorView {
    match e {
        ParseBytesError::NoValue => CmpErrorView::ArgParserError(GenErrorView::ArgForOptionMissing(o)),
        ParseBytesError::PosOverflow => CmpErrorView::BytesPosOverflow(o),
        ParseBytesError::InvalidNumber => CmpErrorView::BytesInvalidNumber(o),
        ParseBytesError::InvalidUnit => CmpErrorView::BytesInvalidUnit(o),
    }
}

impl ParamsCmpError {
    pub fn from_parse_byte_error(parse_byte_error: ParseBytesError, parsed_option: &ParsedOption) -> (r:
        Self)
        ensures
            r@ == spec_from_parse_byte_error(parse_byte_error, parsed_option@),
    {
        match parse_byte_error {
            ParseBytesError::NoValue => {
                Self::ArgParserError(ParamsGenParseError::ArgForOptionMissing(parsed_option.clone()))
            },
            ParseBytesError::PosOverflow => Self::BytesPosOverflow(parsed_option.clone()),
            ParseBytesError::InvalidNumber => Self::BytesInvalidNumber(parsed_option.clone()),
            ParseBytesError::InvalidUnit => Self::BytesInvalidUnit(parsed_option.clone()),
        }
    }

    /// Wraps an error of the option parser.
    pub fn from(err: ParamsGenParseError) -> (r: Self)
        ensures
            r@ == CmpErrorView::ArgParserError(err@),
    {
        Self::ArgParserError(err)
    }
}

/// The errors whose message shows the option's argument have one.
pub open spec fn error_shows_arg(e: CmpErrorView) -> bool {
    match e {
        CmpErrorView::BytesInvalidNumber(o) => o.arg_for_option is Some,
        CmpErrorView::BytesInvalidUnit(o) => o.arg_for_option is Some,
        CmpErrorView::BytesPosOverflow(o) => o.arg_for_option is Some,
        _ => true,
    }
}

/// The message of a cmp parse error.
pub open spec fn error_text(e: CmpErrorView) -> Seq<char> {
    match e {
        CmpErrorView::ArgParserError(g) => with_hint(gen_error_text(g)),
        CmpErrorView::BytesInvalidNumber(o) => with_hint(
            "invalid '--"@ + o.app_option.long_name@ + "' value '"@ + o.arg_for_option->0 + "'"@,
        ),
        CmpErrorView::BytesInvalidUnit(o) => with_hint(
            "invalid '--"@ + o.app_option.long_name@ + "' value '"@ + o.arg_for_option->0 + "'"@,
        ),
        CmpErrorView::BytesPosOverflow(o) => with_hint(
            "invalid '--"@ + o.app_option.long_name@ + "' value (too large) '"@ + o.arg_for_option->0
                + "'"@,
        ),
        CmpErrorView::ExtraOperand(opt) => with_hint("extra operand '"@ + opt + "'"@),
        CmpErrorView::SilentPrintBytesIncompatible => with_hint(
            "options '--print-bytes' ('-b') and '--silent' ('-s') are incompatible"@,
        ),
        CmpErrorView::SilentVerboseIncompatible => with_hint(
            "options '--verbose' ('-l') and '--silent' ('-s') are incompatible"@,
        ),
    }
}

/// The text of a byte value error: `what` is the text between the option's
/// name and its quoted argument.
fn bytes_value_text(o: &ParsedOption, what: &str) -> (r: String)
    requires
        o.arg_for_option is Some,
    ensures
        r@ == "invalid '--"@ + o.app_option.long_name@ + what@ + o@.arg_for_option->0 + "'"@,
{
    let mut m = String::new();
    m.append("invalid '--");
    m.append(o.app_option.long_name);
    m.append(what);
    match &o.arg_for_option {
        Some(a) => m.append(a.as_str()),
        None => {},
    }
    m.append("'");
    assert(m@ =~= "invalid '--"@ + o.app_option.long_name@ + what@ + o@.arg_for_option->0 + "'"@);
    m
}

impl ParamsCmpError {
    /// The message of the error, as the user sees it.
    pub fn message(&self) -> (r: String)
        requires
            error_shows_arg(self@),
        ensures
            r@ == error_text(self@),
    {
        match self {
            ParamsCmpError::ArgParserError(e) => {
                let m = e.message();
                hinted(m.as_str())
            },
            ParamsCmpError::BytesInvalidNumber(opt) | ParamsCmpError::BytesInvalidUnit(opt) => {
                let m = bytes_value_text(opt, "' value '");
                assert(m@ =~= "invalid '--"@ + opt.app_option.long_name@ + "' value '"@
                    + opt@.arg_for_option->0 + "'"@);
                hinted(m.as_str())
            },
            ParamsCmpError::BytesPosOverflow(opt) => {
                let m = bytes_value_text(opt, "' value (too large) '");
                assert(m@ =~= "invalid '--"@ + opt.app_option.long_name@ + "' value (too large) '"@
                    + opt@.arg_for_option->0 + "'"@);
                hinted(m.as_str())
            },
            ParamsCmpError::ExtraOperand(opt) => {
                let mut m = String::new();
                m.append("extra operand '");
                m.append(opt.as_str());
                m.append("'");
                assert(m@ =~= "extra operand '"@ + opt@ + "'"@);
                hinted(m.as_str())
            },
            ParamsCmpError::SilentPrintBytesIncompatible => hinted(
                "options '--print-bytes' ('-b') and '--silent' ('-s') are incompatible",
            ),
            ParamsCmpError::SilentVerboseIncompatible => hinted(
                "options '--verbose' ('-l') and '--silent' ('-s') are incompatible",
            ),
        }
    }
}

} // verus!
