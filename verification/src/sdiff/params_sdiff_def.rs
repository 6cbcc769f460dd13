//! This module holds all definitions, text and error messages for sdiff.
use vstd::prelude::*;

use crate::executable::{executable_name, Executable};
use crate::params_gen::{
    gen_error_body, hint_for, hinted_for, spec_opt_help, spec_opt_version, AppOption,
    GenErrorView, ParamsGenParseError, ParsedOption, ParsedOptionView,
};
use crate::sdiff::params_sdiff::{ParamsSdiff, SdiffView};

verus! {

/// --diff-program=PROGRAM   use PROGRAM to compare files
pub open spec fn spec_opt_diff_program() -> AppOption {
    AppOption { long_name: "diff-program", short: None, has_arg: true, arg_default: None }
}

/// -t, --expand-tabs            expand tabs to spaces in output
pub open spec fn spec_opt_expand_tabs() -> AppOption {
    AppOption { long_name: "expand-tabs", short: Some('t'), has_arg: false, arg_default: None }
}

/// -W, --ignore-all-space       ignore all white space
pub open spec fn spec_opt_ignore_all_space() -> AppOption {
    AppOption { long_name: "ignore-all-space", short: Some('W'), has_arg: false, arg_default: None }
}

/// -B, --ignore-blank-lines     ignore changes whose lines are all blank
pub open spec fn spec_opt_ignore_blank_lines() -> AppOption {
    AppOption { long_name: "ignore-blank-lines", short: Some('B'), has_arg: false, arg_default: None }
}

/// -i, --ignore-case            consider upper- and lower-case to be the same
pub open spec fn spec_opt_ignore_case() -> AppOption {
    AppOption { long_name: "ignore-case", short: Some('i'), has_arg: false, arg_default: None }
}

/// -I, --ignore-matching-lines=REGEXP  ignore changes all whose lines match REGEXP
pub open spec fn spec_opt_ignore_matching_lines() -> AppOption {
    AppOption { long_name: "ignore-matching-lines", short: Some('I'), has_arg: true, arg_default: None }
}

/// -b, --ignore-space-change    ignore changes in the amount of white space
pub open spec fn spec_opt_ignore_space_change() -> AppOption {
    AppOption { long_name: "ignore-space-change", short: Some('b'), has_arg: false, arg_default: None }
}

/// -E, --ignore-tab-expansion   ignore changes due to tab expansion
pub open spec fn spec_opt_ignore_tab_expansion() -> AppOption {
    AppOption { long_name: "ignore-tab-expansion", short: Some('E'), has_arg: false, arg_default: None }
}

/// -Z, --ignore-trailing-space  ignore white space at line end
pub open spec fn spec_opt_ignore_trailing_space() -> AppOption {
    AppOption { long_name: "ignore-trailing-space", short: Some('Z'), has_arg: false, arg_default: None }
}

/// -l, --left-column            output only the left column of common lines
pub open spec fn spec_opt_left_column() -> AppOption {
    AppOption { long_name: "left-column", short: Some('l'), has_arg: false, arg_default: None }
}

/// -d, --minimal                try hard to find a smaller set of changes
pub open spec fn spec_opt_minimal() -> AppOption {
    AppOption { long_name: "minimal", short: Some('d'), has_arg: false, arg_default: None }
}

/// -o, --output=FILE            operate interactively, sending output to FILE
pub open spec fn spec_opt_output() -> AppOption {
    AppOption { long_name: "output", short: Some('o'), has_arg: true, arg_default: None }
}

/// -H, --speed-large-files      assume large files, many scattered small changes
pub open spec fn spec_opt_speed_large_files() -> AppOption {
    AppOption { long_name: "speed-large-files", short: Some('H'), has_arg: false, arg_default: None }
}

/// --strip-trailing-cr      strip trailing carriage return on input
pub open spec fn spec_opt_strip_trailing_cr() -> AppOption {
    AppOption { long_name: "strip-trailing-cr", short: None, has_arg: false, arg_default: None }
}

/// -s, --suppress-common-lines  do not output common lines
pub open spec fn spec_opt_suppress_common_lines() -> AppOption {
    AppOption { long_name: "suppress-common-lines", short: Some('s'), has_arg: false, arg_default: None }
}

/// --tabsize=NUM            tab stops at every NUM (default 8) print columns
pub open spec fn spec_opt_tabsize() -> AppOption {
    AppOption { long_name: "tabsize", short: None, has_arg: true, arg_default: None }
}

/// -a, --text                   treat all files as text
pub open spec fn spec_opt_text() -> AppOption {
    AppOption { long_name: "text", short: Some('a'), has_arg: false, arg_default: None }
}

/// -w, --width=NUM              output at most NUM (default 130) print columns
pub open spec fn spec_opt_width() -> AppOption {
    AppOption { long_name: "width", short: Some('w'), has_arg: true, arg_default: None }
}

/// --diff-program=PROGRAM   use PROGRAM to compare files
pub fn opt_diff_program() -> (o: AppOption)
    ensures
        o == spec_opt_diff_program(),
{
    AppOption { long_name: "diff-program", short: None, has_arg: true, arg_default: None }
}

/// -t, --expand-tabs            expand tabs to spaces in output
pub fn opt_expand_tabs() -> (o: AppOption)
    ensures
        o == spec_opt_expand_tabs(),
{
    AppOption { long_name: "expand-tabs", short: Some('t'), has_arg: false, arg_default: None }
}

/// -W, --ignore-all-space       ignore all white space
pub fn opt_ignore_all_space() -> (o: AppOption)
    ensures
        o == spec_opt_ignore_all_space(),
{
    AppOption { long_name: "ignore-all-space", short: Some('W'), has_arg: false, arg_default: None }
}

/// -B, --ignore-blank-lines     ignore changes whose lines are all blank
pub fn opt_ignore_blank_lines() -> (o: AppOption)
    ensures
        o == spec_opt_ignore_blank_lines(),
{
    AppOption { long_name: "ignore-blank-lines", short: Some('B'), has_arg: false, arg_default: None }
}

/// -i, --ignore-case            consider upper- and lower-case to be the same
pub fn opt_ignore_case() -> (o: AppOption)
    ensures
        o == spec_opt_ignore_case(),
{
    AppOption { long_name: "ignore-case", short: Some('i'), has_arg: false, arg_default: None }
}

/// -I, --ignore-matching-lines=REGEXP  ignore changes all whose lines match REGEXP
pub fn opt_ignore_matching_lines() -> (o: AppOption)
    ensures
        o == spec_opt_ignore_matching_lines(),
{
    AppOption { long_name: "ignore-matching-lines", short: Some('I'), has_arg: true, arg_default: None }
}

/// -b, --ignore-space-change    ignore changes in the amount of white space
pub fn opt_ignore_space_change() -> (o: AppOption)
    ensures
        o == spec_opt_ignore_space_change(),
{
    AppOption { long_name: "ignore-space-change", short: Some('b'), has_arg: false, arg_default: None }
}

/// -E, --ignore-tab-expansion   ignore changes due to tab expansion
pub fn opt_ignore_tab_expansion() -> (o: AppOption)
    ensures
        o == spec_opt_ignore_tab_expansion(),
{
    AppOption { long_name: "ignore-tab-expansion", short: Some('E'), has_arg: false, arg_default: None }
}

/// -Z, --ignore-trailing-space  ignore white space at line end
pub fn opt_ignore_trailing_space() -> (o: AppOption)
    ensures
        o == spec_opt_ignore_trailing_space(),
{
    AppOption { long_name: "ignore-trailing-space", short: Some('Z'), has_arg: false, arg_default: None }
}

/// -l, --left-column            output only the left column of common lines
pub fn opt_left_column() -> (o: AppOption)
    ensures
        o == spec_opt_left_column(),
{
    AppOption { long_name: "left-column", short: Some('l'), has_arg: false, arg_default: None }
}

/// -d, --minimal                try hard to find a smaller set of changes
pub fn opt_minimal() -> (o: AppOption)
    ensures
        o == spec_opt_minimal(),
{
    AppOption { long_name: "minimal", short: Some('d'), has_arg: false, arg_default: None }
}

/// -o, --output=FILE            operate interactively, sending output to FILE
pub fn opt_output() -> (o: AppOption)
    ensures
        o == spec_opt_output(),
{
    AppOption { long_name: "output", short: Some('o'), has_arg: true, arg_default: None }
}

/// -H, --speed-large-files      assume large files, many scattered small changes
pub fn opt_speed_large_files() -> (o: AppOption)
    ensures
        o == spec_opt_speed_large_files(),
{
    AppOption { long_name: "speed-large-files", short: Some('H'), has_arg: false, arg_default: None }
}

/// --strip-trailing-cr      strip trailing carriage return on input
pub fn opt_strip_trailing_cr() -> (o: AppOption)
    ensures
        o == spec_opt_strip_trailing_cr(),
{
    AppOption { long_name: "strip-trailing-cr", short: None, has_arg: false, arg_default: None }
}

/// -s, --suppress-common-lines  do not output common lines
pub fn opt_suppress_common_lines() -> (o: AppOption)
    ensures
        o == spec_opt_suppress_common_lines(),
{
    AppOption { long_name: "suppress-common-lines", short: Some('s'), has_arg: false, arg_default: None }
}

/// --tabsize=NUM            tab stops at every NUM (default 8) print columns
pub fn opt_tabsize() -> (o: AppOption)
    ensures
        o == spec_opt_tabsize(),
{
    AppOption { long_name: "tabsize", short: None, has_arg: true, arg_default: None }
}

/// -a, --text                   treat all files as text
pub fn opt_text() -> (o: AppOption)
    ensures
        o == spec_opt_text(),
{
    AppOption { long_name: "text", short: Some('a'), has_arg: false, arg_default: None }
}

/// -w, --width=NUM              output at most NUM (default 130) print columns
pub fn opt_width() -> (o: AppOption)
    ensures
        o == spec_opt_width(),
{
    AppOption { long_name: "width", short: Some('w'), has_arg: true, arg_default: None }
}

/// The options of sdiff, in the order of their long names.
pub open spec fn spec_app_options() -> Seq<AppOption> {
    seq![
        spec_opt_diff_program(),
        spec_opt_expand_tabs(),
        spec_opt_help(),
        spec_opt_ignore_all_space(),
        spec_opt_ignore_blank_lines(),
        spec_opt_ignore_case(),
        spec_opt_ignore_matching_lines(),
        spec_opt_ignore_space_change(),
        spec_opt_ignore_tab_expansion(),
        spec_opt_ignore_trailing_space(),
        spec_opt_left_column(),
        spec_opt_minimal(),
        spec_opt_output(),
        spec_opt_speed_large_files(),
        spec_opt_strip_trailing_cr(),
        spec_opt_suppress_common_lines(),
        spec_opt_tabsize(),
        spec_opt_text(),
        spec_opt_version(),
        spec_opt_width(),
    ]
}

/// The options of sdiff; must contain the help and version options.
pub fn app_options() -> (v: Vec<AppOption>)
    ensures
        v@ == spec_app_options(),
{
    let mut v: Vec<AppOption> = Vec::new();
    v.push(opt_diff_program());
    v.push(opt_expand_tabs());
    v.push(crate::params_gen::opt_help());
    v.push(opt_ignore_all_space());
    v.push(opt_ignore_blank_lines());
    v.push(opt_ignore_case());
    v.push(opt_ignore_matching_lines());
    v.push(opt_ignore_space_change());
    v.push(opt_ignore_tab_expansion());
    v.push(opt_ignore_trailing_space());
    v.push(opt_left_column());
    v.push(opt_minimal());
    v.push(opt_output());
    v.push(opt_speed_large_files());
    v.push(opt_strip_trailing_cr());
    v.push(opt_suppress_common_lines());
    v.push(opt_tabsize());
    v.push(opt_text());
    v.push(crate::params_gen::opt_version());
    v.push(opt_width());
    assert(v@ =~= spec_app_options());
    v
}

/// Success return type for parsing of params.
///
/// Successful parsing will return ParamsSdiff, \
/// '--help' und '--version' will return the request as Enum value, \
/// Error will be returned as [SDiffParseError] in the function Result.
#[derive(Debug, PartialEq)]
pub enum SDiffParseOk {
    ParamsSdiff(ParamsSdiff),
    Help,
    Version,
}

/// A [`SDiffParseOk`] with the parameters as their view.
pub enum SDiffParseOkView {
    ParamsSdiff(SdiffView),
    Help,
    Version,
}

impl View for SDiffParseOk {
    type V = SDiffParseOkView;

    open spec fn view(&self) -> SDiffParseOkView {
        match self {
            SDiffParseOk::ParamsSdiff(p) => SDiffParseOkView::ParamsSdiff(p@),
            SDiffParseOk::Help => SDiffParseOkView::Help,
            SDiffParseOk::Version => SDiffParseOkView::Version,
        }
    }
}

/// Contains all parser errors and their text messages.
#[derive(Debug, PartialEq)]
pub enum SDiffParseError {
    /// Bubbled up error
    ParserError(ParamsGenParseError),
    /// number for an option argument incorrect
    InvalidNumber(ParsedOption),
    /// Having 3 operands or more
    /// (wrong operand)
    ExtraOperand(String),
}

/// A [`SDiffParseError`] with its texts as sequences of characters.
pub enum SDiffParseErrorView {
    ParserError(GenErrorView),
    InvalidNumber(ParsedOptionView),
    ExtraOperand(Seq<char>),
}

impl View for SDiffParseError {
    type V = SDiffParseErrorView;

    open spec fn view(&self) -> SDiffParseErrorView {
        match self {
            SDiffParseError::ParserError(e) => SDiffParseErrorView::ParserError(e@),
            SDiffParseError::InvalidNumber(o) => SDiffParseErrorView::InvalidNumber(o@),
            SDiffParseError::ExtraOperand(s) => SDiffParseErrorView::ExtraOperand(s@),
        }
    }
}

/// An error of the parser together with the utility that reports it.
#[derive(Debug, PartialEq)]
pub struct ParamsSdiffErrorCtx {
    pub util: Executable,
    pub error: SDiffParseError,
}

/// The short name of an option as ` (-c)`, or nothing if it has none.
pub open spec fn short_suffix(o: AppOption) -> Seq<char> {
    match o.short {
        Some(c) => " (-"@.push(c) + ")"@,
        None => Seq::empty(),
    }
}

/// The message of an sdiff parse error, without the utility's name before
/// it and the help hint after it.
pub open spec fn sdiff_error_text(e: SDiffParseErrorView) -> Seq<char> {
    match e {
        SDiffParseErrorView::ParserError(g) => gen_error_body(g, "sdiff"@),
        SDiffParseErrorView::ExtraOperand(opt) => "extra operand '"@ + opt + "'"@,
        SDiffParseErrorView::InvalidNumber(o) => "invalid argument '"@ + match o.arg_for_option {
            Some(a) => a,
            None => Seq::empty(),
        } + "' for '--"@ + o.app_option.long_name@ + "'"@ + short_suffix(o.app_option),
    }
}

impl SDiffParseError {
    /// Wraps an error of the option parser.
    pub fn from(e: ParamsGenParseError) -> (r: Self)
        ensures
            r@ == SDiffParseErrorView::ParserError(e@),
    {
        SDiffParseError::ParserError(e)
    }

    /// The message of the error, without the utility's name and the help hint.
    pub fn message(&self) -> (r: String)
        ensures
            r@ == sdiff_error_text(self@),
    {
        match self {
            SDiffParseError::ParserError(e) => e.body("sdiff"),
            SDiffParseError::ExtraOperand(opt) => {
                let mut m = String::new();
                m.append("extra operand '");
                m.append(opt.as_str());
                m.append("'");
                assert(m@ =~= sdiff_error_text(self@));
                m
            },
            SDiffParseError::InvalidNumber(opt) => {
                let mut m = String::new();
                m.append("invalid argument '");
                match &opt.arg_for_option {
                    Some(a) => m.append(a.as_str()),
                    None => {},
                }
                m.append("' for '--");
                m.append(opt.app_option.long_name);
                m.append("'");
                match opt.app_option.short {
                    Some(c) => {
                        m.append(" (-");
                        crate::text::push_char(&mut m, c);
                        m.append(")");
                    },
                    None => {},
                }
                assert(m@ =~= sdiff_error_text(self@));
                m
            },
        }
    }
}

impl ParamsSdiffErrorCtx {
    /// The message of the error as the user sees it: the utility's name, the
    /// message and the hint where the help is found.
    pub fn message(&self) -> (r: String)
        ensures
            r@ == hint_for(executable_name(self.util), sdiff_error_text(self.error@)),
    {
        let m = self.error.message();
        hinted_for(self.util.name(), m.as_str())
    }
}

} // verus!
