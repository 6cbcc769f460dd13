//! This module holds all definitions, text and error messages for diff3.
use vstd::prelude::*;

use crate::diff3::params_diff3::{Diff3View, ParamsDiff3};
use crate::params_gen::{
    gen_error_body, spec_opt_help, spec_opt_version, AppOption, GenErrorView,
    ParamsGenParseError,
};

verus! {

/// The help text of diff3.
pub const TEXT_HELP: &'static str = "Help missing";

/// The version text of diff3.
pub const TEXT_VERSION: &'static str = "diff3 (Rust DiffUtils) 0.1.0";

/// -i                          append 'w' and 'q' commands to ed scripts
pub open spec fn spec_opt_append_wq_to_ed() -> AppOption {
    AppOption { long_name: "append-wq-to-ed", short: Some('i'), has_arg: false, arg_default: None }
}

/// -X                          like -x, but bracket conflicts
pub open spec fn spec_opt_bracket_conflicts() -> AppOption {
    AppOption { long_name: "bracket-conflicts", short: Some('X'), has_arg: false, arg_default: None }
}

/// --diff-program=PROGRAM  use PROGRAM to compare files
pub open spec fn spec_opt_diff_program() -> AppOption {
    AppOption { long_name: "diff-program", short: None, has_arg: true, arg_default: None }
}

/// -3, --easy-only             like -e, but incorporate only non-overlapping changes
pub open spec fn spec_opt_easy_only() -> AppOption {
    AppOption { long_name: "easy-only", short: Some('3'), has_arg: false, arg_default: None }
}

/// -e, --ed                    output ed script incorporating changes
pub open spec fn spec_opt_ed() -> AppOption {
    AppOption { long_name: "ed", short: Some('e'), has_arg: false, arg_default: None }
}

/// -T, --initial-tab           make tabs line up by prepending a tab
pub open spec fn spec_opt_initial_tab() -> AppOption {
    AppOption { long_name: "initial-tab", short: Some('T'), has_arg: false, arg_default: None }
}

/// -L, --label=LABEL           use LABEL instead of file name
pub open spec fn spec_opt_label() -> AppOption {
    AppOption { long_name: "label", short: Some('L'), has_arg: true, arg_default: None }
}

/// -m, --merge                 output actual merged file, according to -A if no other options are given
pub open spec fn spec_opt_merge() -> AppOption {
    AppOption { long_name: "merge", short: Some('m'), has_arg: false, arg_default: None }
}

/// -x, --overlap-only          like -e, but incorporate only overlapping changes
pub open spec fn spec_opt_overlap_only() -> AppOption {
    AppOption { long_name: "overlap-only", short: Some('x'), has_arg: false, arg_default: None }
}

/// -A, --show-all              output all changes, bracketing conflicts
pub open spec fn spec_opt_show_all() -> AppOption {
    AppOption { long_name: "show-all", short: Some('A'), has_arg: false, arg_default: None }
}

/// -E, --show-overlap          like -e, but bracket conflicts
pub open spec fn spec_opt_show_overlap() -> AppOption {
    AppOption { long_name: "show-overlap", short: Some('E'), has_arg: false, arg_default: None }
}

/// --strip-trailing-cr     strip trailing carriage return on input
pub open spec fn spec_opt_strip_trailing_cr() -> AppOption {
    AppOption { long_name: "strip-trailing-cr", short: None, has_arg: false, arg_default: None }
}

/// -a, --text                  treat all files as text
pub open spec fn spec_opt_text() -> AppOption {
    AppOption { long_name: "text", short: Some('a'), has_arg: false, arg_default: None }
}

/// -i                          append 'w' and 'q' commands to ed scripts
pub fn opt_append_wq_to_ed() -> (o: AppOption)
    ensures
        o == spec_opt_append_wq_to_ed(),
{
    AppOption { long_name: "append-wq-to-ed", short: Some('i'), has_arg: false, arg_default: None }
}

/// -X                          like -x, but bracket conflicts
pub fn opt_bracket_conflicts() -> (o: AppOption)
    ensures
        o == spec_opt_bracket_conflicts(),
{
    AppOption { long_name: "bracket-conflicts", short: Some('X'), has_arg: false, arg_default: None }
}

/// --diff-program=PROGRAM  use PROGRAM to compare files
pub fn opt_diff_program() -> (o: AppOption)
    ensures
        o == spec_opt_diff_program(),
{
    AppOption { long_name: "diff-program", short: None, has_arg: true, arg_default: None }
}

/// -3, --easy-only             like -e, but incorporate only non-overlapping changes
pub fn opt_easy_only() -> (o: AppOption)
    ensures
        o == spec_opt_easy_only(),
{
    AppOption { long_name: "easy-only", short: Some('3'), has_arg: false, arg_default: None }
}

/// -e, --ed                    output ed script incorporating changes
pub fn opt_ed() -> (o: AppOption)
    ensures
        o == spec_opt_ed(),
{
    AppOption { long_name: "ed", short: Some('e'), has_arg: false, arg_default: None }
}

/// -T, --initial-tab           make tabs line up by prepending a tab
pub fn opt_initial_tab() -> (o: AppOption)
    ensures
        o == spec_opt_initial_tab(),
{
    AppOption { long_name: "initial-tab", short: Some('T'), has_arg: false, arg_default: None }
}

/// -L, --label=LABEL           use LABEL instead of file name
pub fn opt_label() -> (o: AppOption)
    ensures
        o == spec_opt_label(),
{
    AppOption { long_name: "label", short: Some('L'), has_arg: true, arg_default: None }
}

/// -m, --merge                 output actual merged file, according to -A if no other options are given
pub fn opt_merge() -> (o: AppOption)
    ensures
        o == spec_opt_merge(),
{
    AppOption { long_name: "merge", short: Some('m'), has_arg: false, arg_default: None }
}

/// -x, --overlap-only          like -e, but incorporate only overlapping changes
pub fn opt_overlap_only() -> (o: AppOption)
    ensures
        o == spec_opt_overlap_only(),
{
    AppOption { long_name: "overlap-only", short: Some('x'), has_arg: false, arg_default: None }
}

/// -A, --show-all              output all changes, bracketing conflicts
pub fn opt_show_all() -> (o: AppOption)
    ensures
        o == spec_opt_show_all(),
{
    AppOption { long_name: "show-all", short: Some('A'), has_arg: false, arg_default: None }
}

/// -E, --show-overlap          like -e, but bracket conflicts
pub fn opt_show_overlap() -> (o: AppOption)
    ensures
        o == spec_opt_show_overlap(),
{
    AppOption { long_name: "show-overlap", short: Some('E'), has_arg: false, arg_default: None }
}

/// --strip-trailing-cr     strip trailing carriage return on input
pub fn opt_strip_trailing_cr() -> (o: AppOption)
    ensures
        o == spec_opt_strip_trailing_cr(),
{
    AppOption { long_name: "strip-trailing-cr", short: None, has_arg: false, arg_default: None }
}

/// -a, --text                  treat all files as text
pub fn opt_text() -> (o: AppOption)
    ensures
        o == spec_opt_text(),
{
    AppOption { long_name: "text", short: Some('a'), has_arg: false, arg_default: None }
}

/// The options of diff3, in the order of their long names.
pub open spec fn spec_app_options() -> Seq<AppOption> {
    seq![
        spec_opt_append_wq_to_ed(),
        spec_opt_bracket_conflicts(),
        spec_opt_diff_program(),
        spec_opt_easy_only(),
        spec_opt_ed(),
        spec_opt_help(),
        spec_opt_initial_tab(),
        spec_opt_label(),
        spec_opt_merge(),
        spec_opt_overlap_only(),
        spec_opt_show_all(),
        spec_opt_show_overlap(),
        spec_opt_strip_trailing_cr(),
        spec_opt_text(),
        spec_opt_version(),
    ]
}

/// The options of diff3; must contain the help and version options.
pub fn app_options() -> (v: Vec<AppOption>)
    ensures
        v@ == spec_app_options(),
{
    let mut v: Vec<AppOption> = Vec::new();
    v.push(opt_append_wq_to_ed());
    v.push(opt_bracket_conflicts());
    v.push(opt_diff_program());
    v.push(opt_easy_only());
    v.push(opt_ed());
    v.push(crate::params_gen::opt_help());
    v.push(opt_initial_tab());
    v.push(opt_label());
    v.push(opt_merge());
    v.push(opt_overlap_only());
    v.push(opt_show_all());
    v.push(opt_show_overlap());
    v.push(opt_strip_trailing_cr());
    v.push(opt_text());
    v.push(crate::params_gen::opt_version());
    assert(v@ =~= spec_app_options());
    v
}

/// Success return type for parsing of params.
///
/// Successful parsing will return ParamsDiff3, \
/// --help und --version will return an Info message, \
/// Error will be returned as [ParamsDiff3Error] in the function Result.
#[derive(Debug, Clone, PartialEq)]
pub enum ParamsDiff3Ok {
    Info(String),
    ParamsDiff3(ParamsDiff3),
}

/// Contains all parser errors and their text messages.
#[derive(Debug, PartialEq)]
pub enum ParamsDiff3Error {
    /// Bubbled up error
    ArgParserError(ParamsGenParseError),
    /// Having 3 operands or more
    /// (wrong operand)
    ExtraOperand(String),
}

/// A [`ParamsDiff3Error`] with its texts as sequences of characters.
pub enum Diff3ErrorView {
    ArgParserError(GenErrorView),
    ExtraOperand(Seq<char>),
}

impl View for ParamsDiff3Error {
    type V = Diff3ErrorView;

    open spec fn view(&self) -> Diff3ErrorView {
        match self {
            ParamsDiff3Error::ArgParserError(e) => Diff3ErrorView::ArgParserError(e@),
            ParamsDiff3Error::ExtraOperand(s) => Diff3ErrorView::ExtraOperand(s@),
        }
    }
}

/// The message of a diff3 parse error.
pub open spec fn diff3_error_text(e: Diff3ErrorView) -> Seq<char> {
    match e {
        Diff3ErrorView::ArgParserError(g) => gen_error_body(g, "diff3"@),
        Diff3ErrorView::ExtraOperand(opt) => "extra operand '"@ + opt + "'"@,
    }
}

impl ParamsDiff3Error {
    /// Wraps an error of the option parser.
    pub fn from(err: ParamsGenParseError) -> (r: Self)
        ensures
            r@ == Diff3ErrorView::ArgParserError(err@),
    {
        ParamsDiff3Error::ArgParserError(err)
    }

    /// The message of the error.
    pub fn message(&self) -> (r: String)
        ensures
            r@ == diff3_error_text(self@),
    {
        match self {
            ParamsDiff3Error::ArgParserError(e) => e.body("diff3"),
            ParamsDiff3Error::ExtraOperand(opt) => {
                let mut m = String::new();
                m.append("extra operand '");
                m.append(opt.as_str());
                m.append("'");
                assert(m@ =~= diff3_error_text(self@));
                m
            },
        }
    }
}

} // verus!
