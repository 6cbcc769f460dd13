//! This module contains the parser for sdiff arguments.
//!
//! All option definitions, output texts and the error handling are in
//! [super::params_sdiff_def].
use vstd::prelude::*;

use crate::executable::Executable;
use crate::params_gen::{
    args_wf, clone_opt_string, opt_text, parsed_views, spec_parse_params, texts, GenErrorView,
    ParamsGen, ParamsGenParseError, ParsedOption, ParsedOptionView, ParamsGenView,
};
use crate::sdiff::params_sdiff_def::{
    app_options, spec_app_options, SDiffParseError, SDiffParseErrorView, SDiffParseOk,
    SDiffParseOkView,
};
use crate::params_gen::lemma_decimal_digits;
use crate::text::{decimal, is_digit, parse_usize, same_text, spec_parse_usize, unsigned_digits};

verus! {

/// Holds the given command line arguments except "--version" and "--help".
#[derive(Debug, Clone, Eq, PartialEq)]
pub struct ParamsSdiff {
    /// Identifier
    pub util: Executable,
    pub from: String,
    pub to: String,
    /// --diff-program=PROGRAM   use PROGRAM to compare files
    pub diff_program: Option<String>,
    /// -t, --expand-tabs            expand tabs to spaces in output
    pub expand_tabs: bool,
    /// --help                   display this help and exit
    pub help: bool,
    /// -W, --ignore-all-space       ignore all white space
    pub ignore_all_space: bool,
    /// -B, --ignore-blank-lines     ignore changes whose lines are all blank
    pub ignore_blank_lines: bool,
    /// -i, --ignore-case            consider upper- and lower-case to be the same
    pub ignore_case: bool,
    /// -I, --ignore-matching-lines=REGEXP  ignore changes all whose lines match REGEXP
    pub ignore_matching_lines: Option<String>,
    /// -b, --ignore-space-change    ignore changes in the amount of white space
    pub ignore_space_change: bool,
    /// -E, --ignore-tab-expansion   ignore changes due to tab expansion
    pub ignore_tab_expansion: bool,
    /// -Z, --ignore-trailing-space  ignore white space at line end
    pub ignore_trailing_space: bool,
    /// -l, --left-column            output only the left column of common lines
    pub left_column: bool,
    /// -d, --minimal                try hard to find a smaller set of changes
    pub minimal: bool,
    /// -o, --output=FILE            operate interactively, sending output to FILE
    pub output: Option<String>,
    /// -H, --speed-large-files      assume large files, many scattered small changes
    pub speed_large_files: bool,
    /// --strip-trailing-cr      strip trailing carriage return on input
    pub strip_trailing_cr: bool,
    /// -s, --suppress-common-lines  do not output common lines
    pub suppress_common_lines: bool,
    /// --tabsize=NUM            tab stops at every NUM (default 8) print columns
    pub tabsize: Option<usize>,
    /// -a, --text                   treat all files as text
    pub text: bool,
    /// -v, --version                output version information and exit
    pub version: bool,
    /// -w, --width=NUM              output at most NUM (default 130) print columns
    pub width: Option<usize>,
}

/// A [`ParamsSdiff`] with its texts as sequences of characters.
pub struct SdiffView {
    pub util: Executable,
    pub from: Seq<char>,
    pub to: Seq<char>,
    pub diff_program: Option<Seq<char>>,
    pub expand_tabs: bool,
    pub help: bool,
    pub ignore_all_space: bool,
    pub ignore_blank_lines: bool,
    pub ignore_case: bool,
    pub ignore_matching_lines: Option<Seq<char>>,
    pub ignore_space_change: bool,
    pub ignore_tab_expansion: bool,
    pub ignore_trailing_space: bool,
    pub left_column: bool,
    pub minimal: bool,
    pub output: Option<Seq<char>>,
    pub speed_large_files: bool,
    pub strip_trailing_cr: bool,
    pub suppress_common_lines: bool,
    pub tabsize: Option<usize>,
    pub text: bool,
    pub version: bool,
    pub width: Option<usize>,
}

impl View for ParamsSdiff {
    type V = SdiffView;

    open spec fn view(&self) -> SdiffView {
        SdiffView {
            util: self.util,
            from: self.from@,
            to: self.to@,
            diff_program: opt_text(self.diff_program),
            expand_tabs: self.expand_tabs,
            help: self.help,
            ignore_all_space: self.ignore_all_space,
            ignore_blank_lines: self.ignore_blank_lines,
            ignore_case: self.ignore_case,
            ignore_matching_lines: opt_text(self.ignore_matching_lines),
            ignore_space_change: self.ignore_space_change,
            ignore_tab_expansion: self.ignore_tab_expansion,
            ignore_trailing_space: self.ignore_trailing_space,
            left_column: self.left_column,
            minimal: self.minimal,
            output: opt_text(self.output),
            speed_large_files: self.speed_large_files,
            strip_trailing_cr: self.strip_trailing_cr,
            suppress_common_lines: self.suppress_common_lines,
            tabsize: self.tabsize,
            text: self.text,
            version: self.version,
            width: self.width,
        }
    }
}

/// The parameters before any option or operand was read.
pub open spec fn default_sdiff_view() -> SdiffView {
    SdiffView {
        util: Executable::SDiff,
        from: Seq::empty(),
        to: Seq::empty(),
        diff_program: None,
        expand_tabs: false,
        help: false,
        ignore_all_space: false,
        ignore_blank_lines: false,
        ignore_case: false,
        ignore_matching_lines: None,
        ignore_space_change: false,
        ignore_tab_expansion: false,
        ignore_trailing_space: false,
        left_column: false,
        minimal: false,
        output: None,
        speed_large_files: false,
        strip_trailing_cr: false,
        suppress_common_lines: false,
        tabsize: None,
        text: false,
        version: false,
        width: None,
    }
}

impl Default for ParamsSdiff {
    fn default() -> (r: Self)
        ensures
            r@ == default_sdiff_view(),
    {
        ParamsSdiff {
            util: Executable::SDiff,
            from: String::new(),
            to: String::new(),
            diff_program: None,
            expand_tabs: false,
            help: false,
            ignore_all_space: false,
            ignore_blank_lines: false,
            ignore_case: false,
            ignore_matching_lines: None,
            ignore_space_change: false,
            ignore_tab_expansion: false,
            ignore_trailing_space: false,
            left_column: false,
            minimal: false,
            output: None,
            speed_large_files: false,
            strip_trailing_cr: false,
            suppress_common_lines: false,
            tabsize: None,
            text: false,
            version: false,
            width: None,
        }
    }
}

/// The view of a parse result.
pub open spec fn sdiff_result_view(r: Result<SDiffParseOk, SDiffParseError>) -> Result<
    SDiffParseOkView,
    SDiffParseErrorView,
> {
    match r {
        Ok(o) => Ok(o@),
        Err(e) => Err(e@),
    }
}

/// The state after some of the options were applied: go on with the
/// parameters, or stop with a result.
pub enum SdiffStep {
    Next(SdiffView),
    Stop(Result<SDiffParseOkView, SDiffParseErrorView>),
}

/// The number that the argument of `o` gives, read as `str::parse::<usize>`
/// reads it; a missing argument reads as the empty text.
pub open spec fn option_number(o: ParsedOptionView) -> Option<usize> {
    spec_parse_usize(
        match o.arg_for_option {
            Some(a) => a,
            None => Seq::empty(),
        },
    )
}

/// The options of sdiff, identified by their long names.
#[derive(Clone, Copy, PartialEq, Eq, Structural)]
pub enum SdiffOption {
    DiffProgram,
    ExpandTabs,
    Help,
    IgnoreAllSpace,
    IgnoreBlankLines,
    IgnoreCase,
    IgnoreMatchingLines,
    IgnoreSpaceChange,
    IgnoreTabExpansion,
    IgnoreTrailingSpace,
    LeftColumn,
    Minimal,
    Output,
    SpeedLargeFiles,
    StripTrailingCr,
    SuppressCommonLines,
    Tabsize,
    Text,
    Version,
    Width,
    /// A name that is none of them.
    Other,
}

/// The option whose long name is `name`.
pub open spec fn option_of_name(name: Seq<char>) -> SdiffOption {
    if name == "diff-program"@ {
        SdiffOption::DiffProgram
    } else if name == "expand-tabs"@ {
        SdiffOption::ExpandTabs
    } else if name == "help"@ {
        SdiffOption::Help
    } else if name == "ignore-all-space"@ {
        SdiffOption::IgnoreAllSpace
    } else if name == "ignore-blank-lines"@ {
        SdiffOption::IgnoreBlankLines
    } else if name == "ignore-case"@ {
        SdiffOption::IgnoreCase
    } else if name == "ignore-matching-lines"@ {
        SdiffOption::IgnoreMatchingLines
    } else if name == "ignore-space-change"@ {
        SdiffOption::IgnoreSpaceChange
    } else if name == "ignore-tab-expansion"@ {
        SdiffOption::IgnoreTabExpansion
    } else if name == "ignore-trailing-space"@ {
        SdiffOption::IgnoreTrailingSpace
    } else if name == "left-column"@ {
        SdiffOption::LeftColumn
    } else if name == "minimal"@ {
        SdiffOption::Minimal
    } else if name == "output"@ {
        SdiffOption::Output
    } else if name == "speed-large-files"@ {
        SdiffOption::SpeedLargeFiles
    } else if name == "strip-trailing-cr"@ {
        SdiffOption::StripTrailingCr
    } else if name == "suppress-common-lines"@ {
        SdiffOption::SuppressCommonLines
    } else if name == "tabsize"@ {
        SdiffOption::Tabsize
    } else if name == "text"@ {
        SdiffOption::Text
    } else if name == "version"@ {
        SdiffOption::Version
    } else if name == "width"@ {
        SdiffOption::Width
    } else {
        SdiffOption::Other
    }
}

/// The parameters `p` with the switch `which` turned on, or with the text
/// of the option `o` stored where `which` takes one; any other option
/// leaves them as they are.
#[verifier::opaque]
pub open spec fn spec_switched(p: SdiffView, o: ParsedOptionView, which: SdiffOption) -> SdiffView {
    SdiffView {
        util: p.util,
        from: p.from,
        to: p.to,
        diff_program: if which == SdiffOption::DiffProgram {
            o.arg_for_option
        } else {
            p.diff_program
        },
        expand_tabs: p.expand_tabs || which == SdiffOption::ExpandTabs,
        help: p.help,
        ignore_all_space: p.ignore_all_space || which == SdiffOption::IgnoreAllSpace,
        ignore_blank_lines: p.ignore_blank_lines || which == SdiffOption::IgnoreBlankLines,
        ignore_case: p.ignore_case || which == SdiffOption::IgnoreCase,
        ignore_matching_lines: if which == SdiffOption::IgnoreMatchingLines {
            o.arg_for_option
        } else {
            p.ignore_matching_lines
        },
        ignore_space_change: p.ignore_space_change || which == SdiffOption::IgnoreSpaceChange,
        ignore_tab_expansion: p.ignore_tab_expansion || which == SdiffOption::IgnoreTabExpansion,
        ignore_trailing_space: p.ignore_trailing_space || which == SdiffOption::IgnoreTrailingSpace,
        left_column: p.left_column || which == SdiffOption::LeftColumn,
        minimal: p.minimal || which == SdiffOption::Minimal,
        output: if which == SdiffOption::Output {
            o.arg_for_option
        } else {
            p.output
        },
        speed_large_files: p.speed_large_files || which == SdiffOption::SpeedLargeFiles,
        strip_trailing_cr: p.strip_trailing_cr || which == SdiffOption::StripTrailingCr,
        suppress_common_lines: p.suppress_common_lines || which == SdiffOption::SuppressCommonLines,
        tabsize: p.tabsize,
        text: p.text || which == SdiffOption::Text,
        version: p.version,
        width: p.width,
    }
}

/// Applies the option `o`, which is `which`, to the parameters `p`: a switch
/// is turned on, a text or number is stored, `--help` and `--version` stop
/// the parse.
pub open spec fn spec_apply_option(p: SdiffView, o: ParsedOptionView, which: SdiffOption) -> SdiffStep {
    if which is Help {
        SdiffStep::Stop(Ok(SDiffParseOkView::Help))
    } else if which is Version {
        SdiffStep::Stop(Ok(SDiffParseOkView::Version))
    } else if which is Tabsize || which is Width {
        match option_number(o) {
            Some(n) => SdiffStep::Next(
                if which is Tabsize {
                    SdiffView { tabsize: Some(n), ..p }
                } else {
                    SdiffView { width: Some(n), ..p }
                },
            ),
            None => SdiffStep::Stop(Err(SDiffParseErrorView::InvalidNumber(o))),
        }
    } else {
        SdiffStep::Next(spec_switched(p, o, which))
    }
}

/// A switch or a text option leads on with the parameters it changed.
proof fn lemma_switch_step(p: SdiffView, o: ParsedOptionView, which: SdiffOption)
    requires
        !(which is Help || which is Version || which is Tabsize || which is Width),
    ensures
        spec_apply_option(p, o, which) === SdiffStep::Next(spec_switched(p, o, which)),
{
}

/// A number option leads on with its number stored, or stops where its
/// argument is no number.
proof fn lemma_number_step(p: SdiffView, o: ParsedOptionView, which: SdiffOption)
    requires
        which is Tabsize || which is Width,
    ensures
        spec_apply_option(p, o, which) === match option_number(o) {
            Some(n) => SdiffStep::Next(
                if which is Tabsize {
                    SdiffView { tabsize: Some(n), ..p }
                } else {
                    SdiffView { width: Some(n), ..p }
                },
            ),
            None => SdiffStep::Stop(Err(SDiffParseErrorView::InvalidNumber(o))),
        },
{
}

/// Applies the option `o` to the parameters `p`.
pub open spec fn spec_set_option(p: SdiffView, o: ParsedOptionView) -> SdiffStep {
    spec_apply_option(p, o, option_of_name(o.app_option.long_name@))
}

/// Applies the options `opts[k..]`, in order, to `p`.
pub open spec fn spec_apply_options(opts: Seq<ParsedOptionView>, k: int, p: SdiffView) -> SdiffStep
    decreases opts.len() - k,
{
    if k < 0 || k >= opts.len() {
        SdiffStep::Next(p)
    } else {
        match spec_set_option(p, opts[k]) {
            SdiffStep::Next(q) => spec_apply_options(opts, k + 1, q),
            SdiffStep::Stop(r) => SdiffStep::Stop(r),
        }
    }
}

/// The files from the operands: one operand compares with standard input.
pub open spec fn spec_set_operands(p: SdiffView, ops: Seq<Seq<char>>) -> Result<
    SDiffParseOkView,
    SDiffParseErrorView,
> {
    if ops.len() == 0 {
        Err(SDiffParseErrorView::ParserError(GenErrorView::NoOperand))
    } else if ops.len() == 1 {
        Ok(SDiffParseOkView::ParamsSdiff(SdiffView { from: ops[0], to: "-"@, ..p }))
    } else if ops.len() == 2 {
        Ok(SDiffParseOkView::ParamsSdiff(SdiffView { from: ops[0], to: ops[1], ..p }))
    } else {
        Err(SDiffParseErrorView::ExtraOperand(ops[2]))
    }
}

/// The parameters that the options and operands the parser found give.
pub open spec fn spec_try_from(g: ParamsGenView) -> Result<SDiffParseOkView, SDiffParseErrorView> {
    match spec_apply_options(g.options_parsed, 0, default_sdiff_view()) {
        SdiffStep::Stop(r) => r,
        SdiffStep::Next(p) => spec_set_operands(p, g.operands),
    }
}

/// What [`ParamsSdiff::parse_params`] gives for a command line.
pub open spec fn spec_sdiff_from_args(args: Seq<Seq<char>>) -> Result<
    SDiffParseOkView,
    SDiffParseErrorView,
> {
    match spec_parse_params(spec_app_options(), args) {
        Ok(g) => spec_try_from(g),
        Err(e) => Err(SDiffParseErrorView::ParserError(e)),
    }
}

/// The number of the argument of `o`.
fn option_value(o: &ParsedOption) -> (r: Option<usize>)
    ensures
        r == option_number(o@),
{
    match &o.arg_for_option {
        Some(a) => parse_usize(a.as_str()),
        None => {
            let r = parse_usize("");
            proof {
                reveal_strlit("");
            }
            r
        },
    }
}

/// A switch that is on, or turned on because `which` is `switch`.
fn turned_on(on: bool, which: SdiffOption, switch: SdiffOption) -> (r: bool)
    ensures
        r == (on || which == switch),
{
    on || which == switch
}

/// The text of the option `o` where `which` is `target`, else `current`.
fn text_for(current: Option<String>, o: &ParsedOption, which: SdiffOption, target: SdiffOption) -> (r:
    Option<String>)
    ensures
        opt_text(r) == if which == target {
            o@.arg_for_option
        } else {
            opt_text(current)
        },
{
    if which == target {
        clone_opt_string(&o.arg_for_option)
    } else {
        current
    }
}

/// The option whose long name is `name`.
fn option_named(name: &str) -> (r: SdiffOption)
    ensures
        r == option_of_name(name@),
{
    if same_text(name, "diff-program") {
        SdiffOption::DiffProgram
    } else if same_text(name, "expand-tabs") {
        SdiffOption::ExpandTabs
    } else if same_text(name, "help") {
        SdiffOption::Help
    } else if same_text(name, "ignore-all-space") {
        SdiffOption::IgnoreAllSpace
    } else if same_text(name, "ignore-blank-lines") {
        SdiffOption::IgnoreBlankLines
    } else if same_text(name, "ignore-case") {
        SdiffOption::IgnoreCase
    } else if same_text(name, "ignore-matching-lines") {
        SdiffOption::IgnoreMatchingLines
    } else if same_text(name, "ignore-space-change") {
        SdiffOption::IgnoreSpaceChange
    } else if same_text(name, "ignore-tab-expansion") {
        SdiffOption::IgnoreTabExpansion
    } else if same_text(name, "ignore-trailing-space") {
        SdiffOption::IgnoreTrailingSpace
    } else if same_text(name, "left-column") {
        SdiffOption::LeftColumn
    } else if same_text(name, "minimal") {
        SdiffOption::Minimal
    } else if same_text(name, "output") {
        SdiffOption::Output
    } else if same_text(name, "speed-large-files") {
        SdiffOption::SpeedLargeFiles
    } else if same_text(name, "strip-trailing-cr") {
        SdiffOption::StripTrailingCr
    } else if same_text(name, "suppress-common-lines") {
        SdiffOption::SuppressCommonLines
    } else if same_text(name, "tabsize") {
        SdiffOption::Tabsize
    } else if same_text(name, "text") {
        SdiffOption::Text
    } else if same_text(name, "version") {
        SdiffOption::Version
    } else if same_text(name, "width") {
        SdiffOption::Width
    } else {
        SdiffOption::Other
    }
}

impl ParamsSdiff {
    /// Parses the command line `args`, whose first element is the name of
    /// the executable.
    pub fn parse_params(args: &Vec<String>) -> (r: Result<SDiffParseOk, SDiffParseError>)
        requires
            args_wf(texts(args@)),
        ensures
            sdiff_result_view(r) == spec_sdiff_from_args(texts(args@)),
    {
        let options = app_options();
        let parser = match ParamsGen::parse_params(options.as_slice(), args) {
            Ok(p) => p,
            Err(e) => {
                return Err(SDiffParseError::ParserError(e));
            },
        };
        Self::try_from(&parser)
    }

    /// The parameters that the options and operands the parser found give.
    fn try_from(parser: &ParamsGen) -> (r: Result<SDiffParseOk, SDiffParseError>)
        ensures
            sdiff_result_view(r) == spec_try_from(parser@),
    {
        let mut params = Self::default();
        let ghost pv = parsed_views(parser.options_parsed@);
        let opts = &parser.options_parsed;
        let mut k: usize = 0;
        while k < opts.len()
            invariant
                k <= opts@.len(),
                pv == parsed_views(opts@),
                opts == &parser.options_parsed,
                spec_apply_options(pv, 0, default_sdiff_view()) == spec_apply_options(
                    pv,
                    k as int,
                    params@,
                ),
            decreases opts.len() - k,
        {
            assert(pv[k as int] == opts@[k as int]@);
            let which = option_named(opts[k].app_option.long_name);
            params = match params.with_option(&opts[k], which) {
                Ok(p) => p,
                Err(r) => {
                    return r;
                },
            };
            k = k + 1;
        }
        params.set_operands(&parser.operands)
    }

    /// The parameters with the switch `which` turned on, or with the text of
    /// `o` stored where `which` takes one.
    fn switched(self, o: &ParsedOption, which: SdiffOption) -> (r: Self)
        requires
            !(which is Help || which is Version || which is Tabsize || which is Width),
        ensures
            r@ === spec_switched(self@, o@, which),
    {
        reveal(spec_switched);
        ParamsSdiff {
            diff_program: text_for(self.diff_program, o, which, SdiffOption::DiffProgram),
            expand_tabs: turned_on(self.expand_tabs, which, SdiffOption::ExpandTabs),
            ignore_all_space: turned_on(self.ignore_all_space, which, SdiffOption::IgnoreAllSpace),
            ignore_blank_lines: turned_on(self.ignore_blank_lines, which, SdiffOption::IgnoreBlankLines),
            ignore_case: turned_on(self.ignore_case, which, SdiffOption::IgnoreCase),
            ignore_matching_lines: text_for(self.ignore_matching_lines, o, which, SdiffOption::IgnoreMatchingLines),
            ignore_space_change: turned_on(self.ignore_space_change, which, SdiffOption::IgnoreSpaceChange),
            ignore_tab_expansion: turned_on(self.ignore_tab_expansion, which, SdiffOption::IgnoreTabExpansion),
            ignore_trailing_space: turned_on(self.ignore_trailing_space, which, SdiffOption::IgnoreTrailingSpace),
            left_column: turned_on(self.left_column, which, SdiffOption::LeftColumn),
            minimal: turned_on(self.minimal, which, SdiffOption::Minimal),
            output: text_for(self.output, o, which, SdiffOption::Output),
            speed_large_files: turned_on(self.speed_large_files, which, SdiffOption::SpeedLargeFiles),
            strip_trailing_cr: turned_on(self.strip_trailing_cr, which, SdiffOption::StripTrailingCr),
            suppress_common_lines: turned_on(self.suppress_common_lines, which, SdiffOption::SuppressCommonLines),
            text: turned_on(self.text, which, SdiffOption::Text),
            ..self
        }
    }

    /// The parameters with the option `o`, which is `which`, applied: `Ok`
    /// to go on, `Err` with the result where the parse stops.
    fn with_option(self, o: &ParsedOption, which: SdiffOption) -> (r: Result<
        Self,
        Result<SDiffParseOk, SDiffParseError>,
    >)
        ensures
            match spec_apply_option(self@, o@, which) {
                SdiffStep::Next(p) => r matches Ok(q) && q@ === p,
                SdiffStep::Stop(res) => r matches Err(x) && sdiff_result_view(x) == res,
            },
    {
        match which {
            SdiffOption::Help => Err(Ok(SDiffParseOk::Help)),
            SdiffOption::Version => Err(Ok(SDiffParseOk::Version)),
            SdiffOption::Tabsize => {
                proof {
                    lemma_number_step(self@, o@, which);
                }
                match self.with_tabsize(o) {
                    Ok(p) => Ok(p),
                    Err(e) => Err(Err(e)),
                }
            },
            SdiffOption::Width => {
                proof {
                    lemma_number_step(self@, o@, which);
                }
                match self.with_width(o) {
                    Ok(p) => Ok(p),
                    Err(e) => Err(Err(e)),
                }
            },
            _ => {
                proof {
                    lemma_switch_step(self@, o@, which);
                }
                Ok(self.switched(o, which))
            },
        }
    }

    /// The parameters with the number of `o` as the tab size.
    fn with_tabsize(self, o: &ParsedOption) -> (r: Result<Self, SDiffParseError>)
        ensures
            match option_number(o@) {
                Some(n) => r matches Ok(q) && q@ === SdiffView { tabsize: Some(n), ..self@ },
                None => r matches Err(e) && e@ == SDiffParseErrorView::InvalidNumber(o@),
            },
    {
        match option_value(o) {
            Some(n) => Ok(ParamsSdiff { tabsize: Some(n), ..self }),
            None => Err(SDiffParseError::InvalidNumber(o.clone())),
        }
    }

    /// The parameters with the number of `o` as the width.
    fn with_width(self, o: &ParsedOption) -> (r: Result<Self, SDiffParseError>)
        ensures
            match option_number(o@) {
                Some(n) => r matches Ok(q) && q@ === SdiffView { width: Some(n), ..self@ },
                None => r matches Err(e) && e@ == SDiffParseErrorView::InvalidNumber(o@),
            },
    {
        match option_value(o) {
            Some(n) => Ok(ParamsSdiff { width: Some(n), ..self }),
            None => Err(SDiffParseError::InvalidNumber(o.clone())),
        }
    }

    /// The parameters with the files `from` and `to`.
    fn with_files(self, from: String, to: String) -> (r: Self)
        ensures
            r@ == (SdiffView { from: from@, to: to@, ..self@ }),
    {
        ParamsSdiff { from, to, ..self }
    }

    /// Sets the files from the operands.
    fn set_operands(self, operands: &Vec<String>) -> (r: Result<SDiffParseOk, SDiffParseError>)
        ensures
            sdiff_result_view(r) == spec_set_operands(self@, texts(operands@)),
    {
        let ghost ops = texts(operands@);
        let n = operands.len();
        if n == 0 {
            return Err(SDiffParseError::ParserError(ParamsGenParseError::NoOperand));
        }
        assert(ops[0] == operands@[0]@);
        if n == 1 {
            let params = self.with_files(operands[0].clone(), String::from_str("-"));
            return Ok(SDiffParseOk::ParamsSdiff(params));
        }
        assert(ops[1] == operands@[1]@);
        if n == 2 {
            let params = self.with_files(operands[0].clone(), operands[1].clone());
            return Ok(SDiffParseOk::ParamsSdiff(params));
        }
        assert(ops[2] == operands@[2]@);
        Err(SDiffParseError::ExtraOperand(operands[2].clone()))
    }

    /// Sets the tab size from the argument of `parsed_option` and returns it.
    pub fn set_tabsize(&mut self, parsed_option: &ParsedOption) -> (r: Result<usize, SDiffParseError>)
        ensures
            match option_number(parsed_option@) {
                Some(n) => r == Ok::<usize, SDiffParseError>(n) && final(self)@ == SdiffView {
                    tabsize: Some(n),
                    ..old(self)@
                },
                None => r matches Err(e) && e@ == SDiffParseErrorView::InvalidNumber(
                    parsed_option@,
                ) && final(self)@ == old(self)@,
            },
    {
        match option_value(parsed_option) {
            Some(t) => {
                self.tabsize = Some(t);
                Ok(t)
            },
            None => Err(SDiffParseError::InvalidNumber(parsed_option.clone())),
        }
    }

    /// Sets the output width from the argument of `parsed_option` and returns it.
    pub fn set_width(&mut self, parsed_option: &ParsedOption) -> (r: Result<usize, SDiffParseError>)
        ensures
            match option_number(parsed_option@) {
                Some(n) => r == Ok::<usize, SDiffParseError>(n) && final(self)@ == SdiffView {
                    width: Some(n),
                    ..old(self)@
                },
                None => r matches Err(e) && e@ == SDiffParseErrorView::InvalidNumber(
                    parsed_option@,
                ) && final(self)@ == old(self)@,
            },
    {
        match option_value(parsed_option) {
            Some(w) => {
                self.width = Some(w);
                Ok(w)
            },
            None => Err(SDiffParseError::InvalidNumber(parsed_option.clone())),
        }
    }
}

/// A number written in decimal reads back as itself for `--tabsize` and
/// `--width`, and a negative value, or any text that starts with a dash,
/// reads as no number.
pub proof fn lemma_option_number(o: ParsedOptionView, n: usize)
    ensures
        o.arg_for_option == Some(decimal(n as nat)) ==> option_number(o) == Some(n),
        o.arg_for_option matches Some(a) && a.len() > 0 && a[0] == '-' ==> option_number(o) is None,
{
    lemma_decimal_digits(n as nat);
    let d = decimal(n as nat);
    assert(is_digit(d[0]));
    assert(unsigned_digits(d) == d);
    if o.arg_for_option is Some {
        let a = o.arg_for_option->0;
        if a.len() > 0 && a[0] == '-' {
            assert(unsigned_digits(a) == a);
            assert(!is_digit(a[0]));
        }
    }
}

/// What the option with the long name `name` and the argument `arg` does
/// to the parameters `p`: a switch turns on its own field, a text option
/// stores its argument in its own field, and every other field stays.
pub open spec fn sdiff_setting(p: SdiffView, name: Seq<char>, arg: Option<Seq<char>>) -> SdiffView {
    if name == "expand-tabs"@ {
        SdiffView { expand_tabs: true, ..p }
    } else if name == "ignore-all-space"@ {
        SdiffView { ignore_all_space: true, ..p }
    } else if name == "ignore-blank-lines"@ {
        SdiffView { ignore_blank_lines: true, ..p }
    } else if name == "ignore-case"@ {
        SdiffView { ignore_case: true, ..p }
    } else if name == "ignore-space-change"@ {
        SdiffView { ignore_space_change: true, ..p }
    } else if name == "ignore-tab-expansion"@ {
        SdiffView { ignore_tab_expansion: true, ..p }
    } else if name == "ignore-trailing-space"@ {
        SdiffView { ignore_trailing_space: true, ..p }
    } else if name == "left-column"@ {
        SdiffView { left_column: true, ..p }
    } else if name == "minimal"@ {
        SdiffView { minimal: true, ..p }
    } else if name == "speed-large-files"@ {
        SdiffView { speed_large_files: true, ..p }
    } else if name == "strip-trailing-cr"@ {
        SdiffView { strip_trailing_cr: true, ..p }
    } else if name == "suppress-common-lines"@ {
        SdiffView { suppress_common_lines: true, ..p }
    } else if name == "text"@ {
        SdiffView { text: true, ..p }
    } else if name == "diff-program"@ {
        SdiffView { diff_program: arg, ..p }
    } else if name == "ignore-matching-lines"@ {
        SdiffView { ignore_matching_lines: arg, ..p }
    } else if name == "output"@ {
        SdiffView { output: arg, ..p }
    } else {
        p
    }
}

/// Is `name` the long name of a switch or a text option of sdiff?
pub open spec fn sdiff_setting_name(name: Seq<char>) -> bool {
    name == "expand-tabs"@ || name == "ignore-all-space"@ || name == "ignore-blank-lines"@ || name == "ignore-case"@ || name == "ignore-space-change"@ || name == "ignore-tab-expansion"@ || name == "ignore-trailing-space"@ || name == "left-column"@ || name == "minimal"@ || name == "speed-large-files"@ || name == "strip-trailing-cr"@ || name == "suppress-common-lines"@ || name == "text"@ || name == "diff-program"@ || name == "ignore-matching-lines"@ || name == "output"@
}

proof fn lemma_sdiff_sets_expand_tabs(p: SdiffView, o: ParsedOptionView)
    requires
        o.app_option.long_name@ == "expand-tabs"@,
    ensures
        spec_apply_option(p, o, option_of_name(o.app_option.long_name@)) == SdiffStep::Next(
            sdiff_setting(p, o.app_option.long_name@, o.arg_for_option),
        ),
{
    reveal_strlit("diff-program");
    assert("diff-program"@.len() == 12);
    reveal_strlit("expand-tabs");
    assert("expand-tabs"@.len() == 11);
    reveal(spec_switched);
    assert(option_of_name(o.app_option.long_name@) == SdiffOption::ExpandTabs);
}

proof fn lemma_sdiff_sets_ignore_all_space(p: SdiffView, o: ParsedOptionView)
    requires
        o.app_option.long_name@ == "ignore-all-space"@,
    ensures
        spec_apply_option(p, o, option_of_name(o.app_option.long_name@)) == SdiffStep::Next(
            sdiff_setting(p, o.app_option.long_name@, o.arg_for_option),
        ),
{
    reveal_strlit("diff-program");
    assert("diff-program"@.len() == 12);
    reveal_strlit("expand-tabs");
    assert("expand-tabs"@.len() == 11);
    reveal_strlit("help");
    assert("help"@.len() == 4);
    reveal_strlit("ignore-all-space");
    assert("ignore-all-space"@.len() == 16);
    reveal(spec_switched);
    assert(option_of_name(o.app_option.long_name@) == SdiffOption::IgnoreAllSpace);
}

proof fn lemma_sdiff_sets_ignore_blank_lines(p: SdiffView, o: ParsedOptionView)
    requires
        o.app_option.long_name@ == "ignore-blank-lines"@,
    ensures
        spec_apply_option(p, o, option_of_name(o.app_option.long_name@)) == SdiffStep::Next(
            sdiff_setting(p, o.app_option.long_name@, o.arg_for_option),
        ),
{
    reveal_strlit("diff-program");
    assert("diff-program"@.len() == 12);
    reveal_strlit("expand-tabs");
    assert("expand-tabs"@.len() == 11);
    reveal_strlit("help");
    assert("help"@.len() == 4);
    reveal_strlit("ignore-all-space");
    assert("ignore-all-space"@.len() == 16);
    reveal_strlit("ignore-blank-lines");
    assert("ignore-blank-lines"@.len() == 18);
    reveal(spec_switched);
    assert(option_of_name(o.app_option.long_name@) == SdiffOption::IgnoreBlankLines);
}

proof fn lemma_sdiff_sets_ignore_case(p: SdiffView, o: ParsedOptionView)
    requires
        o.app_option.long_name@ == "ignore-case"@,
    ensures
        spec_apply_option(p, o, option_of_name(o.app_option.long_name@)) == SdiffStep::Next(
            sdiff_setting(p, o.app_option.long_name@, o.arg_for_option),
        ),
{
    reveal_strlit("diff-program");
    assert("diff-program"@.len() == 12);
    reveal_strlit("expand-tabs");
    assert("expand-tabs"@.len() == 11);
    reveal_strlit("help");
    assert("help"@.len() == 4);
    reveal_strlit("ignore-all-space");
    assert("ignore-all-space"@.len() == 16);
    reveal_strlit("ignore-blank-lines");
    assert("ignore-blank-lines"@.len() == 18);
    reveal_strlit("ignore-case");
    assert("ignore-case"@.len() == 11);
    assert("expand-tabs"@[0] == 'e' && "ignore-case"@[0] == 'i');
    reveal(spec_switched);
    assert(option_of_name(o.app_option.long_name@) == SdiffOption::IgnoreCase);
}

proof fn lemma_sdiff_sets_ignore_space_change(p: SdiffView, o: ParsedOptionView)
    requires
        o.app_option.long_name@ == "ignore-space-change"@,
    ensures
        spec_apply_option(p, o, option_of_name(o.app_option.long_name@)) == SdiffStep::Next(
            sdiff_setting(p, o.app_option.long_name@, o.arg_for_option),
        ),
{
    reveal_strlit("diff-program");
    assert("diff-program"@.len() == 12);
    reveal_strlit("expand-tabs");
    assert("expand-tabs"@.len() == 11);
    reveal_strlit("help");
    assert("help"@.len() == 4);
    reveal_strlit("ignore-all-space");
    assert("ignore-all-space"@.len() == 16);
    reveal_strlit("ignore-blank-lines");
    assert("ignore-blank-lines"@.len() == 18);
    reveal_strlit("ignore-case");
    assert("ignore-case"@.len() == 11);
    reveal_strlit("ignore-matching-lines");
    assert("ignore-matching-lines"@.len() == 21);
    reveal_strlit("ignore-space-change");
    assert("ignore-space-change"@.len() == 19);
    reveal(spec_switched);
    assert(option_of_name(o.app_option.long_name@) == SdiffOption::IgnoreSpaceChange);
}

proof fn lemma_sdiff_sets_ignore_tab_expansion(p: SdiffView, o: ParsedOptionView)
    requires
        o.app_option.long_name@ == "ignore-tab-expansion"@,
    ensures
        spec_apply_option(p, o, option_of_name(o.app_option.long_name@)) == SdiffStep::Next(
            sdiff_setting(p, o.app_option.long_name@, o.arg_for_option),
        ),
{
    reveal_strlit("diff-program");
    assert("diff-program"@.len() == 12);
    reveal_strlit("expand-tabs");
    assert("expand-tabs"@.len() == 11);
    reveal_strlit("help");
    assert("help"@.len() == 4);
    reveal_strlit("ignore-all-space");
    assert("ignore-all-space"@.len() == 16);
    reveal_strlit("ignore-blank-lines");
    assert("ignore-blank-lines"@.len() == 18);
    reveal_strlit("ignore-case");
    assert("ignore-case"@.len() == 11);
    reveal_strlit("ignore-matching-lines");
    assert("ignore-matching-lines"@.len() == 21);
    reveal_strlit("ignore-space-change");
    assert("ignore-space-change"@.len() == 19);
    reveal_strlit("ignore-tab-expansion");
    assert("ignore-tab-expansion"@.len() == 20);
    reveal(spec_switched);
    assert(option_of_name(o.app_option.long_name@) == SdiffOption::IgnoreTabExpansion);
}

proof fn lemma_sdiff_sets_ignore_trailing_space(p: SdiffView, o: ParsedOptionView)
    requires
        o.app_option.long_name@ == "ignore-trailing-space"@,
    ensures
        spec_apply_option(p, o, option_of_name(o.app_option.long_name@)) == SdiffStep::Next(
            sdiff_setting(p, o.app_option.long_name@, o.arg_for_option),
        ),
{
    reveal_strlit("diff-program");
    assert("diff-program"@.len() == 12);
    reveal_strlit("expand-tabs");
    assert("expand-tabs"@.len() == 11);
    reveal_strlit("help");
    assert("help"@.len() == 4);
    reveal_strlit("ignore-all-space");
    assert("ignore-all-space"@.len() == 16);
    reveal_strlit("ignore-blank-lines");
    assert("ignore-blank-lines"@.len() == 18);
    reveal_strlit("ignore-case");
    assert("ignore-case"@.len() == 11);
    reveal_strlit("ignore-matching-lines");
    assert("ignore-matching-lines"@.len() == 21);
    reveal_strlit("ignore-space-change");
    assert("ignore-space-change"@.len() == 19);
    reveal_strlit("ignore-tab-expansion");
    assert("ignore-tab-expansion"@.len() == 20);
    reveal_strlit("ignore-trailing-space");
    assert("ignore-trailing-space"@.len() == 21);
    assert("ignore-matching-lines"@[7] == 'm' && "ignore-trailing-space"@[7] == 't');
    reveal(spec_switched);
    assert(option_of_name(o.app_option.long_name@) == SdiffOption::IgnoreTrailingSpace);
}

proof fn lemma_sdiff_sets_left_column(p: SdiffView, o: ParsedOptionView)
    requires
        o.app_option.long_name@ == "left-column"@,
    ensures
        spec_apply_option(p, o, option_of_name(o.app_option.long_name@)) == SdiffStep::Next(
            sdiff_setting(p, o.app_option.long_name@, o.arg_for_option),
        ),
{
    reveal_strlit("diff-program");
    assert("diff-program"@.len() == 12);
    reveal_strlit("expand-tabs");
    assert("expand-tabs"@.len() == 11);
    reveal_strlit("help");
    assert("help"@.len() == 4);
    reveal_strlit("ignore-all-space");
    assert("ignore-all-space"@.len() == 16);
    reveal_strlit("ignore-blank-lines");
    assert("ignore-blank-lines"@.len() == 18);
    reveal_strlit("ignore-case");
    assert("ignore-case"@.len() == 11);
    reveal_strlit("ignore-matching-lines");
    assert("ignore-matching-lines"@.len() == 21);
    reveal_strlit("ignore-space-change");
    assert("ignore-space-change"@.len() == 19);
    reveal_strlit("ignore-tab-expansion");
    assert("ignore-tab-expansion"@.len() == 20);
    reveal_strlit("ignore-trailing-space");
    assert("ignore-trailing-space"@.len() == 21);
    reveal_strlit("left-column");
    assert("left-column"@.len() == 11);
    assert("expand-tabs"@[0] == 'e' && "left-column"@[0] == 'l');
    assert("ignore-case"@[0] == 'i' && "left-column"@[0] == 'l');
    reveal(spec_switched);
    assert(option_of_name(o.app_option.long_name@) == SdiffOption::LeftColumn);
}

proof fn lemma_sdiff_sets_minimal(p: SdiffView, o: ParsedOptionView)
    requires
        o.app_option.long_name@ == "minimal"@,
    ensures
        spec_apply_option(p, o, option_of_name(o.app_option.long_name@)) == SdiffStep::Next(
            sdiff_setting(p, o.app_option.long_name@, o.arg_for_option),
        ),
{
    reveal_strlit("diff-program");
    assert("diff-program"@.len() == 12);
    reveal_strlit("expand-tabs");
    assert("expand-tabs"@.len() == 11);
    reveal_strlit("help");
    assert("help"@.len() == 4);
    reveal_strlit("ignore-all-space");
    assert("ignore-all-space"@.len() == 16);
    reveal_strlit("ignore-blank-lines");
    assert("ignore-blank-lines"@.len() == 18);
    reveal_strlit("ignore-case");
    assert("ignore-case"@.len() == 11);
    reveal_strlit("ignore-matching-lines");
    assert("ignore-matching-lines"@.len() == 21);
    reveal_strlit("ignore-space-change");
    assert("ignore-space-change"@.len() == 19);
    reveal_strlit("ignore-tab-expansion");
    assert("ignore-tab-expansion"@.len() == 20);
    reveal_strlit("ignore-trailing-space");
    assert("ignore-trailing-space"@.len() == 21);
    reveal_strlit("left-column");
    assert("left-column"@.len() == 11);
    reveal_strlit("minimal");
    assert("minimal"@.len() == 7);
    reveal(spec_switched);
    assert(option_of_name(o.app_option.long_name@) == SdiffOption::Minimal);
}

proof fn lemma_sdiff_sets_speed_large_files(p: SdiffView, o: ParsedOptionView)
    requires
        o.app_option.long_name@ == "speed-large-files"@,
    ensures
        spec_apply_option(p, o, option_of_name(o.app_option.long_name@)) == SdiffStep::Next(
            sdiff_setting(p, o.app_option.long_name@, o.arg_for_option),
        ),
{
    reveal_strlit("diff-program");
    assert("diff-program"@.len() == 12);
    reveal_strlit("expand-tabs");
    assert("expand-tabs"@.len() == 11);
    reveal_strlit("help");
    assert("help"@.len() == 4);
    reveal_strlit("ignore-all-space");
    assert("ignore-all-space"@.len() == 16);
    reveal_strlit("ignore-blank-lines");
    assert("ignore-blank-lines"@.len() == 18);
    reveal_strlit("ignore-case");
    assert("ignore-case"@.len() == 11);
    reveal_strlit("ignore-matching-lines");
    assert("ignore-matching-lines"@.len() == 21);
    reveal_strlit("ignore-space-change");
    assert("ignore-space-change"@.len() == 19);
    reveal_strlit("ignore-tab-expansion");
    assert("ignore-tab-expansion"@.len() == 20);
    reveal_strlit("ignore-trailing-space");
    assert("ignore-trailing-space"@.len() == 21);
    reveal_strlit("left-column");
    assert("left-column"@.len() == 11);
    reveal_strlit("minimal");
    assert("minimal"@.len() == 7);
    reveal_strlit("output");
    assert("output"@.len() == 6);
    reveal_strlit("speed-large-files");
    assert("speed-large-files"@.len() == 17);
    reveal(spec_switched);
    assert(option_of_name(o.app_option.long_name@) == SdiffOption::SpeedLargeFiles);
}

proof fn lemma_sdiff_sets_strip_trailing_cr(p: SdiffView, o: ParsedOptionView)
    requires
        o.app_option.long_name@ == "strip-trailing-cr"@,
    ensures
        spec_apply_option(p, o, option_of_name(o.app_option.long_name@)) == SdiffStep::Next(
            sdiff_setting(p, o.app_option.long_name@, o.arg_for_option),
        ),
{
    reveal_strlit("diff-program");
    assert("diff-program"@.len() == 12);
    reveal_strlit("expand-tabs");
    assert("expand-tabs"@.len() == 11);
    reveal_strlit("help");
    assert("help"@.len() == 4);
    reveal_strlit("ignore-all-space");
    assert("ignore-all-space"@.len() == 16);
    reveal_strlit("ignore-blank-lines");
    assert("ignore-blank-lines"@.len() == 18);
    reveal_strlit("ignore-case");
    assert("ignore-case"@.len() == 11);
    reveal_strlit("ignore-matching-lines");
    assert("ignore-matching-lines"@.len() == 21);
    reveal_strlit("ignore-space-change");
    assert("ignore-space-change"@.len() == 19);
    reveal_strlit("ignore-tab-expansion");
    assert("ignore-tab-expansion"@.len() == 20);
    reveal_strlit("ignore-trailing-space");
    assert("ignore-trailing-space"@.len() == 21);
    reveal_strlit("left-column");
    assert("left-column"@.len() == 11);
    reveal_strlit("minimal");
    assert("minimal"@.len() == 7);
    reveal_strlit("output");
    assert("output"@.len() == 6);
    reveal_strlit("speed-large-files");
    assert("speed-large-files"@.len() == 17);
    reveal_strlit("strip-trailing-cr");
    assert("strip-trailing-cr"@.len() == 17);
    assert("speed-large-files"@[1] == 'p' && "strip-trailing-cr"@[1] == 't');
    reveal(spec_switched);
    assert(option_of_name(o.app_option.long_name@) == SdiffOption::StripTrailingCr);
}

proof fn lemma_sdiff_sets_suppress_common_lines(p: SdiffView, o: ParsedOptionView)
    requires
        o.app_option.long_name@ == "suppress-common-lines"@,
    ensures
        spec_apply_option(p, o, option_of_name(o.app_option.long_name@)) == SdiffStep::Next(
            sdiff_setting(p, o.app_option.long_name@, o.arg_for_option),
        ),
{
    reveal_strlit("diff-program");
    assert("diff-program"@.len() == 12);
    reveal_strlit("expand-tabs");
    assert("expand-tabs"@.len() == 11);
    reveal_strlit("help");
    assert("help"@.len() == 4);
    reveal_strlit("ignore-all-space");
    assert("ignore-all-space"@.len() == 16);
    reveal_strlit("ignore-blank-lines");
    assert("ignore-blank-lines"@.len() == 18);
    reveal_strlit("ignore-case");
    assert("ignore-case"@.len() == 11);
    reveal_strlit("ignore-matching-lines");
    assert("ignore-matching-lines"@.len() == 21);
    reveal_strlit("ignore-space-change");
    assert("ignore-space-change"@.len() == 19);
    reveal_strlit("ignore-tab-expansion");
    assert("ignore-tab-expansion"@.len() == 20);
    reveal_strlit("ignore-trailing-space");
    assert("ignore-trailing-space"@.len() == 21);
    reveal_strlit("left-column");
    assert("left-column"@.len() == 11);
    reveal_strlit("minimal");
    assert("minimal"@.len() == 7);
    reveal_strlit("output");
    assert("output"@.len() == 6);
    reveal_strlit("speed-large-files");
    assert("speed-large-files"@.len() == 17);
    reveal_strlit("strip-trailing-cr");
    assert("strip-trailing-cr"@.len() == 17);
    reveal_strlit("suppress-common-lines");
    assert("suppress-common-lines"@.len() == 21);
    assert("ignore-matching-lines"@[0] == 'i' && "suppress-common-lines"@[0] == 's');
    assert("ignore-trailing-space"@[0] == 'i' && "suppress-common-lines"@[0] == 's');
    reveal(spec_switched);
    assert(option_of_name(o.app_option.long_name@) == SdiffOption::SuppressCommonLines);
}

proof fn lemma_sdiff_sets_text(p: SdiffView, o: ParsedOptionView)
    requires
        o.app_option.long_name@ == "text"@,
    ensures
        spec_apply_option(p, o, option_of_name(o.app_option.long_name@)) == SdiffStep::Next(
            sdiff_setting(p, o.app_option.long_name@, o.arg_for_option),
        ),
{
    reveal_strlit("diff-program");
    assert("diff-program"@.len() == 12);
    reveal_strlit("expand-tabs");
    assert("expand-tabs"@.len() == 11);
    reveal_strlit("help");
    assert("help"@.len() == 4);
    reveal_strlit("ignore-all-space");
    assert("ignore-all-space"@.len() == 16);
    reveal_strlit("ignore-blank-lines");
    assert("ignore-blank-lines"@.len() == 18);
    reveal_strlit("ignore-case");
    assert("ignore-case"@.len() == 11);
    reveal_strlit("ignore-matching-lines");
    assert("ignore-matching-lines"@.len() == 21);
    reveal_strlit("ignore-space-change");
    assert("ignore-space-change"@.len() == 19);
    reveal_strlit("ignore-tab-expansion");
    assert("ignore-tab-expansion"@.len() == 20);
    reveal_strlit("ignore-trailing-space");
    assert("ignore-trailing-space"@.len() == 21);
    reveal_strlit("left-column");
    assert("left-column"@.len() == 11);
    reveal_strlit("minimal");
    assert("minimal"@.len() == 7);
    reveal_strlit("output");
    assert("output"@.len() == 6);
    reveal_strlit("speed-large-files");
    assert("speed-large-files"@.len() == 17);
    reveal_strlit("strip-trailing-cr");
    assert("strip-trailing-cr"@.len() == 17);
    reveal_strlit("suppress-common-lines");
    assert("suppress-common-lines"@.len() == 21);
    reveal_strlit("tabsize");
    assert("tabsize"@.len() == 7);
    reveal_strlit("text");
    assert("text"@.len() == 4);
    assert("help"@[0] == 'h' && "text"@[0] == 't');
    reveal(spec_switched);
    assert(option_of_name(o.app_option.long_name@) == SdiffOption::Text);
}

proof fn lemma_sdiff_sets_diff_program(p: SdiffView, o: ParsedOptionView)
    requires
        o.app_option.long_name@ == "diff-program"@,
    ensures
        spec_apply_option(p, o, option_of_name(o.app_option.long_name@)) == SdiffStep::Next(
            sdiff_setting(p, o.app_option.long_name@, o.arg_for_option),
        ),
{
    reveal_strlit("diff-program");
    assert("diff-program"@.len() == 12);
    reveal_strlit("expand-tabs");
    assert("expand-tabs"@.len() == 11);
    reveal_strlit("ignore-all-space");
    assert("ignore-all-space"@.len() == 16);
    reveal_strlit("ignore-blank-lines");
    assert("ignore-blank-lines"@.len() == 18);
    reveal_strlit("ignore-case");
    assert("ignore-case"@.len() == 11);
    reveal_strlit("ignore-space-change");
    assert("ignore-space-change"@.len() == 19);
    reveal_strlit("ignore-tab-expansion");
    assert("ignore-tab-expansion"@.len() == 20);
    reveal_strlit("ignore-trailing-space");
    assert("ignore-trailing-space"@.len() == 21);
    reveal_strlit("left-column");
    assert("left-column"@.len() == 11);
    reveal_strlit("minimal");
    assert("minimal"@.len() == 7);
    reveal_strlit("speed-large-files");
    assert("speed-large-files"@.len() == 17);
    reveal_strlit("strip-trailing-cr");
    assert("strip-trailing-cr"@.len() == 17);
    reveal_strlit("suppress-common-lines");
    assert("suppress-common-lines"@.len() == 21);
    reveal_strlit("text");
    assert("text"@.len() == 4);
    reveal(spec_switched);
    assert(option_of_name(o.app_option.long_name@) == SdiffOption::DiffProgram);
}

proof fn lemma_sdiff_sets_ignore_matching_lines(p: SdiffView, o: ParsedOptionView)
    requires
        o.app_option.long_name@ == "ignore-matching-lines"@,
    ensures
        spec_apply_option(p, o, option_of_name(o.app_option.long_name@)) == SdiffStep::Next(
            sdiff_setting(p, o.app_option.long_name@, o.arg_for_option),
        ),
{
    reveal_strlit("diff-program");
    assert("diff-program"@.len() == 12);
    reveal_strlit("expand-tabs");
    assert("expand-tabs"@.len() == 11);
    reveal_strlit("help");
    assert("help"@.len() == 4);
    reveal_strlit("ignore-all-space");
    assert("ignore-all-space"@.len() == 16);
    reveal_strlit("ignore-blank-lines");
    assert("ignore-blank-lines"@.len() == 18);
    reveal_strlit("ignore-case");
    assert("ignore-case"@.len() == 11);
    reveal_strlit("ignore-matching-lines");
    assert("ignore-matching-lines"@.len() == 21);
    reveal_strlit("ignore-space-change");
    assert("ignore-space-change"@.len() == 19);
    reveal_strlit("ignore-tab-expansion");
    assert("ignore-tab-expansion"@.len() == 20);
    reveal_strlit("ignore-trailing-space");
    assert("ignore-trailing-space"@.len() == 21);
    reveal_strlit("left-column");
    assert("left-column"@.len() == 11);
    reveal_strlit("minimal");
    assert("minimal"@.len() == 7);
    reveal_strlit("speed-large-files");
    assert("speed-large-files"@.len() == 17);
    reveal_strlit("strip-trailing-cr");
    assert("strip-trailing-cr"@.len() == 17);
    reveal_strlit("suppress-common-lines");
    assert("suppress-common-lines"@.len() == 21);
    reveal_strlit("text");
    assert("text"@.len() == 4);
    assert("ignore-trailing-space"@[7] == 't' && "ignore-matching-lines"@[7] == 'm');
    assert("suppress-common-lines"@[0] == 's' && "ignore-matching-lines"@[0] == 'i');
    reveal(spec_switched);
    assert(option_of_name(o.app_option.long_name@) == SdiffOption::IgnoreMatchingLines);
}

proof fn lemma_sdiff_sets_output(p: SdiffView, o: ParsedOptionView)
    requires
        o.app_option.long_name@ == "output"@,
    ensures
        spec_apply_option(p, o, option_of_name(o.app_option.long_name@)) == SdiffStep::Next(
            sdiff_setting(p, o.app_option.long_name@, o.arg_for_option),
        ),
{
    reveal_strlit("diff-program");
    assert("diff-program"@.len() == 12);
    reveal_strlit("expand-tabs");
    assert("expand-tabs"@.len() == 11);
    reveal_strlit("help");
    assert("help"@.len() == 4);
    reveal_strlit("ignore-all-space");
    assert("ignore-all-space"@.len() == 16);
    reveal_strlit("ignore-blank-lines");
    assert("ignore-blank-lines"@.len() == 18);
    reveal_strlit("ignore-case");
    assert("ignore-case"@.len() == 11);
    reveal_strlit("ignore-matching-lines");
    assert("ignore-matching-lines"@.len() == 21);
    reveal_strlit("ignore-space-change");
    assert("ignore-space-change"@.len() == 19);
    reveal_strlit("ignore-tab-expansion");
    assert("ignore-tab-expansion"@.len() == 20);
    reveal_strlit("ignore-trailing-space");
    assert("ignore-trailing-space"@.len() == 21);
    reveal_strlit("left-column");
    assert("left-column"@.len() == 11);
    reveal_strlit("minimal");
    assert("minimal"@.len() == 7);
    reveal_strlit("output");
    assert("output"@.len() == 6);
    reveal_strlit("speed-large-files");
    assert("speed-large-files"@.len() == 17);
    reveal_strlit("strip-trailing-cr");
    assert("strip-trailing-cr"@.len() == 17);
    reveal_strlit("suppress-common-lines");
    assert("suppress-common-lines"@.len() == 21);
    reveal_strlit("text");
    assert("text"@.len() == 4);
    reveal(spec_switched);
    assert(option_of_name(o.app_option.long_name@) == SdiffOption::Output);
}

/// Each switch and each text option of sdiff sets exactly its own field,
/// as its long name says: `--ignore-case` turns on `ignore_case` and
/// nothing else, `--output=F` stores `F` as the output and nothing else.
pub proof fn lemma_option_sets_its_field(p: SdiffView, o: ParsedOptionView)
    requires
        sdiff_setting_name(o.app_option.long_name@),
    ensures
        spec_apply_option(p, o, option_of_name(o.app_option.long_name@)) == SdiffStep::Next(
            sdiff_setting(p, o.app_option.long_name@, o.arg_for_option),
        ),
{
    let name = o.app_option.long_name@;
    if name == "expand-tabs"@ {
        lemma_sdiff_sets_expand_tabs(p, o);
    } else if name == "ignore-all-space"@ {
        lemma_sdiff_sets_ignore_all_space(p, o);
    } else if name == "ignore-blank-lines"@ {
        lemma_sdiff_sets_ignore_blank_lines(p, o);
    } else if name == "ignore-case"@ {
        lemma_sdiff_sets_ignore_case(p, o);
    } else if name == "ignore-space-change"@ {
        lemma_sdiff_sets_ignore_space_change(p, o);
    } else if name == "ignore-tab-expansion"@ {
        lemma_sdiff_sets_ignore_tab_expansion(p, o);
    } else if name == "ignore-trailing-space"@ {
        lemma_sdiff_sets_ignore_trailing_space(p, o);
    } else if name == "left-column"@ {
        lemma_sdiff_sets_left_column(p, o);
    } else if name == "minimal"@ {
        lemma_sdiff_sets_minimal(p, o);
    } else if name == "speed-large-files"@ {
        lemma_sdiff_sets_speed_large_files(p, o);
    } else if name == "strip-trailing-cr"@ {
        lemma_sdiff_sets_strip_trailing_cr(p, o);
    } else if name == "suppress-common-lines"@ {
        lemma_sdiff_sets_suppress_common_lines(p, o);
    } else if name == "text"@ {
        lemma_sdiff_sets_text(p, o);
    } else if name == "diff-program"@ {
        lemma_sdiff_sets_diff_program(p, o);
    } else if name == "ignore-matching-lines"@ {
        lemma_sdiff_sets_ignore_matching_lines(p, o);
    } else if name == "output"@ {
        lemma_sdiff_sets_output(p, o);
    }
}

} // verus!
