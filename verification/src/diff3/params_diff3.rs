//! This module contains the parser for diff3 arguments.
use vstd::prelude::*;

use crate::diff3::params_diff3_def::{app_options, spec_app_options, Diff3ErrorView, ParamsDiff3Error};
use crate::executable::Executable;
use crate::params_gen::{
    args_wf, clone_opt_string, opt_text, parsed_views, spec_parse_params, texts, GenErrorView,
    ParamsGen, ParamsGenParseError, ParamsGenView, ParsedOption, ParsedOptionView,
};
use crate::text::same_text;

verus! {

/// Parser Result Ok Enum with Params.
///
/// # Returns
/// * Params in normal cases
/// * Just Help or Version when these are requested as the params are then not relevant.
///
/// Error will be returned as [ParamsDiff3Error] in the function Result Error.
#[derive(Debug, PartialEq)]
pub enum Diff3ParseOk {
    Params(ParamsDiff3),
    Help,
    Version,
}

/// The Param struct
#[derive(Debug, Clone, Eq, PartialEq)]
pub struct ParamsDiff3 {
    /// Identifier
    pub executable: Executable,
    /// VERSION_A
    pub from: String,
    /// ORIGINAL
    pub to: String,
    /// VERSION_B, where a third file operand is given
    pub version_b: Option<String>,
    /// -i                          append 'w' and 'q' commands to ed scripts
    pub append_wq_to_ed: bool,
    /// -X                          like -x, but bracket conflicts
    pub bracket_conflicts: bool,
    /// --diff-program=PROGRAM  use PROGRAM to compare files
    pub diff_program: Option<String>,
    /// -3, --easy-only             like -e, but incorporate only non-overlapping changes
    pub easy_only: bool,
    /// -e, --ed                    output ed script incorporating changes
    pub ed: bool,
    /// --help                  display this help and exit
    pub help: bool,
    /// -T, --initial-tab           make tabs line up by prepending a tab
    pub initial_tab: bool,
    /// -L, --label=LABEL           use LABEL instead of file name
    pub label: Option<String>,
    /// -m, --merge                 output actual merged file, according to -A if no other options are given
    pub merge: bool,
    /// -x, --overlap-only          like -e, but incorporate only overlapping changes
    pub overlap_only: bool,
    /// -A, --show-all              output all changes, bracketing conflicts
    pub show_all: bool,
    /// -E, --show-overlap          like -e, but bracket conflicts
    pub show_overlap: bool,
    /// --strip-trailing-cr     strip trailing carriage return on input
    pub strip_trailing_cr: bool,
    /// -a, --text                  treat all files as text
    pub text: bool,
    /// -v, --version               output version information and exit
    pub version: bool,
}

/// A [`ParamsDiff3`] with its texts as sequences of characters.
pub struct Diff3View {
    pub executable: Executable,
    pub from: Seq<char>,
    pub to: Seq<char>,
    pub version_b: Option<Seq<char>>,
    pub append_wq_to_ed: bool,
    pub bracket_conflicts: bool,
    pub diff_program: Option<Seq<char>>,
    pub easy_only: bool,
    pub ed: bool,
    pub help: bool,
    pub initial_tab: bool,
    pub label: Option<Seq<char>>,
    pub merge: bool,
    pub overlap_only: bool,
    pub show_all: bool,
    pub show_overlap: bool,
    pub strip_trailing_cr: bool,
    pub text: bool,
    pub version: bool,
}

impl View for ParamsDiff3 {
    type V = Diff3View;

    open spec fn view(&self) -> Diff3View {
        Diff3View {
            executable: self.executable,
            from: self.from@,
            to: self.to@,
            version_b: opt_text(self.version_b),
            append_wq_to_ed: self.append_wq_to_ed,
            bracket_conflicts: self.bracket_conflicts,
            diff_program: opt_text(self.diff_program),
            easy_only: self.easy_only,
            ed: self.ed,
            help: self.help,
            initial_tab: self.initial_tab,
            label: opt_text(self.label),
            merge: self.merge,
            overlap_only: self.overlap_only,
            show_all: self.show_all,
            show_overlap: self.show_overlap,
            strip_trailing_cr: self.strip_trailing_cr,
            text: self.text,
            version: self.version,
        }
    }
}

/// The parameters of `executable` before any option or operand was read.
pub open spec fn default_diff3_view(executable: Executable) -> Diff3View {
    Diff3View {
        executable,
        from: Seq::empty(),
        to: Seq::empty(),
        version_b: None,
        append_wq_to_ed: false,
        bracket_conflicts: false,
        diff_program: None,
        easy_only: false,
        ed: false,
        help: false,
        initial_tab: false,
        label: None,
        merge: false,
        overlap_only: false,
        show_all: false,
        show_overlap: false,
        strip_trailing_cr: false,
        text: false,
        version: false,
    }
}

impl Default for ParamsDiff3 {
    fn default() -> (r: Self)
        ensures
            r@ == default_diff3_view(Executable::Diff3),
    {
        ParamsDiff3 {
            executable: Executable::Diff3,
            from: String::new(),
            to: String::new(),
            version_b: None,
            append_wq_to_ed: false,
            bracket_conflicts: false,
            diff_program: None,
            easy_only: false,
            ed: false,
            help: false,
            initial_tab: false,
            label: None,
            merge: false,
            overlap_only: false,
            show_all: false,
            show_overlap: false,
            strip_trailing_cr: false,
            text: false,
            version: false,
        }
    }
}

/// The view of a parse result.
pub open spec fn diff3_result_view(r: Result<Diff3ParseOk, ParamsDiff3Error>) -> Result<
    Diff3ParseView,
    Diff3ErrorView,
> {
    match r {
        Ok(Diff3ParseOk::Params(p)) => Ok(Diff3ParseView::Params(p@)),
        Ok(Diff3ParseOk::Help) => Ok(Diff3ParseView::Help),
        Ok(Diff3ParseOk::Version) => Ok(Diff3ParseView::Version),
        Err(e) => Err(e@),
    }
}

/// A [`Diff3ParseOk`] with the parameters as their view.
pub enum Diff3ParseView {
    Params(Diff3View),
    Help,
    Version,
}

/// The state after some of the options were applied: go on with the
/// parameters, or stop with a result.
pub enum Diff3Step {
    Next(Diff3View),
    Stop(Result<Diff3ParseView, Diff3ErrorView>),
}

/// The options of diff3, identified by their long names.
#[derive(Clone, Copy, PartialEq, Eq, Structural)]
pub enum Diff3Option {
    AppendWqToEd,
    BracketConflicts,
    DiffProgram,
    EasyOnly,
    Ed,
    Help,
    InitialTab,
    Label,
    Merge,
    OverlapOnly,
    ShowAll,
    ShowOverlap,
    StripTrailingCr,
    Text,
    Version,
    /// A name that is none of them.
    Other,
}

/// The option whose long name is `name`.
pub open spec fn option_of_name(name: Seq<char>) -> Diff3Option {
    if name == "append-wq-to-ed"@ {
        Diff3Option::AppendWqToEd
    } else if name == "bracket-conflicts"@ {
        Diff3Option::BracketConflicts
    } else if name == "diff-program"@ {
        Diff3Option::DiffProgram
    } else if name == "easy-only"@ {
        Diff3Option::EasyOnly
    } else if name == "ed"@ {
        Diff3Option::Ed
    } else if name == "help"@ {
        Diff3Option::Help
    } else if name == "initial-tab"@ {
        Diff3Option::InitialTab
    } else if name == "label"@ {
        Diff3Option::Label
    } else if name == "merge"@ {
        Diff3Option::Merge
    } else if name == "overlap-only"@ {
        Diff3Option::OverlapOnly
    } else if name == "show-all"@ {
        Diff3Option::ShowAll
    } else if name == "show-overlap"@ {
        Diff3Option::ShowOverlap
    } else if name == "strip-trailing-cr"@ {
        Diff3Option::StripTrailingCr
    } else if name == "text"@ {
        Diff3Option::Text
    } else if name == "version"@ {
        Diff3Option::Version
    } else {
        Diff3Option::Other
    }
}

/// The parameters `p` with the switch `which` turned on, or with the text
/// of the option `o` stored where `which` takes one; any other option
/// leaves them as they are.
pub open spec fn spec_switched(p: Diff3View, o: ParsedOptionView, which: Diff3Option) -> Diff3View {
    Diff3View {
        executable: p.executable,
        from: p.from,
        to: p.to,
        version_b: p.version_b,
        append_wq_to_ed: p.append_wq_to_ed || which == Diff3Option::AppendWqToEd,
        bracket_conflicts: p.bracket_conflicts || which == Diff3Option::BracketConflicts,
        diff_program: if which == Diff3Option::DiffProgram {
            o.arg_for_option
        } else {
            p.diff_program
        },
        easy_only: p.easy_only || which == Diff3Option::EasyOnly,
        ed: p.ed || which == Diff3Option::Ed,
        help: p.help,
        initial_tab: p.initial_tab || which == Diff3Option::InitialTab,
        label: if which == Diff3Option::Label {
            o.arg_for_option
        } else {
            p.label
        },
        merge: p.merge || which == Diff3Option::Merge,
        overlap_only: p.overlap_only || which == Diff3Option::OverlapOnly,
        show_all: p.show_all || which == Diff3Option::ShowAll,
        show_overlap: p.show_overlap || which == Diff3Option::ShowOverlap,
        strip_trailing_cr: p.strip_trailing_cr || which == Diff3Option::StripTrailingCr,
        text: p.text || which == Diff3Option::Text,
        version: p.version,
    }
}

/// Applies the option `o`, which is `which`, to the parameters `p`: a switch
/// is turned on, a text is stored, `--help` and `--version` stop the parse.
pub open spec fn spec_apply_option(p: Diff3View, o: ParsedOptionView, which: Diff3Option) -> Diff3Step {
    if which is Help {
        Diff3Step::Stop(Ok(Diff3ParseView::Help))
    } else if which is Version {
        Diff3Step::Stop(Ok(Diff3ParseView::Version))
    } else {
        Diff3Step::Next(spec_switched(p, o, which))
    }
}

/// Applies the options `opts[k..]`, in order, to `p`.
pub open spec fn spec_apply_options(opts: Seq<ParsedOptionView>, k: int, p: Diff3View) -> Diff3Step
    decreases opts.len() - k,
{
    if k < 0 || k >= opts.len() {
        Diff3Step::Next(p)
    } else {
        match spec_apply_option(p, opts[k], option_of_name(opts[k].app_option.long_name@)) {
            Diff3Step::Next(q) => spec_apply_options(opts, k + 1, q),
            Diff3Step::Stop(r) => Diff3Step::Stop(r),
        }
    }
}

/// The files from the operands, `VERSION_A ORIGINAL VERSION_B`: one operand
/// compares with standard input, a fourth is one too many.
pub open spec fn spec_set_operands(p: Diff3View, ops: Seq<Seq<char>>) -> Result<
    Diff3ParseView,
    Diff3ErrorView,
> {
    if ops.len() == 0 {
        Err(Diff3ErrorView::ArgParserError(GenErrorView::NoOperand))
    } else if ops.len() == 1 {
        Ok(Diff3ParseView::Params(Diff3View { from: ops[0], to: "-"@, ..p }))
    } else if ops.len() == 2 {
        Ok(Diff3ParseView::Params(Diff3View { from: ops[0], to: ops[1], ..p }))
    } else if ops.len() == 3 {
        Ok(
            Diff3ParseView::Params(
                Diff3View { from: ops[0], to: ops[1], version_b: Some(ops[2]), ..p },
            ),
        )
    } else {
        Err(Diff3ErrorView::ExtraOperand(ops[3]))
    }
}

/// What [`ParamsDiff3::parse_params`] gives for the command line `args` of
/// the utility `executable`.
pub open spec fn spec_diff3_from_args(executable: Executable, args: Seq<Seq<char>>) -> Result<
    Diff3ParseView,
    Diff3ErrorView,
> {
    match spec_parse_params(spec_app_options(), args) {
        Ok(g) => match spec_apply_options(g.options_parsed, 0, default_diff3_view(executable)) {
            Diff3Step::Stop(r) => r,
            Diff3Step::Next(p) => spec_set_operands(p, g.operands),
        },
        Err(e) => Err(Diff3ErrorView::ArgParserError(e)),
    }
}

/// A switch that is on, or turned on because `which` is `switch`.
fn turned_on(on: bool, which: Diff3Option, switch: Diff3Option) -> (r: bool)
    ensures
        r == (on || which == switch),
{
    on || which == switch
}

/// The text of the option `o` where `which` is `target`, else `current`.
fn text_for(current: Option<String>, o: &ParsedOption, which: Diff3Option, target: Diff3Option) -> (r:
    Option<String>)
    ensures
        opt_text(r) == if which == target {
            o@.arg_for_option
        } else {
            opt_text(current)
        },
{
    if which == target {
        clone_opt_string(&o.arg_for_option)
    } else {
        current
    }
}

/// The option whose long name is `name`.
fn option_named(name: &str) -> (r: Diff3Option)
    ensures
        r == option_of_name(name@),
{
    if same_text(name, "append-wq-to-ed") {
        Diff3Option::AppendWqToEd
    } else if same_text(name, "bracket-conflicts") {
        Diff3Option::BracketConflicts
    } else if same_text(name, "diff-program") {
        Diff3Option::DiffProgram
    } else if same_text(name, "easy-only") {
        Diff3Option::EasyOnly
    } else if same_text(name, "ed") {
        Diff3Option::Ed
    } else if same_text(name, "help") {
        Diff3Option::Help
    } else if same_text(name, "initial-tab") {
        Diff3Option::InitialTab
    } else if same_text(name, "label") {
        Diff3Option::Label
    } else if same_text(name, "merge") {
        Diff3Option::Merge
    } else if same_text(name, "overlap-only") {
        Diff3Option::OverlapOnly
    } else if same_text(name, "show-all") {
        Diff3Option::ShowAll
    } else if same_text(name, "show-overlap") {
        Diff3Option::ShowOverlap
    } else if same_text(name, "strip-trailing-cr") {
        Diff3Option::StripTrailingCr
    } else if same_text(name, "text") {
        Diff3Option::Text
    } else if same_text(name, "version") {
        Diff3Option::Version
    } else {
        Diff3Option::Other
    }
}

impl ParamsDiff3 {
    /// Parses the command line `args` of the utility `executable`; the first
    /// element of `args` is the name it was called by.
    pub fn parse_params(executable: Executable, args: &Vec<String>) -> (r: Result<
        Diff3ParseOk,
        ParamsDiff3Error,
    >)
        requires
            args_wf(texts(args@)),
        ensures
            diff3_result_view(r) == spec_diff3_from_args(executable, texts(args@)),
    {
        let options = app_options();
        let parser = match ParamsGen::parse_params(options.as_slice(), args) {
            Ok(p) => p,
            Err(e) => {
                return Err(ParamsDiff3Error::from(e));
            },
        };
        let ghost parsed = spec_parse_params(spec_app_options(), texts(args@));
        assert(parsed == Ok::<ParamsGenView, GenErrorView>(parser@));
        let mut params = Self { executable, ..Default::default() };
        let ghost pv = parsed_views(parser.options_parsed@);
        let opts = &parser.options_parsed;
        let mut k: usize = 0;
        while k < opts.len()
            invariant
                k <= opts@.len(),
                pv == parsed_views(opts@),
                opts == &parser.options_parsed,
                parsed == spec_parse_params(spec_app_options(), texts(args@)),
                parsed == Ok::<ParamsGenView, GenErrorView>(parser@),
                spec_apply_options(pv, 0, default_diff3_view(executable)) == spec_apply_options(
                    pv,
                    k as int,
                    params@,
                ),
            decreases opts.len() - k,
        {
            assert(pv[k as int] == opts@[k as int]@);
            let which = option_named(opts[k].app_option.long_name);
            if matches!(which, Diff3Option::Help) {
                return Ok(Diff3ParseOk::Help);
            }
            if matches!(which, Diff3Option::Version) {
                return Ok(Diff3ParseOk::Version);
            }
            params = params.switched(&opts[k], which);
            k = k + 1;
        }
        params.set_operands(&parser.operands)
    }

    /// The parameters with the switch `which` turned on, or with the text of
    /// `o` stored where `which` takes one.
    fn switched(self, o: &ParsedOption, which: Diff3Option) -> (r: Self)
        ensures
            r@ === spec_switched(self@, o@, which),
    {
        ParamsDiff3 {
            append_wq_to_ed: turned_on(self.append_wq_to_ed, which, Diff3Option::AppendWqToEd),
            bracket_conflicts: turned_on(self.bracket_conflicts, which, Diff3Option::BracketConflicts),
            diff_program: text_for(self.diff_program, o, which, Diff3Option::DiffProgram),
            easy_only: turned_on(self.easy_only, which, Diff3Option::EasyOnly),
            ed: turned_on(self.ed, which, Diff3Option::Ed),
            initial_tab: turned_on(self.initial_tab, which, Diff3Option::InitialTab),
            label: text_for(self.label, o, which, Diff3Option::Label),
            merge: turned_on(self.merge, which, Diff3Option::Merge),
            overlap_only: turned_on(self.overlap_only, which, Diff3Option::OverlapOnly),
            show_all: turned_on(self.show_all, which, Diff3Option::ShowAll),
            show_overlap: turned_on(self.show_overlap, which, Diff3Option::ShowOverlap),
            strip_trailing_cr: turned_on(self.strip_trailing_cr, which, Diff3Option::StripTrailingCr),
            text: turned_on(self.text, which, Diff3Option::Text),
            ..self
        }
    }

    /// The parameters with the files `from` and `to`.
    fn with_files(self, from: String, to: String) -> (r: Self)
        ensures
            r@ == (Diff3View { from: from@, to: to@, ..self@ }),
    {
        ParamsDiff3 { from, to, ..self }
    }

    /// Sets the files from the operands.
    fn set_operands(self, operands: &Vec<String>) -> (r: Result<Diff3ParseOk, ParamsDiff3Error>)
        ensures
            diff3_result_view(r) == spec_set_operands(self@, texts(operands@)),
    {
        let ghost ops = texts(operands@);
        let n = operands.len();
        if n == 0 {
            return Err(ParamsDiff3Error::ArgParserError(ParamsGenParseError::NoOperand));
        }
        assert(ops[0] == operands@[0]@);
        if n == 1 {
            let params = self.with_files(operands[0].clone(), String::from_str("-"));
            return Ok(Diff3ParseOk::Params(params));
        }
        assert(ops[1] == operands@[1]@);
        if n == 2 {
            let params = self.with_files(operands[0].clone(), operands[1].clone());
            return Ok(Diff3ParseOk::Params(params));
        }
        assert(ops[2] == operands@[2]@);
        if n == 3 {
            let params = self.with_files(operands[0].clone(), operands[1].clone());
            let params = ParamsDiff3 { version_b: Some(operands[2].clone()), ..params };
            return Ok(Diff3ParseOk::Params(params));
        }
        assert(ops[3] == operands@[3]@);
        Err(ParamsDiff3Error::ExtraOperand(operands[3].clone()))
    }
}

/// What the option with the long name `name` and the argument `arg` does
/// to the parameters `p`: a switch turns on its own field, a text option
/// stores its argument in its own field, and every other field stays.
pub open spec fn diff3_setting(p: Diff3View, name: Seq<char>, arg: Option<Seq<char>>) -> Diff3View {
    if name == "append-wq-to-ed"@ {
        Diff3View { append_wq_to_ed: true, ..p }
    } else if name == "bracket-conflicts"@ {
        Diff3View { bracket_conflicts: true, ..p }
    } else if name == "easy-only"@ {
        Diff3View { easy_only: true, ..p }
    } else if name == "ed"@ {
        Diff3View { ed: true, ..p }
    } else if name == "initial-tab"@ {
        Diff3View { initial_tab: true, ..p }
    } else if name == "merge"@ {
        Diff3View { merge: true, ..p }
    } else if name == "overlap-only"@ {
        Diff3View { overlap_only: true, ..p }
    } else if name == "show-all"@ {
        Diff3View { show_all: true, ..p }
    } else if name == "show-overlap"@ {
        Diff3View { show_overlap: true, ..p }
    } else if name == "strip-trailing-cr"@ {
        Diff3View { strip_trailing_cr: true, ..p }
    } else if name == "text"@ {
        Diff3View { text: true, ..p }
    } else if name == "diff-program"@ {
        Diff3View { diff_program: arg, ..p }
    } else if name == "label"@ {
        Diff3View { label: arg, ..p }
    } else {
        p
    }
}

/// Is `name` the long name of a switch or a text option of diff3?
pub open spec fn diff3_setting_name(name: Seq<char>) -> bool {
    name == "append-wq-to-ed"@ || name == "bracket-conflicts"@ || name == "easy-only"@ || name == "ed"@ || name == "initial-tab"@ || name == "merge"@ || name == "overlap-only"@ || name == "show-all"@ || name == "show-overlap"@ || name == "strip-trailing-cr"@ || name == "text"@ || name == "diff-program"@ || name == "label"@
}

proof fn lemma_diff3_sets_append_wq_to_ed(p: Diff3View, o: ParsedOptionView)
    requires
        o.app_option.long_name@ == "append-wq-to-ed"@,
    ensures
        spec_apply_option(p, o, option_of_name(o.app_option.long_name@)) == Diff3Step::Next(
            diff3_setting(p, o.app_option.long_name@, o.arg_for_option),
        ),
{
    reveal_strlit("append-wq-to-ed");
    assert("append-wq-to-ed"@.len() == 15);
    assert(option_of_name(o.app_option.long_name@) == Diff3Option::AppendWqToEd);
}

proof fn lemma_diff3_sets_bracket_conflicts(p: Diff3View, o: ParsedOptionView)
    requires
        o.app_option.long_name@ == "bracket-conflicts"@,
    ensures
        spec_apply_option(p, o, option_of_name(o.app_option.long_name@)) == Diff3Step::Next(
            diff3_setting(p, o.app_option.long_name@, o.arg_for_option),
        ),
{
    reveal_strlit("append-wq-to-ed");
    assert("append-wq-to-ed"@.len() == 15);
    reveal_strlit("bracket-conflicts");
    assert("bracket-conflicts"@.len() == 17);
    assert(option_of_name(o.app_option.long_name@) == Diff3Option::BracketConflicts);
}

proof fn lemma_diff3_sets_easy_only(p: Diff3View, o: ParsedOptionView)
    requires
        o.app_option.long_name@ == "easy-only"@,
    ensures
        spec_apply_option(p, o, option_of_name(o.app_option.long_name@)) == Diff3Step::Next(
            diff3_setting(p, o.app_option.long_name@, o.arg_for_option),
        ),
{
    reveal_strlit("append-wq-to-ed");
    assert("append-wq-to-ed"@.len() == 15);
    reveal_strlit("bracket-conflicts");
    assert("bracket-conflicts"@.len() == 17);
    reveal_strlit("diff-program");
    assert("diff-program"@.len() == 12);
    reveal_strlit("easy-only");
    assert("easy-only"@.len() == 9);
    assert(option_of_name(o.app_option.long_name@) == Diff3Option::EasyOnly);
}

proof fn lemma_diff3_sets_ed(p: Diff3View, o: ParsedOptionView)
    requires
        o.app_option.long_name@ == "ed"@,
    ensures
        spec_apply_option(p, o, option_of_name(o.app_option.long_name@)) == Diff3Step::Next(
            diff3_setting(p, o.app_option.long_name@, o.arg_for_option),
        ),
{
    reveal_strlit("append-wq-to-ed");
    assert("append-wq-to-ed"@.len() == 15);
    reveal_strlit("bracket-conflicts");
    assert("bracket-conflicts"@.len() == 17);
    reveal_strlit("diff-program");
    assert("diff-program"@.len() == 12);
    reveal_strlit("easy-only");
    assert("easy-only"@.len() == 9);
    reveal_strlit("ed");
    assert("ed"@.len() == 2);
    assert(option_of_name(o.app_option.long_name@) == Diff3Option::Ed);
}

proof fn lemma_diff3_sets_initial_tab(p: Diff3View, o: ParsedOptionView)
    requires
        o.app_option.long_name@ == "initial-tab"@,
    ensures
        spec_apply_option(p, o, option_of_name(o.app_option.long_name@)) == Diff3Step::Next(
            diff3_setting(p, o.app_option.long_name@, o.arg_for_option),
        ),
{
    reveal_strlit("append-wq-to-ed");
    assert("append-wq-to-ed"@.len() == 15);
    reveal_strlit("bracket-conflicts");
    assert("bracket-conflicts"@.len() == 17);
    reveal_strlit("diff-program");
    assert("diff-program"@.len() == 12);
    reveal_strlit("easy-only");
    assert("easy-only"@.len() == 9);
    reveal_strlit("ed");
    assert("ed"@.len() == 2);
    reveal_strlit("help");
    assert("help"@.len() == 4);
    reveal_strlit("initial-tab");
    assert("initial-tab"@.len() == 11);
    assert(option_of_name(o.app_option.long_name@) == Diff3Option::InitialTab);
}

proof fn lemma_diff3_sets_merge(p: Diff3View, o: ParsedOptionView)
    requires
        o.app_option.long_name@ == "merge"@,
    ensures
        spec_apply_option(p, o, option_of_name(o.app_option.long_name@)) == Diff3Step::Next(
            diff3_setting(p, o.app_option.long_name@, o.arg_for_option),
        ),
{
    reveal_strlit("append-wq-to-ed");
    assert("append-wq-to-ed"@.len() == 15);
    reveal_strlit("bracket-conflicts");
    assert("bracket-conflicts"@.len() == 17);
    reveal_strlit("diff-program");
    assert("diff-program"@.len() == 12);
    reveal_strlit("easy-only");
    assert("easy-only"@.len() == 9);
    reveal_strlit("ed");
    assert("ed"@.len() == 2);
    reveal_strlit("help");
    assert("help"@.len() == 4);
    reveal_strlit("initial-tab");
    assert("initial-tab"@.len() == 11);
    reveal_strlit("label");
    assert("label"@.len() == 5);
    reveal_strlit("merge");
    assert("merge"@.len() == 5);
    assert("label"@[0] == 'l' && "merge"@[0] == 'm');
    assert(option_of_name(o.app_option.long_name@) == Diff3Option::Merge);
}

proof fn lemma_diff3_sets_overlap_only(p: Diff3View, o: ParsedOptionView)
    requires
        o.app_option.long_name@ == "overlap-only"@,
    ensures
        spec_apply_option(p, o, option_of_name(o.app_option.long_name@)) == Diff3Step::Next(
            diff3_setting(p, o.app_option.long_name@, o.arg_for_option),
        ),
{
    reveal_strlit("append-wq-to-ed");
    assert("append-wq-to-ed"@.len() == 15);
    reveal_strlit("bracket-conflicts");
    assert("bracket-conflicts"@.len() == 17);
    reveal_strlit("diff-program");
    assert("diff-program"@.len() == 12);
    reveal_strlit("easy-only");
    assert("easy-only"@.len() == 9);
    reveal_strlit("ed");
    assert("ed"@.len() == 2);
    reveal_strlit("help");
    assert("help"@.len() == 4);
    reveal_strlit("initial-tab");
    assert("initial-tab"@.len() == 11);
    reveal_strlit("label");
    assert("label"@.len() == 5);
    reveal_strlit("merge");
    assert("merge"@.len() == 5);
    reveal_strlit("overlap-only");
    assert("overlap-only"@.len() == 12);
    assert("diff-program"@[0] == 'd' && "overlap-only"@[0] == 'o');
    assert(option_of_name(o.app_option.long_name@) == Diff3Option::OverlapOnly);
}

proof fn lemma_diff3_sets_show_all(p: Diff3View, o: ParsedOptionView)
    requires
        o.app_option.long_name@ == "show-all"@,
    ensures
        spec_apply_option(p, o, option_of_name(o.app_option.long_name@)) == Diff3Step::Next(
            diff3_setting(p, o.app_option.long_name@, o.arg_for_option),
        ),
{
    reveal_strlit("append-wq-to-ed");
    assert("append-wq-to-ed"@.len() == 15);
    reveal_strlit("bracket-conflicts");
    assert("bracket-conflicts"@.len() == 17);
    reveal_strlit("diff-program");
    assert("diff-program"@.len() == 12);
    reveal_strlit("easy-only");
    assert("easy-only"@.len() == 9);
    reveal_strlit("ed");
    assert("ed"@.len() == 2);
    reveal_strlit("help");
    assert("help"@.len() == 4);
    reveal_strlit("initial-tab");
    assert("initial-tab"@.len() == 11);
    reveal_strlit("label");
    assert("label"@.len() == 5);
    reveal_strlit("merge");
    assert("merge"@.len() == 5);
    reveal_strlit("overlap-only");
    assert("overlap-only"@.len() == 12);
    reveal_strlit("show-all");
    assert("show-all"@.len() == 8);
    assert(option_of_name(o.app_option.long_name@) == Diff3Option::ShowAll);
}

proof fn lemma_diff3_sets_show_overlap(p: Diff3View, o: ParsedOptionView)
    requires
        o.app_option.long_name@ == "show-overlap"@,
    ensures
        spec_apply_option(p, o, option_of_name(o.app_option.long_name@)) == Diff3Step::Next(
            diff3_setting(p, o.app_option.long_name@, o.arg_for_option),
        ),
{
    reveal_strlit("append-wq-to-ed");
    assert("append-wq-to-ed"@.len() == 15);
    reveal_strlit("bracket-conflicts");
    assert("bracket-conflicts"@.len() == 17);
    reveal_strlit("diff-program");
    assert("diff-program"@.len() == 12);
    reveal_strlit("easy-only");
    assert("easy-only"@.len() == 9);
    reveal_strlit("ed");
    assert("ed"@.len() == 2);
    reveal_strlit("help");
    assert("help"@.len() == 4);
    reveal_strlit("initial-tab");
    assert("initial-tab"@.len() == 11);
    reveal_strlit("label");
    assert("label"@.len() == 5);
    reveal_strlit("merge");
    assert("merge"@.len() == 5);
    reveal_strlit("overlap-only");
    assert("overlap-only"@.len() == 12);
    reveal_strlit("show-all");
    assert("show-all"@.len() == 8);
    reveal_strlit("show-overlap");
    assert("show-overlap"@.len() == 12);
    assert("diff-program"@[0] == 'd' && "show-overlap"@[0] == 's');
    assert("overlap-only"@[0] == 'o' && "show-overlap"@[0] == 's');
    assert(option_of_name(o.app_option.long_name@) == Diff3Option::ShowOverlap);
}

proof fn lemma_diff3_sets_strip_trailing_cr(p: Diff3View, o: ParsedOptionView)
    requires
        o.app_option.long_name@ == "strip-trailing-cr"@,
    ensures
        spec_apply_option(p, o, option_of_name(o.app_option.long_name@)) == Diff3Step::Next(
            diff3_setting(p, o.app_option.long_name@, o.arg_for_option),
        ),
{
    reveal_strlit("append-wq-to-ed");
    assert("append-wq-to-ed"@.len() == 15);
    reveal_strlit("bracket-conflicts");
    assert("bracket-conflicts"@.len() == 17);
    reveal_strlit("diff-program");
    assert("diff-program"@.len() == 12);
    reveal_strlit("easy-only");
    assert("easy-only"@.len() == 9);
    reveal_strlit("ed");
    assert("ed"@.len() == 2);
    reveal_strlit("help");
    assert("help"@.len() == 4);
    reveal_strlit("initial-tab");
    assert("initial-tab"@.len() == 11);
    reveal_strlit("label");
    assert("label"@.len() == 5);
    reveal_strlit("merge");
    assert("merge"@.len() == 5);
    reveal_strlit("overlap-only");
    assert("overlap-only"@.len() == 12);
    reveal_strlit("show-all");
    assert("show-all"@.len() == 8);
    reveal_strlit("show-overlap");
    assert("show-overlap"@.len() == 12);
    reveal_strlit("strip-trailing-cr");
    assert("strip-trailing-cr"@.len() == 17);
    assert("bracket-conflicts"@[0] == 'b' && "strip-trailing-cr"@[0] == 's');
    assert(option_of_name(o.app_option.long_name@) == Diff3Option::StripTrailingCr);
}

proof fn lemma_diff3_sets_text(p: Diff3View, o: ParsedOptionView)
    requires
        o.app_option.long_name@ == "text"@,
    ensures
        spec_apply_option(p, o, option_of_name(o.app_option.long_name@)) == Diff3Step::Next(
            diff3_setting(p, o.app_option.long_name@, o.arg_for_option),
        ),
{
    reveal_strlit("append-wq-to-ed");
    assert("append-wq-to-ed"@.len() == 15);
    reveal_strlit("bracket-conflicts");
    assert("bracket-conflicts"@.len() == 17);
    reveal_strlit("diff-program");
    assert("diff-program"@.len() == 12);
    reveal_strlit("easy-only");
    assert("easy-only"@.len() == 9);
    reveal_strlit("ed");
    assert("ed"@.len() == 2);
    reveal_strlit("help");
    assert("help"@.len() == 4);
    reveal_strlit("initial-tab");
    assert("initial-tab"@.len() == 11);
    reveal_strlit("label");
    assert("label"@.len() == 5);
    reveal_strlit("merge");
    assert("merge"@.len() == 5);
    reveal_strlit("overlap-only");
    assert("overlap-only"@.len() == 12);
    reveal_strlit("show-all");
    assert("show-all"@.len() == 8);
    reveal_strlit("show-overlap");
    assert("show-overlap"@.len() == 12);
    reveal_strlit("strip-trailing-cr");
    assert("strip-trailing-cr"@.len() == 17);
    reveal_strlit("text");
    assert("text"@.len() == 4);
    assert("help"@[0] == 'h' && "text"@[0] == 't');
    assert(option_of_name(o.app_option.long_name@) == Diff3Option::Text);
}

proof fn lemma_diff3_sets_diff_program(p: Diff3View, o: ParsedOptionView)
    requires
        o.app_option.long_name@ == "diff-program"@,
    ensures
        spec_apply_option(p, o, option_of_name(o.app_option.long_name@)) == Diff3Step::Next(
            diff3_setting(p, o.app_option.long_name@, o.arg_for_option),
        ),
{
    reveal_strlit("append-wq-to-ed");
    assert("append-wq-to-ed"@.len() == 15);
    reveal_strlit("bracket-conflicts");
    assert("bracket-conflicts"@.len() == 17);
    reveal_strlit("diff-program");
    assert("diff-program"@.len() == 12);
    reveal_strlit("easy-only");
    assert("easy-only"@.len() == 9);
    reveal_strlit("ed");
    assert("ed"@.len() == 2);
    reveal_strlit("initial-tab");
    assert("initial-tab"@.len() == 11);
    reveal_strlit("merge");
    assert("merge"@.len() == 5);
    reveal_strlit("overlap-only");
    assert("overlap-only"@.len() == 12);
    reveal_strlit("show-all");
    assert("show-all"@.len() == 8);
    reveal_strlit("show-overlap");
    assert("show-overlap"@.len() == 12);
    reveal_strlit("strip-trailing-cr");
    assert("strip-trailing-cr"@.len() == 17);
    reveal_strlit("text");
    assert("text"@.len() == 4);
    assert("overlap-only"@[0] == 'o' && "diff-program"@[0] == 'd');
    assert("show-overlap"@[0] == 's' && "diff-program"@[0] == 'd');
    assert(option_of_name(o.app_option.long_name@) == Diff3Option::DiffProgram);
}

proof fn lemma_diff3_sets_label(p: Diff3View, o: ParsedOptionView)
    requires
        o.app_option.long_name@ == "label"@,
    ensures
        spec_apply_option(p, o, option_of_name(o.app_option.long_name@)) == Diff3Step::Next(
            diff3_setting(p, o.app_option.long_name@, o.arg_for_option),
        ),
{
    reveal_strlit("append-wq-to-ed");
    assert("append-wq-to-ed"@.len() == 15);
    reveal_strlit("bracket-conflicts");
    assert("bracket-conflicts"@.len() == 17);
    reveal_strlit("diff-program");
    assert("diff-program"@.len() == 12);
    reveal_strlit("easy-only");
    assert("easy-only"@.len() == 9);
    reveal_strlit("ed");
    assert("ed"@.len() == 2);
    reveal_strlit("help");
    assert("help"@.len() == 4);
    reveal_strlit("initial-tab");
    assert("initial-tab"@.len() == 11);
    reveal_strlit("label");
    assert("label"@.len() == 5);
    reveal_strlit("merge");
    assert("merge"@.len() == 5);
    reveal_strlit("overlap-only");
    assert("overlap-only"@.len() == 12);
    reveal_strlit("show-all");
    assert("show-all"@.len() == 8);
    reveal_strlit("show-overlap");
    assert("show-overlap"@.len() == 12);
    reveal_strlit("strip-trailing-cr");
    assert("strip-trailing-cr"@.len() == 17);
    reveal_strlit("text");
    assert("text"@.len() == 4);
    assert("merge"@[0] == 'm' && "label"@[0] == 'l');
    assert(option_of_name(o.app_option.long_name@) == Diff3Option::Label);
}

/// Each switch and each text option of diff3 sets exactly its own field,
/// as its long name says: `--ed` turns on `ed` and nothing else,
/// `--label=L` stores `L` as the label and nothing else.
pub proof fn lemma_option_sets_its_field(p: Diff3View, o: ParsedOptionView)
    requires
        diff3_setting_name(o.app_option.long_name@),
    ensures
        spec_apply_option(p, o, option_of_name(o.app_option.long_name@)) == Diff3Step::Next(
            diff3_setting(p, o.app_option.long_name@, o.arg_for_option),
        ),
{
    let name = o.app_option.long_name@;
    if name == "append-wq-to-ed"@ {
        lemma_diff3_sets_append_wq_to_ed(p, o);
    } else if name == "bracket-conflicts"@ {
        lemma_diff3_sets_bracket_conflicts(p, o);
    } else if name == "easy-only"@ {
        lemma_diff3_sets_easy_only(p, o);
    } else if name == "ed"@ {
        lemma_diff3_sets_ed(p, o);
    } else if name == "initial-tab"@ {
        lemma_diff3_sets_initial_tab(p, o);
    } else if name == "merge"@ {
        lemma_diff3_sets_merge(p, o);
    } else if name == "overlap-only"@ {
        lemma_diff3_sets_overlap_only(p, o);
    } else if name == "show-all"@ {
        lemma_diff3_sets_show_all(p, o);
    } else if name == "show-overlap"@ {
        lemma_diff3_sets_show_overlap(p, o);
    } else if name == "strip-trailing-cr"@ {
        lemma_diff3_sets_strip_trailing_cr(p, o);
    } else if name == "text"@ {
        lemma_diff3_sets_text(p, o);
    } else if name == "diff-program"@ {
        lemma_diff3_sets_diff_program(p, o);
    } else if name == "label"@ {
        lemma_diff3_sets_label(p, o);
    }
}

} // verus!
