//! The parameters of cmp, read from the options the generic parser found.
use vstd::prelude::*;

use crate::cmp::params_cmp_def::{
    app_options, error_shows_arg, opt_ignore_initial, spec_app_options, spec_from_parse_byte_error,
    spec_opt_ignore_initial, CmpErrorView, CmpOkView, ParamsCmpError, ParamsCmpOk, TEXT_HELP,
    TEXT_VERSION,
};
use crate::executable::{util_named, Executable};
use crate::params_gen::{
    args_wf, char_index, from_table, gen_result_view, item_wf, lemma_char_index,
    lemma_parse_arg_from_table, lemma_parsed_views_add, opt_text, parsed, spec_parse_arg,
    spec_parse_bytes, texts, AppOption, GenErrorView, OptionNameTypeUsed, ParamsGen,
    ParamsGenParseError, ParamsGenView, ParsedOption, ParsedOptionView,
};
use crate::text::{chars_of, same_text, string_of_range};

verus! {

/// Holds the given command line arguments except "--version" and "--help".
#[derive(Debug, Eq, PartialEq)]
pub struct ParamsCmp {
    /// Identifier
    pub util: Executable,
    pub from: String,
    pub to: String,
    /// -n, --bytes=LIMIT          compare at most LIMIT bytes
    /// If None limit will be set to Bytes::MAX.
    pub bytes_limit: Option<u64>,
    /// -i, --ignore-initial=SKIP         skip first SKIP bytes of both inputs
    /// If None will be set to 0.
    pub ignore_initial_bytes_from: Option<u64>,
    /// -i, --ignore-initial=SKIP1:SKIP2  skip first SKIP1 bytes of FILE1 and
    pub ignore_initial_bytes_to: Option<u64>,
    /// -b, --print-bytes          print differing bytes
    pub print_bytes: bool,
    /// -s, --quiet, --silent      suppress all normal output \
    /// Do not set directly, use set_silent().
    pub silent: bool,
    /// -l, --verbose              output byte numbers and differing byte values \
    /// Do not set directly, use set_verbose().
    pub verbose: bool,
}

/// A [`ParamsCmp`] with its texts as sequences of characters.
pub struct CmpView {
    pub util: Executable,
    pub from: Seq<char>,
    pub to: Seq<char>,
    pub bytes_limit: Option<u64>,
    pub ignore_initial_bytes_from: Option<u64>,
    pub ignore_initial_bytes_to: Option<u64>,
    pub print_bytes: bool,
    pub silent: bool,
    pub verbose: bool,
}

impl View for ParamsCmp {
    type V = CmpView;

    open spec fn view(&self) -> CmpView {
        CmpView {
            util: self.util,
            from: self.from@,
            to: self.to@,
            bytes_limit: self.bytes_limit,
            ignore_initial_bytes_from: self.ignore_initial_bytes_from,
            ignore_initial_bytes_to: self.ignore_initial_bytes_to,
            print_bytes: self.print_bytes,
            silent: self.silent,
            verbose: self.verbose,
        }
    }
}

/// The parameters before any option or operand was read.
pub open spec fn default_params_view() -> CmpView {
    CmpView {
        util: Executable::Cmp,
        from: Seq::empty(),
        to: Seq::empty(),
        bytes_limit: None,
        ignore_initial_bytes_from: None,
        ignore_initial_bytes_to: None,
        print_bytes: false,
        silent: false,
        verbose: false,
    }
}

/// The parameters before any option or operand was read, for the utility
/// that the command name `name` calls.
pub open spec fn start_view(name: Seq<char>) -> CmpView {
    CmpView { util: util_named(name), ..default_params_view() }
}

impl Default for ParamsCmp {
    fn default() -> (r: Self)
        ensures
            r@ == default_params_view(),
    {
        Self {
            util: Executable::Cmp,
            from: String::new(),
            to: String::new(),
            ignore_initial_bytes_from: None,
            ignore_initial_bytes_to: None,
            bytes_limit: None,
            print_bytes: false,
            silent: false,
            verbose: false,
        }
    }
}

impl Clone for ParamsCmp {
    fn clone(&self) -> (r: Self)
        ensures
            r@ == self@,
    {
        Self {
            util: self.util,
            from: self.from.clone(),
            to: self.to.clone(),
            ignore_initial_bytes_from: self.ignore_initial_bytes_from,
            ignore_initial_bytes_to: self.ignore_initial_bytes_to,
            bytes_limit: self.bytes_limit,
            print_bytes: self.print_bytes,
            silent: self.silent,
            verbose: self.verbose,
        }
    }
}

/// The view of a parse result.
pub open spec fn parsed_result_view(r: Result<ParamsCmpOk, ParamsCmpError>) -> Result<
    CmpOkView,
    CmpErrorView,
> {
    match r {
        Ok(ParamsCmpOk::Info(s)) => Ok(CmpOkView::Info(s@)),
        Ok(ParamsCmpOk::ParamsCmp(p)) => Ok(CmpOkView::ParamsCmp(p@)),
        Err(e) => Err(e@),
    }
}

// ---------------------------------------------------------------------------
// The setters.
// ---------------------------------------------------------------------------

/// Sets the byte limit from the argument of `o`.
pub open spec fn spec_set_bytes_limit(p: CmpView, o: ParsedOptionView) -> Result<CmpView, CmpErrorView> {
    match spec_parse_bytes(o.arg_for_option->0) {
        Ok(r) => Ok(CmpView { bytes_limit: Some(r), ..p }),
        Err(e) => Err(spec_from_parse_byte_error(e, o)),
    }
}

/// Sets the bytes to skip of file 1 or 2 from the argument of `o`.
pub open spec fn spec_set_skip_no(p: CmpView, o: ParsedOptionView, file_no: int) -> Result<
    CmpView,
    CmpErrorView,
> {
    match spec_parse_bytes(o.arg_for_option->0) {
        Ok(r) => if file_no == 1 {
            Ok(CmpView { ignore_initial_bytes_from: Some(r), ..p })
        } else {
            Ok(CmpView { ignore_initial_bytes_to: Some(r), ..p })
        },
        Err(e) => Err(spec_from_parse_byte_error(e, o)),
    }
}

/// Sets the bytes to skip of both files from `SKIP` or `SKIP1:SKIP2`; an
/// error names the part of the argument that failed.
pub open spec fn spec_set_skip_files(p: CmpView, o: ParsedOptionView) -> Result<CmpView, CmpErrorView> {
    let bytes = o.arg_for_option->0;
    let c = char_index(bytes, ':', 0);
    let (s1, s2) = if c < bytes.len() {
        (bytes.take(c), bytes.skip(c + 1))
    } else {
        (bytes, bytes)
    };
    match spec_set_skip_no(p, ParsedOptionView { arg_for_option: Some(s1), ..o }, 1) {
        Ok(p1) => spec_set_skip_no(p1, ParsedOptionView { arg_for_option: Some(s2), ..o }, 2),
        Err(e) => Err(e),
    }
}

/// Turns on printing the differing bytes; not together with silence.
pub open spec fn spec_set_print_bytes(p: CmpView) -> Result<CmpView, CmpErrorView> {
    if p.silent {
        Err(CmpErrorView::SilentPrintBytesIncompatible)
    } else {
        Ok(CmpView { print_bytes: true, ..p })
    }
}

/// Turns on silence; not together with verbose output or printing bytes.
pub open spec fn spec_set_silent(p: CmpView) -> Result<CmpView, CmpErrorView> {
    if p.verbose {
        Err(CmpErrorView::SilentVerboseIncompatible)
    } else if p.print_bytes {
        Err(CmpErrorView::SilentPrintBytesIncompatible)
    } else {
        Ok(CmpView { silent: true, ..p })
    }
}

/// Turns on verbose output; not together with silence.
pub open spec fn spec_set_verbose(p: CmpView) -> Result<CmpView, CmpErrorView> {
    if p.silent {
        Err(CmpErrorView::SilentVerboseIncompatible)
    } else {
        Ok(CmpView { verbose: true, ..p })
    }
}

/// The result of a setter as the caller sees it: the new state or the error.
pub open spec fn setter_outcome(
    after: CmpView,
    r: Result<(), ParamsCmpError>,
    s: Result<CmpView, CmpErrorView>,
) -> bool {
    match s {
        Ok(p) => r is Ok && after == p,
        Err(e) => r matches Err(x) && x@ == e,
    }
}

/// A result without its value.
pub open spec fn unit_of<T>(r: Result<T, ParamsCmpError>) -> Result<(), ParamsCmpError> {
    match r {
        Ok(_) => Ok(()),
        Err(e) => Err(e),
    }
}

// ---------------------------------------------------------------------------
// From the parser's result to the parameters.
// ---------------------------------------------------------------------------

/// The state after some of the options were applied: go on, or stop with a result.
pub enum ApplyView {
    Done(CmpView),
    Stop(Result<CmpOkView, CmpErrorView>),
}

/// Goes on with the parameters a setter gave, or stops with its error.
pub open spec fn then_apply(
    r: Result<CmpView, CmpErrorView>,
    opts: Seq<ParsedOptionView>,
    k: int,
) -> ApplyView
    decreases opts.len() - k, 1int,
{
    match r {
        Ok(p) => spec_apply_options(opts, k, p),
        Err(e) => ApplyView::Stop(Err(e)),
    }
}

/// Applies the options `opts[k..]`, in order, to `p`; `--help` and
/// `--version` stop with their text.
pub open spec fn spec_apply_options(opts: Seq<ParsedOptionView>, k: int, p: CmpView) -> ApplyView
    decreases opts.len() - k, 0int,
{
    if k >= opts.len() || k < 0 {
        ApplyView::Done(p)
    } else {
        let o = opts[k];
        let name = o.app_option.long_name@;
        if name == "bytes"@ {
            then_apply(spec_set_bytes_limit(p, o), opts, k + 1)
        } else if name == "help"@ {
            ApplyView::Stop(Ok(CmpOkView::Info(TEXT_HELP@)))
        } else if name == "ignore-initial"@ {
            then_apply(spec_set_skip_files(p, o), opts, k + 1)
        } else if name == "print-bytes"@ {
            then_apply(spec_set_print_bytes(p), opts, k + 1)
        } else if name == "quiet"@ || name == "silent"@ {
            then_apply(spec_set_silent(p), opts, k + 1)
        } else if name == "verbose"@ {
            then_apply(spec_set_verbose(p), opts, k + 1)
        } else {
            ApplyView::Stop(Ok(CmpOkView::Info(TEXT_VERSION@)))
        }
    }
}

/// The operand `text` as the value of `--ignore-initial`.
pub open spec fn operand_option(text: Seq<char>) -> ParsedOptionView {
    parsed(spec_opt_ignore_initial(), Some(text), OptionNameTypeUsed::LongName)
}

/// The files from the operands: one operand compares with standard input,
/// the third and fourth give the bytes to skip unless `-i` already did.
pub open spec fn spec_set_operands(p: CmpView, ops: Seq<Seq<char>>) -> Result<CmpOkView, CmpErrorView> {
    if ops.len() == 0 {
        Err(CmpErrorView::ArgParserError(GenErrorView::NoOperand))
    } else if ops.len() == 1 {
        Ok(CmpOkView::ParamsCmp(CmpView { from: ops[0], to: "-"@, ..p }))
    } else if ops.len() <= 4 {
        let p2 = CmpView { from: ops[0], to: ops[1], ..p };
        if ops.len() > 2 && p2.ignore_initial_bytes_from is None {
            match spec_set_skip_no(p2, operand_option(ops[2]), 1) {
                Ok(p3) => if ops.len() > 3 {
                    match spec_set_skip_no(p3, operand_option(ops[3]), 2) {
                        Ok(p4) => Ok(CmpOkView::ParamsCmp(p4)),
                        Err(e) => Err(e),
                    }
                } else {
                    Ok(CmpOkView::ParamsCmp(p3))
                },
                Err(e) => Err(e),
            }
        } else {
            Ok(CmpOkView::ParamsCmp(p2))
        }
    } else {
        Err(CmpErrorView::ExtraOperand(ops[4]))
    }
}

/// The result of parsing the arguments from `args[i]` on, after `acc` was
/// collected from those before; a bare `--` ends the options, and every
/// argument after it is an operand.
pub open spec fn spec_parse_to_end_from(
    options: Seq<AppOption>,
    args: Seq<Seq<char>>,
    i: int,
    acc: ParamsGenView,
) -> Result<ParamsGenView, GenErrorView>
    decreases args.len() - i,
{
    if i >= args.len() {
        Ok(acc)
    } else if args[i] == "--"@ {
        Ok(
            ParamsGenView {
                executable: acc.executable,
                options_parsed: acc.options_parsed,
                operands: acc.operands + args.subrange(i + 1, args.len() as int),
            },
        )
    } else {
        match spec_parse_arg(options, args, i) {
            Ok((items, operand, n)) => if i < n <= args.len() {
                spec_parse_to_end_from(
                    options,
                    args,
                    n,
                    ParamsGenView {
                        executable: acc.executable,
                        options_parsed: acc.options_parsed + items,
                        operands: match operand {
                            Some(o) => acc.operands.push(o),
                            None => acc.operands,
                        },
                    },
                )
            } else {
                Ok(acc)
            },
            Err(e) => Err(e),
        }
    }
}

/// The options and operands of a command line as the generic parser reads
/// them, except that a bare `--` ends the options.
pub open spec fn spec_parse_to_end(options: Seq<AppOption>, args: Seq<Seq<char>>) -> Result<
    ParamsGenView,
    GenErrorView,
> {
    if args.len() == 0 {
        Err(GenErrorView::NoExecutable)
    } else {
        match spec_parse_to_end_from(
            options,
            args,
            1,
            ParamsGenView { executable: args[0], options_parsed: Seq::empty(), operands: Seq::empty() },
        ) {
            Ok(p) => if p.operands.len() == 0 {
                Err(GenErrorView::NoOperand)
            } else {
                Ok(p)
            },
            Err(e) => Err(e),
        }
    }
}

/// Every option that [`spec_parse_to_end_from`] reports is one of the table's.
proof fn lemma_parse_to_end_from_table(
    options: Seq<AppOption>,
    args: Seq<Seq<char>>,
    i: int,
    acc: ParamsGenView,
)
    requires
        0 <= i,
        from_table(options, acc.options_parsed),
    ensures
        spec_parse_to_end_from(options, args, i, acc) matches Ok(p) ==> from_table(
            options,
            p.options_parsed,
        ),
    decreases args.len() - i,
{
    if i < args.len() && args[i] != "--"@ {
        lemma_parse_arg_from_table(options, args, i);
        if let Ok((items, operand, n)) = spec_parse_arg(options, args, i) {
            if i < n <= args.len() {
                let next = ParamsGenView {
                    executable: acc.executable,
                    options_parsed: acc.options_parsed + items,
                    operands: match operand {
                        Some(o) => acc.operands.push(o),
                        None => acc.operands,
                    },
                };
                assert forall|j: int| 0 <= j < next.options_parsed.len() implies item_wf(
                    options,
                    #[trigger] next.options_parsed[j],
                ) by {
                    if j >= acc.options_parsed.len() {
                        assert(next.options_parsed[j] == items[j - acc.options_parsed.len()]);
                    } else {
                        assert(next.options_parsed[j] == acc.options_parsed[j]);
                    }
                }
                lemma_parse_to_end_from_table(options, args, n, next);
            }
        }
    }
}

/// Every option of a command line read up to `--` is one of the table's.
proof fn lemma_parse_to_end_table(options: Seq<AppOption>, args: Seq<Seq<char>>)
    ensures
        spec_parse_to_end(options, args) matches Ok(p) ==> from_table(options, p.options_parsed),
{
    if args.len() > 0 {
        lemma_parse_to_end_from_table(
            options,
            args,
            1,
            ParamsGenView { executable: args[0], options_parsed: Seq::empty(), operands: Seq::empty() },
        );
    }
}

/// Reads the options and operands of `args` with the generic parser; a bare
/// `--` ends the options, and every argument after it is an operand.
fn parse_to_end(arg_options: &[AppOption], args: &Vec<String>) -> (r: Result<
    ParamsGen,
    ParamsGenParseError,
>)
    requires
        args_wf(texts(args@)),
    ensures
        gen_result_view(r) == spec_parse_to_end(arg_options@, texts(args@)),
{
    let ghost a = texts(args@);
    if args.len() == 0 {
        return Err(ParamsGenParseError::NoExecutable);
    }
    let mut params = ParamsGen {
        executable: args[0].clone(),
        options_parsed: Vec::new(),
        operands: Vec::new(),
    };
    assert(params@.options_parsed =~= Seq::<ParsedOptionView>::empty());
    assert(params@.operands =~= Seq::<Seq<char>>::empty());
    let ghost init = params@;
    assert(init == ParamsGenView {
        executable: a[0],
        options_parsed: Seq::empty(),
        operands: Seq::empty(),
    });
    let mut i: usize = 1;
    let ghost mut ended = false;
    while i < args.len()
        invariant
            1 <= i <= args@.len(),
            a == texts(args@),
            args_wf(a),
            ended ==> i == args@.len(),
            init == (ParamsGenView {
                executable: a[0],
                options_parsed: Seq::empty(),
                operands: Seq::empty(),
            }),
            ended ==> spec_parse_to_end_from(arg_options@, a, 1, init) == Ok::<
                ParamsGenView,
                GenErrorView,
            >(params@),
            !ended ==> spec_parse_to_end_from(arg_options@, a, 1, init) == spec_parse_to_end_from(
                arg_options@,
                a,
                i as int,
                params@,
            ),
        decreases args.len() - i,
    {
        assert(a[i as int] == args@[i as int]@);
        if same_text(args[i].as_str(), "--") {
            // `--` ends the options: every argument after it is an operand.
            let ghost before = params@;
            assert(before.operands + a.subrange(i as int + 1, i as int + 1) =~= before.operands);
            let mut k: usize = i + 1;
            while k < args.len()
                invariant
                    i < k <= args@.len(),
                    params@.executable == before.executable,
                    params@.options_parsed == before.options_parsed,
                    texts(params.operands@) == before.operands + a.subrange(
                        i as int + 1,
                        k as int,
                    ),
                    a == texts(args@),
                decreases args.len() - k,
            {
                let ghost prev = texts(params.operands@);
                params.operands.push(args[k].clone());
                assert(texts(params.operands@) =~= prev.push(a[k as int]));
                assert(a.subrange(i as int + 1, k as int + 1) =~= a.subrange(
                    i as int + 1,
                    k as int,
                ).push(a[k as int]));
                k = k + 1;
            }
            assert(params@ == (ParamsGenView {
                executable: before.executable,
                options_parsed: before.options_parsed,
                operands: before.operands + a.subrange(i as int + 1, a.len() as int),
            }));
            proof {
                ended = true;
            }
            i = args.len();
        } else {
            match ParamsGen::parse_arg(arg_options, args, i) {
                Ok((items, operand, n)) => {
                    let ghost before = params@;
                    let mut items = items;
                    proof {
                        lemma_parsed_views_add(params.options_parsed@, items@);
                    }
                    params.options_parsed.append(&mut items);
                    match operand {
                        Some(o) => {
                            params.operands.push(o);
                            assert(texts(params.operands@) =~= before.operands.push(o@));
                        },
                        None => {},
                    }
                    i = n;
                },
                Err(e) => {
                    return Err(e);
                },
            }
        }
    }
    if params.operands.len() == 0 {
        return Err(ParamsGenParseError::NoOperand);
    }
    Ok(params)
}

/// The parameters that the options and operands the parser found give.
pub open spec fn spec_try_from(g: ParamsGenView) -> Result<CmpOkView, CmpErrorView> {
    match spec_apply_options(g.options_parsed, 0, start_view(g.executable)) {
        ApplyView::Stop(r) => r,
        ApplyView::Done(p) => spec_set_operands(p, g.operands),
    }
}

/// What [`ParamsCmp::parse_params`] gives for a command line: the options
/// and operands up to a bare `--`, and the operands after it.
pub open spec fn spec_params_from_args(args: Seq<Seq<char>>) -> Result<CmpOkView, CmpErrorView> {
    match spec_parse_to_end(spec_app_options(), args) {
        Ok(g) => spec_try_from(g),
        Err(e) => Err(CmpErrorView::ArgParserError(e)),
    }
}

/// The options of cmp that take a value are `--bytes` and `--ignore-initial`,
/// and the names of the table are the known ones.
proof fn lemma_table_option(o: AppOption)
    requires
        spec_app_options().contains(o),
    ensures
        (o.long_name@ == "bytes"@ || o.long_name@ == "ignore-initial"@) ==> o.has_arg,
{
    reveal_strlit("bytes");
    reveal_strlit("ignore-initial");
    reveal_strlit("print-bytes");
    reveal_strlit("quiet");
    reveal_strlit("silent");
    reveal_strlit("verbose");
    reveal_strlit("help");
    reveal_strlit("version");
    let t = spec_app_options();
    let j = choose|j: int| 0 <= j < t.len() && t[j] == o;
    assert(j == 0 || j == 1 || j == 2 || j == 3 || j == 4 || j == 5 || j == 6 || j == 7);
    if j >= 2 {
        let n = o.long_name@;
        assert(n.len() != 14);
        if n.len() == 5 {
            assert(j == 3);
            assert(n[0] != "bytes"@[0]);
        }
    }
}

/// The options whose value is read have one.
pub open spec fn values_present(opts: Seq<ParsedOptionView>) -> bool {
    forall|j: int|
        0 <= j < opts.len() ==> ((#[trigger] opts[j]).app_option.long_name@ == "bytes"@
            || opts[j].app_option.long_name@ == "ignore-initial"@) ==> opts[j].arg_for_option is Some
}

/// Bytes to skip, from the text of an argument.
fn skip_value(a: &String) -> (r: Result<u64, crate::params_gen::ParseBytesError>)
    ensures
        r == spec_parse_bytes(a@),
{
    ParamsGen::parse_bytes(a.as_str())
}

impl ParamsCmp {
    /// Sets the --bytes limit and returns the input as number.
    ///
    /// bytes - unparsed number string, e.g. '50KiB'
    pub fn set_bytes_limit(&mut self, parsed_option: &ParsedOption) -> (r: Result<u64, ParamsCmpError>)
        requires
            parsed_option.arg_for_option is Some,
        ensures
            setter_outcome(final(self)@, unit_of(r), spec_set_bytes_limit(old(self)@, parsed_option@)),
            r matches Ok(v) ==> final(self)@.bytes_limit == Some(v),
    {
        match &parsed_option.arg_for_option {
            Some(a) => match skip_value(a) {
                Ok(r) => {
                    self.bytes_limit = Some(r);
                    Ok(r)
                },
                Err(e) => Err(ParamsCmpError::from_parse_byte_error(e, parsed_option)),
            },
            None => Err(ParamsCmpError::SilentVerboseIncompatible),
        }
    }

    /// Sets the bytes to skip of file 1 or 2.
    fn set_skip_bytes_file_no(&mut self, parsed_option: &ParsedOption, file_no: i32) -> (r: Result<
        u64,
        ParamsCmpError,
    >)
        requires
            parsed_option.arg_for_option is Some,
            file_no == 1 || file_no == 2,
        ensures
            setter_outcome(
                final(self)@,
                unit_of(r),
                spec_set_skip_no(old(self)@, parsed_option@, file_no as int),
            ),
    {
        match &parsed_option.arg_for_option {
            Some(a) => match skip_value(a) {
                Ok(r) => {
                    if file_no == 1 {
                        self.ignore_initial_bytes_from = Some(r);
                    } else {
                        self.ignore_initial_bytes_to = Some(r);
                    }
                    Ok(r)
                },
                Err(e) => Err(ParamsCmpError::from_parse_byte_error(e, parsed_option)),
            },
            None => Err(ParamsCmpError::SilentVerboseIncompatible),
        }
    }

    /// Sets the bytes to skip of the first file.
    ///
    /// If calling this manually, set_skip_bytes_file_2 to the same value unless
    /// separate values are required.
    pub fn set_skip_bytes_file_1(&mut self, parsed_option: &ParsedOption) -> (r: Result<
        u64,
        ParamsCmpError,
    >)
        requires
            parsed_option.arg_for_option is Some,
        ensures
            setter_outcome(final(self)@, unit_of(r), spec_set_skip_no(old(self)@, parsed_option@, 1)),
    {
        self.set_skip_bytes_file_no(parsed_option, 1)
    }

    /// Sets the bytes to skip of the second file.
    pub fn set_skip_bytes_file_2(&mut self, parsed_option: &ParsedOption) -> (r: Result<
        u64,
        ParamsCmpError,
    >)
        requires
            parsed_option.arg_for_option is Some,
        ensures
            setter_outcome(final(self)@, unit_of(r), spec_set_skip_no(old(self)@, parsed_option@, 2)),
    {
        self.set_skip_bytes_file_no(parsed_option, 2)
    }

    /// Sets the ignore initial bytes for both files.
    ///
    /// Sets the 2nd file to the value of the 1st file if no second parameter is given. \
    /// Returns true if a value for the second file was given.
    fn set_skip_bytes_files(&mut self, parsed_option: &ParsedOption) -> (r: Result<bool, ParamsCmpError>)
        requires
            parsed_option.arg_for_option is Some,
        ensures
            setter_outcome(final(self)@, unit_of(r), spec_set_skip_files(old(self)@, parsed_option@)),
    {
        let bytes = match &parsed_option.arg_for_option {
            Some(a) => a,
            None => {
                return Err(ParamsCmpError::SilentVerboseIncompatible);
            },
        };
        let v = chars_of(bytes.as_str());
        let mut c: usize = 0;
        while c < v.len() && v[c] != ':'
            invariant
                c <= v@.len(),
                char_index(v@, ':', 0) == char_index(v@, ':', c as int),
            decreases v.len() - c,
        {
            c = c + 1;
        }
        proof {
            lemma_char_index(v@, ':', c as int);
        }
        let has_2nd = c < v.len();
        let (skip_1, skip_2) = if has_2nd {
            let s1 = string_of_range(&v, 0, c);
            let s2 = string_of_range(&v, c + 1, v.len());
            assert(v@.subrange(0, c as int) =~= bytes@.take(c as int));
            assert(v@.subrange(c as int + 1, v@.len() as int) =~= bytes@.skip(c as int + 1));
            (s1, s2)
        } else {
            (bytes.clone(), bytes.clone())
        };
        let mut p = parsed_option.clone();
        p.arg_for_option = Some(skip_1);
        assert(p@ == ParsedOptionView { arg_for_option: Some(p@.arg_for_option->0), ..parsed_option@ });
        match self.set_skip_bytes_file_1(&p) {
            Ok(_) => {},
            Err(e) => {
                return Err(e);
            },
        }
        p.arg_for_option = Some(skip_2);
        match self.set_skip_bytes_file_2(&p) {
            Ok(_) => Ok(has_2nd),
            Err(e) => Err(e),
        }
    }

    pub fn set_print_bytes(&mut self) -> (r: Result<(), ParamsCmpError>)
        ensures
            setter_outcome(final(self)@, r, spec_set_print_bytes(old(self)@)),
    {
        if self.silent {
            Err(ParamsCmpError::SilentPrintBytesIncompatible)
        } else {
            self.print_bytes = true;
            Ok(())
        }
    }

    pub fn set_silent(&mut self) -> (r: Result<(), ParamsCmpError>)
        ensures
            setter_outcome(final(self)@, r, spec_set_silent(old(self)@)),
    {
        if self.verbose {
            Err(ParamsCmpError::SilentVerboseIncompatible)
        } else if self.print_bytes {
            Err(ParamsCmpError::SilentPrintBytesIncompatible)
        } else {
            self.silent = true;
            Ok(())
        }
    }

    pub fn set_verbose(&mut self) -> (r: Result<(), ParamsCmpError>)
        ensures
            setter_outcome(final(self)@, r, spec_set_verbose(old(self)@)),
    {
        if self.silent {
            Err(ParamsCmpError::SilentVerboseIncompatible)
        } else {
            self.verbose = true;
            Ok(())
        }
    }

    /// Applies the parsed options in order.
    fn apply_options(&mut self, opts: &Vec<ParsedOption>) -> (r: Option<Result<ParamsCmpOk, ParamsCmpError>>)
        requires
            values_present(crate::params_gen::parsed_views(opts@)),
        ensures
            match spec_apply_options(crate::params_gen::parsed_views(opts@), 0, old(self)@) {
                ApplyView::Done(p) => r is None && final(self)@ == p,
                ApplyView::Stop(res) => r matches Some(x) && parsed_result_view(x) == res,
            },
    {
        let ghost pv = crate::params_gen::parsed_views(opts@);
        let mut k: usize = 0;
        while k < opts.len()
            invariant
                k <= opts@.len(),
                pv == crate::params_gen::parsed_views(opts@),
                values_present(pv),
                spec_apply_options(pv, 0, old(self)@) == spec_apply_options(pv, k as int, self@),
            decreases opts.len() - k,
        {
            let o = &opts[k];
            assert(pv[k as int] == o@);
            let name = o.app_option.long_name;
            let res = if same_text(name, "bytes") {
                unit_of_exec(self.set_bytes_limit(o))
            } else if same_text(name, "help") {
                return Some(Ok(ParamsCmpOk::Info(String::from_str(TEXT_HELP))));
            } else if same_text(name, "ignore-initial") {
                unit_of_exec(self.set_skip_bytes_files(o))
            } else if same_text(name, "print-bytes") {
                self.set_print_bytes()
            } else if same_text(name, "quiet") || same_text(name, "silent") {
                self.set_silent()
            } else if same_text(name, "verbose") {
                self.set_verbose()
            } else {
                return Some(Ok(ParamsCmpOk::Info(String::from_str(TEXT_VERSION))));
            };
            match res {
                Ok(()) => {},
                Err(e) => {
                    return Some(Err(e));
                },
            }
            k = k + 1;
        }
        None
    }

    /// Sets the files from the operands.
    fn set_operands(self, operands: &Vec<String>) -> (r: Result<ParamsCmpOk, ParamsCmpError>)
        ensures
            parsed_result_view(r) == spec_set_operands(self@, texts(operands@)),
    {
        let ghost ops = texts(operands@);
        let n = operands.len();
        if n == 0 {
            return Err(ParamsCmpError::ArgParserError(crate::params_gen::ParamsGenParseError::NoOperand));
        }
        let mut params = self;
        assert(ops[0] == operands@[0]@);
        if n == 1 {
            params.from = operands[0].clone();
            params.to = String::from_str("-");
            return Ok(ParamsCmpOk::ParamsCmp(params));
        }
        if n <= 4 {
            assert(ops[1] == operands@[1]@);
            params.from = operands[0].clone();
            params.to = operands[1].clone();
            if n > 2 && params.ignore_initial_bytes_from.is_none() {
                assert(ops[2] == operands@[2]@);
                let o = ParsedOption {
                    app_option: opt_ignore_initial(),
                    arg_for_option: Some(operands[2].clone()),
                    name_type_used: OptionNameTypeUsed::LongName,
                };
                match params.set_skip_bytes_file_1(&o) {
                    Err(e) => {
                        return Err(e);
                    },
                    Ok(_) => {},
                }
                if n > 3 {
                    assert(ops[3] == operands@[3]@);
                    let o = ParsedOption {
                        app_option: opt_ignore_initial(),
                        arg_for_option: Some(operands[3].clone()),
                        name_type_used: OptionNameTypeUsed::LongName,
                    };
                    match params.set_skip_bytes_file_2(&o) {
                        Err(e) => {
                            return Err(e);
                        },
                        Ok(_) => {},
                    }
                }
            }
            return Ok(ParamsCmpOk::ParamsCmp(params));
        }
        assert(ops[4] == operands@[4]@);
        Err(ParamsCmpError::ExtraOperand(operands[4].clone()))
    }

    /// The parameters that the options and operands the parser found give.
    fn try_from(parser: &ParamsGen) -> (r: Result<ParamsCmpOk, ParamsCmpError>)
        requires
            from_table(spec_app_options(), parser@.options_parsed),
        ensures
            parsed_result_view(r) == spec_try_from(parser@),
    {
        proof {
            let opts = parser@.options_parsed;
            assert forall|j: int|
                0 <= j < opts.len() && ((#[trigger] opts[j]).app_option.long_name@ == "bytes"@
                || opts[j].app_option.long_name@ == "ignore-initial"@) implies opts[j].arg_for_option is Some by {
                assert(item_wf(spec_app_options(), opts[j]));
                lemma_table_option(opts[j].app_option);
            }
        }
        let mut params = Self { util: Executable::from_name(parser.executable.as_str()), ..Self::default() };
        match params.apply_options(&parser.options_parsed) {
            Some(r) => r,
            None => params.set_operands(&parser.operands),
        }
    }

    /// Parses the command line `args`, whose first element is the name of
    /// the executable, which also names the utility. A bare `--` ends the
    /// options: every argument after it is an operand (`sdiff foo -- --help`
    /// compares `foo` with `--help`).
    pub fn parse_params(args: &Vec<String>) -> (r: Result<ParamsCmpOk, ParamsCmpError>)
        requires
            args_wf(texts(args@)),
        ensures
            parsed_result_view(r) == spec_params_from_args(texts(args@)),
    {
        let options = app_options();
        let parser = match parse_to_end(options.as_slice(), args) {
            Ok(p) => p,
            Err(e) => {
                return Err(ParamsCmpError::ArgParserError(e));
            },
        };
        proof {
            lemma_parse_to_end_table(spec_app_options(), texts(args@));
        }
        Self::try_from(&parser)
    }
}

impl ParamsCmp {
    /// Does as GNU cmp, and completely disables printing where the output
    /// goes to `/dev/null`, as `stdout_is_dev_null` says.
    pub fn silenced_for(self, stdout_is_dev_null: bool) -> (r: Self)
        ensures
            r@ == if stdout_is_dev_null {
                CmpView { silent: true, verbose: false, print_bytes: false, ..self@ }
            } else {
                self@
            },
    {
        let mut params = self;
        if stdout_is_dev_null {
            params.silent = true;
            params.verbose = false;
            params.print_bytes = false;
        }
        params
    }
}

/// A result without its value.
fn unit_of_exec<T>(r: Result<T, ParamsCmpError>) -> (u: Result<(), ParamsCmpError>)
    ensures
        u == unit_of(r),
{
    match r {
        Ok(_) => Ok(()),
        Err(e) => Err(e),
    }
}

// ---------------------------------------------------------------------------
// What every command line gives.
// ---------------------------------------------------------------------------

/// Silence does not go together with verbose output or printed bytes.
pub open spec fn modes_compatible(p: CmpView) -> bool {
    p.silent ==> !p.verbose && !p.print_bytes
}

/// The result of an error that shows the option's argument has one.
pub open spec fn result_shows_arg(r: Result<CmpOkView, CmpErrorView>) -> bool {
    r matches Err(e) ==> error_shows_arg(e)
}

/// A setter keeps the output modes compatible, and its error shows its
/// option's argument where the option has one.
proof fn lemma_setter(r: Result<CmpView, CmpErrorView>, p: CmpView, o: ParsedOptionView)
    requires
        modes_compatible(p),
        o.arg_for_option is Some,
        r == spec_set_bytes_limit(p, o) || r == spec_set_skip_files(p, o) || r == spec_set_print_bytes(p)
            || r == spec_set_silent(p) || r == spec_set_verbose(p),
    ensures
        r matches Ok(q) ==> modes_compatible(q),
        r matches Err(e) ==> error_shows_arg(e),
{
}

/// Applying the options keeps the output modes compatible, and its errors
/// show the arguments of their options.
proof fn lemma_apply_options(opts: Seq<ParsedOptionView>, k: int, p: CmpView)
    requires
        modes_compatible(p),
        values_present(opts),
    ensures
        spec_apply_options(opts, k, p) matches ApplyView::Done(q) ==> modes_compatible(q),
        spec_apply_options(opts, k, p) matches ApplyView::Stop(r) ==> result_shows_arg(r) && !(r is Ok
            && r->Ok_0 is ParamsCmp),
    decreases opts.len() - k,
{
    if 0 <= k < opts.len() {
        let o = opts[k];
        let name = o.app_option.long_name@;
        let r = if name == "bytes"@ {
            spec_set_bytes_limit(p, o)
        } else if name == "ignore-initial"@ {
            spec_set_skip_files(p, o)
        } else if name == "print-bytes"@ {
            spec_set_print_bytes(p)
        } else if name == "quiet"@ || name == "silent"@ {
            spec_set_silent(p)
        } else {
            spec_set_verbose(p)
        };
        if name == "bytes"@ || name == "ignore-initial"@ {
            assert(o.arg_for_option is Some);
            lemma_setter(r, p, o);
        } else {
            lemma_setter(r, p, ParsedOptionView { arg_for_option: Some(Seq::empty()), ..o });
        }
        match r {
            Ok(q) => {
                lemma_apply_options(opts, k + 1, q);
            },
            Err(_) => {},
        }
    }
}

/// Setting the files from the operands keeps the output modes.
proof fn lemma_set_operands_modes(p: CmpView, ops: Seq<Seq<char>>)
    requires
        modes_compatible(p),
    ensures
        spec_set_operands(p, ops) matches Ok(CmpOkView::ParamsCmp(q)) ==> modes_compatible(q),
{
    if 2 < ops.len() <= 4 {
        let p2 = CmpView { from: ops[0], to: ops[1], ..p };
        if p2.ignore_initial_bytes_from is None {
            let r3 = spec_set_skip_no(p2, operand_option(ops[2]), 1);
            if r3 is Ok && ops.len() > 3 {
                let p3 = r3->Ok_0;
                assert(modes_compatible(p3));
                let r4 = spec_set_skip_no(p3, operand_option(ops[3]), 2);
                if r4 is Ok {
                    assert(modes_compatible(r4->Ok_0));
                }
            }
        }
    }
}

/// Whatever the command line, the parameters cmp gets never ask for silence
/// together with verbose output or printed bytes, and every error that
/// shows an option's argument has one to show.
pub proof fn lemma_params_from_args(args: Seq<Seq<char>>)
    ensures
        spec_params_from_args(args) matches Ok(CmpOkView::ParamsCmp(p)) ==> modes_compatible(p),
        result_shows_arg(spec_params_from_args(args)),
{
    lemma_parse_to_end_table(spec_app_options(), args);
    let parsed = spec_parse_to_end(spec_app_options(), args);
    if parsed is Ok {
        let opts = parsed->Ok_0.options_parsed;
        assert forall|j: int|
            0 <= j < opts.len() && ((#[trigger] opts[j]).app_option.long_name@ == "bytes"@
                || opts[j].app_option.long_name@ == "ignore-initial"@) implies opts[j].arg_for_option is Some by {
            assert(item_wf(spec_app_options(), opts[j]));
            lemma_table_option(opts[j].app_option);
        }
        let start = start_view(parsed->Ok_0.executable);
        lemma_apply_options(opts, 0, start);
        let a = spec_apply_options(opts, 0, start);
        if a is Done {
            lemma_set_operands_modes(a->Done_0, parsed->Ok_0.operands);
        }
    }
}

/// A missing second file is standard input: with one operand cmp compares
/// it with `-`.
pub proof fn lemma_missing_file_reads_stdin(args: Seq<Seq<char>>)
    requires
        spec_parse_to_end(spec_app_options(), args) is Ok,
        spec_parse_to_end(spec_app_options(), args)->Ok_0.operands.len() == 1,
    ensures
        spec_params_from_args(args) matches Ok(CmpOkView::ParamsCmp(p)) ==> p.to == "-"@ && p.from
            == spec_parse_to_end(spec_app_options(), args)->Ok_0.operands[0],
{
    lemma_params_from_args(args);
    let g = spec_parse_to_end(spec_app_options(), args)->Ok_0;
    lemma_parse_to_end_table(spec_app_options(), args);
    let opts = g.options_parsed;
    assert forall|j: int|
        0 <= j < opts.len() && ((#[trigger] opts[j]).app_option.long_name@ == "bytes"@
            || opts[j].app_option.long_name@ == "ignore-initial"@) implies opts[j].arg_for_option is Some by {
        assert(item_wf(spec_app_options(), opts[j]));
        lemma_table_option(opts[j].app_option);
    }
    lemma_apply_options(opts, 0, start_view(g.executable));
}

/// Options other than `--ignore-initial` leave the bytes to skip as they are.
proof fn lemma_apply_keeps_skips(opts: Seq<ParsedOptionView>, k: int, p: CmpView)
    requires
        forall|j: int| 0 <= j < opts.len() ==> (#[trigger] opts[j]).app_option.long_name@
            != "ignore-initial"@,
    ensures
        spec_apply_options(opts, k, p) matches ApplyView::Done(q) ==> q.ignore_initial_bytes_from
            == p.ignore_initial_bytes_from && q.ignore_initial_bytes_to == p.ignore_initial_bytes_to,
    decreases opts.len() - k,
{
    if 0 <= k < opts.len() {
        let o = opts[k];
        assert(o.app_option.long_name@ != "ignore-initial"@);
        if let Ok(p1) = spec_set_bytes_limit(p, o) {
            lemma_apply_keeps_skips(opts, k + 1, p1);
        }
        if let Ok(p1) = spec_set_print_bytes(p) {
            lemma_apply_keeps_skips(opts, k + 1, p1);
        }
        if let Ok(p1) = spec_set_silent(p) {
            lemma_apply_keeps_skips(opts, k + 1, p1);
        }
        if let Ok(p1) = spec_set_verbose(p) {
            lemma_apply_keeps_skips(opts, k + 1, p1);
        }
    }
}

/// With the operands `FILE1 FILE2 SKIP1 SKIP2` and no `-i`, cmp compares
/// `FILE1` from the byte `SKIP1` on with `FILE2` from the byte `SKIP2` on:
/// each skip is its own operand read as a byte value; without `SKIP2` the
/// second file is not skipped.
pub proof fn lemma_skip_operands(args: Seq<Seq<char>>)
    requires
        spec_parse_to_end(spec_app_options(), args) is Ok,
        3 <= spec_parse_to_end(spec_app_options(), args)->Ok_0.operands.len() <= 4,
        forall|j: int|
            0 <= j < spec_parse_to_end(spec_app_options(), args)->Ok_0.options_parsed.len()
                ==> (#[trigger] spec_parse_to_end(spec_app_options(), args)->Ok_0.options_parsed[j]).app_option.long_name@
                != "ignore-initial"@,
    ensures
        ({
            let ops = spec_parse_to_end(spec_app_options(), args)->Ok_0.operands;
            spec_params_from_args(args) matches Ok(CmpOkView::ParamsCmp(q)) ==> {
                &&& q.from == ops[0]
                &&& q.to == ops[1]
                &&& q.ignore_initial_bytes_from is Some
                &&& spec_parse_bytes(ops[2]) == Ok::<u64, crate::params_gen::ParseBytesError>(
                    q.ignore_initial_bytes_from->0,
                )
                &&& ops.len() == 4 ==> q.ignore_initial_bytes_to is Some && spec_parse_bytes(ops[3])
                    == Ok::<u64, crate::params_gen::ParseBytesError>(q.ignore_initial_bytes_to->0)
                &&& ops.len() == 3 ==> q.ignore_initial_bytes_to is None
            }
        }),
{
    let g = spec_parse_to_end(spec_app_options(), args)->Ok_0;
    let ops = g.operands;
    lemma_apply_keeps_skips(g.options_parsed, 0, start_view(g.executable));
    lemma_parse_to_end_table(spec_app_options(), args);
    let opts = g.options_parsed;
    assert forall|j: int|
        0 <= j < opts.len() && ((#[trigger] opts[j]).app_option.long_name@ == "bytes"@
            || opts[j].app_option.long_name@ == "ignore-initial"@) implies opts[j].arg_for_option is Some by {
        assert(item_wf(spec_app_options(), opts[j]));
        lemma_table_option(opts[j].app_option);
    }
    lemma_apply_options(opts, 0, start_view(g.executable));
    assert(spec_params_from_args(args) == spec_try_from(g));
    if let ApplyView::Done(p) = spec_apply_options(g.options_parsed, 0, start_view(g.executable)) {
        assert(p.ignore_initial_bytes_from is None);
        assert(operand_option(ops[2]).arg_for_option == Some(ops[2]));
        assert(operand_option(ops[3]).arg_for_option == Some(ops[3]));
        let p2 = CmpView { from: ops[0], to: ops[1], ..p };
        if let Ok(p3) = spec_set_skip_no(p2, operand_option(ops[2]), 1) {
            assert(p3.ignore_initial_bytes_from == Some(spec_parse_bytes(ops[2])->Ok_0));
        }
    }
}

} // verus!
