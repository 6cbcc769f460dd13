//! A generic parser for the options and operands of a diff utility.
//!
//! The parser knows the options an application accepts from a table of
//! [`AppOption`]s. It accepts long options (`--bytes=50`, `--bytes 50`),
//! unambiguous abbreviations of them (`--by 50`), single short options
//! (`-n 50`), groups of short options (`-bl`, `-bln50`) and operands.
use vstd::prelude::*;

use crate::text::{
    all_digits, chars_of, decimal, decimal_value, digit_char, digit_value, is_digit, lemma_decimal_value_prefix,
    lemma_decimal_value_push, starts_with, string_of_range,
};

verus! {

/// The name of the utility whose messages this parser writes.
pub const EXE_NAME: &'static str = "cmp";

/// The hint that follows every parse error message.
pub const TEXT_HELP_HINT: &'static str = "Try 'cmp --help' for more information.";

/// A number of bytes, as given to `--bytes` and `--ignore-initial`.
pub type Bytes = u64;

/// One option an application accepts.
#[derive(Debug, Clone, Copy, PartialEq)]
pub struct AppOption {
    /// long name of option
    pub long_name: &'static str,
    pub short: Option<char>,
    pub has_arg: bool,
    pub arg_default: Option<&'static str>,
}

/// To differentiate the user input, did he use -s or --silent.
/// While this is technically no difference, the error message may vary.
#[derive(Debug, Clone, Copy, PartialEq, Eq, Structural)]
pub enum OptionNameTypeUsed {
    LongName,
    ShortName,
}

impl Default for OptionNameTypeUsed {
    fn default() -> (r: Self)
        ensures
            r == OptionNameTypeUsed::LongName,
    {
        OptionNameTypeUsed::LongName
    }
}

/// An option found on the command line, with its argument if it has one.
#[derive(Debug, PartialEq)]
pub struct ParsedOption {
    pub app_option: AppOption,
    pub arg_for_option: Option<String>,
    pub name_type_used: OptionNameTypeUsed,
}

/// A [`ParsedOption`] with its argument taken as a sequence of characters.
pub struct ParsedOptionView {
    pub app_option: AppOption,
    pub arg_for_option: Option<Seq<char>>,
    pub name_type_used: OptionNameTypeUsed,
}

/// The text of an optional string.
pub open spec fn opt_text(s: Option<String>) -> Option<Seq<char>> {
    match s {
        Some(t) => Some(t@),
        None => None,
    }
}

/// The text of an optional string slice.
pub open spec fn opt_str_text(s: Option<&'static str>) -> Option<Seq<char>> {
    match s {
        Some(t) => Some(t@),
        None => None,
    }
}

impl View for ParsedOption {
    type V = ParsedOptionView;

    open spec fn view(&self) -> ParsedOptionView {
        ParsedOptionView {
            app_option: self.app_option,
            arg_for_option: opt_text(self.arg_for_option),
            name_type_used: self.name_type_used,
        }
    }
}

/// The views of a sequence of parsed options.
pub open spec fn parsed_views(v: Seq<ParsedOption>) -> Seq<ParsedOptionView> {
    v.map_values(|o: ParsedOption| o@)
}

/// A parsed option record, in view form.
pub open spec fn parsed(
    app_option: AppOption,
    arg_for_option: Option<Seq<char>>,
    name_type_used: OptionNameTypeUsed,
) -> ParsedOptionView {
    ParsedOptionView { app_option, arg_for_option, name_type_used }
}

/// Copies an optional string.
pub fn clone_opt_string(s: &Option<String>) -> (r: Option<String>)
    ensures
        opt_text(r) == opt_text(*s),
{
    match s {
        Some(t) => Some(t.clone()),
        None => None,
    }
}

impl Clone for ParsedOption {
    fn clone(&self) -> (r: Self)
        ensures
            r@ == self@,
    {
        ParsedOption {
            app_option: self.app_option,
            arg_for_option: clone_opt_string(&self.arg_for_option),
            name_type_used: self.name_type_used,
        }
    }
}

impl ParsedOption {
    pub fn new(
        app_option: AppOption,
        arg_for_option: String,
        name_type_used: OptionNameTypeUsed,
    ) -> (r: Self)
        ensures
            r@ == parsed(app_option, Some(arg_for_option@), name_type_used),
    {
        Self { app_option, arg_for_option: Some(arg_for_option), name_type_used }
    }

    pub fn new_none(app_option: AppOption, name_type_used: OptionNameTypeUsed) -> (r: Self)
        ensures
            r@ == parsed(app_option, None, name_type_used),
    {
        Self { app_option, arg_for_option: None, name_type_used }
    }
}

/// The option a [`ParsedOption`] holds before the parser has identified one.
pub open spec fn dummy_option() -> AppOption {
    AppOption { long_name: "dummy", short: None, has_arg: false, arg_default: None }
}

impl Default for ParsedOption {
    fn default() -> (r: Self)
        ensures
            r@ == parsed(dummy_option(), None, OptionNameTypeUsed::LongName),
    {
        Self {
            app_option: AppOption {
                long_name: "dummy",
                short: None,
                has_arg: false,
                arg_default: None,
            },
            arg_for_option: None,
            name_type_used: OptionNameTypeUsed::LongName,
        }
    }
}

/// Errors of the number parser for byte values.
#[derive(Debug, Clone, Copy, PartialEq, Eq, Structural)]
pub enum ParseBytesError {
    NoValue,
    PosOverflow,
    InvalidNumber,
    InvalidUnit,
}

// ---------------------------------------------------------------------------
// Byte values: a decimal number followed by an optional unit, e.g. 1024 or 1KiB.
// ---------------------------------------------------------------------------

/// The multiplier of a binary unit letter: `K` 1024, `M` 1024², ... up to `E`.
pub open spec fn binary_multiplier(c: char) -> Option<u64> {
    match c {
        'k' | 'K' => Some(1_024u64),
        'M' => Some(1_048_576u64),
        'G' => Some(1_073_741_824u64),
        'T' => Some(1_099_511_627_776u64),
        'P' => Some(1_125_899_906_842_624u64),
        'E' => Some(1_152_921_504_606_846_976u64),
        _ => None,
    }
}

/// The multiplier of a decimal unit letter: `kB` 1000, `MB` 1000², ... up to `EB`.
pub open spec fn decimal_multiplier(c: char) -> Option<u64> {
    match c {
        'k' | 'K' => Some(1_000u64),
        'M' => Some(1_000_000u64),
        'G' => Some(1_000_000_000u64),
        'T' => Some(1_000_000_000_000u64),
        'P' => Some(1_000_000_000_000_000u64),
        'E' => Some(1_000_000_000_000_000_000u64),
        _ => None,
    }
}

/// The multiplier of a unit suffix: `K`, `KiB` (binary) or `KB` (decimal),
/// and the same for `M`, `G`, `T`, `P`, `E`; `k` may stand for `K`.
pub open spec fn unit_multiplier(u: Seq<char>) -> Option<u64> {
    if u.len() == 1 {
        binary_multiplier(u[0])
    } else if u.len() == 2 && u[1] == 'B' {
        decimal_multiplier(u[0])
    } else if u.len() == 3 && u[1] == 'i' && u[2] == 'B' {
        binary_multiplier(u[0])
    } else {
        None
    }
}

/// The number of leading ASCII digits of `s` from index `k` on, plus `k`.
pub open spec fn digits_end(s: Seq<char>, k: int) -> int
    decreases s.len() - k,
{
    if k >= s.len() || !is_digit(s[k]) {
        k
    } else {
        digits_end(s, k + 1)
    }
}

/// What [`ParamsGen::parse_bytes`] gives for a text: the decimal number in
/// front times the multiplier of the unit behind it.
pub open spec fn spec_parse_bytes(s: Seq<char>) -> Result<u64, ParseBytesError> {
    let k = digits_end(s, 0);
    if s.len() == 0 {
        Err(ParseBytesError::NoValue)
    } else if k == 0 {
        Err(ParseBytesError::InvalidNumber)
    } else if k < s.len() && unit_multiplier(s.skip(k)) is None {
        Err(ParseBytesError::InvalidUnit)
    } else {
        let m: nat = if k < s.len() {
            unit_multiplier(s.skip(k))->0 as nat
        } else {
            1
        };
        let v = decimal_value(s.take(k)) * m;
        if v <= u64::MAX {
            Ok(v as u64)
        } else {
            Err(ParseBytesError::PosOverflow)
        }
    }
}

/// What [`ParamsGen::parse_number_unit`] gives for a unit text.
pub open spec fn spec_parse_number_unit(u: Seq<char>) -> Result<u64, ParseBytesError> {
    match unit_multiplier(u) {
        Some(m) => Ok(m),
        None => Err(ParseBytesError::InvalidUnit),
    }
}

/// `digits_end` stops at a non-digit, all before it are digits.
pub proof fn lemma_digits_end(s: Seq<char>, k: int)
    requires
        0 <= k <= s.len(),
    ensures
        k <= digits_end(s, k) <= s.len(),
        forall|j: int| k <= j < digits_end(s, k) ==> is_digit(#[trigger] s[j]),
        digits_end(s, k) < s.len() ==> !is_digit(s[digits_end(s, k)]),
    decreases s.len() - k,
{
    if k < s.len() && is_digit(s[k]) {
        lemma_digits_end(s, k + 1);
    }
}

/// The multiplier of the unit `s[start..]`.
fn unit_of(s: &Vec<char>, start: usize) -> (r: Result<u64, ParseBytesError>)
    requires
        start <= s@.len(),
    ensures
        r == spec_parse_number_unit(s@.skip(start as int)),
{
    let ghost u = s@.skip(start as int);
    let n = s.len() - start;
    if n == 0 || n > 3 {
        return Err(ParseBytesError::InvalidUnit);
    }
    let a = s[start];
    let binary = match a {
        'k' | 'K' => 1_024u64,
        'M' => 1_048_576u64,
        'G' => 1_073_741_824u64,
        'T' => 1_099_511_627_776u64,
        'P' => 1_125_899_906_842_624u64,
        'E' => 1_152_921_504_606_846_976u64,
        _ => 0,
    };
    let decimal = match a {
        'k' | 'K' => 1_000u64,
        'M' => 1_000_000u64,
        'G' => 1_000_000_000u64,
        'T' => 1_000_000_000_000u64,
        'P' => 1_000_000_000_000_000u64,
        'E' => 1_000_000_000_000_000_000u64,
        _ => 0,
    };
    assert(u[0] == a);
    if binary == 0 {
        return Err(ParseBytesError::InvalidUnit);
    }
    if n == 1 {
        return Ok(binary);
    }
    let b = s[start + 1];
    assert(u[1] == b);
    if n == 2 {
        if b == 'B' {
            return Ok(decimal);
        }
        return Err(ParseBytesError::InvalidUnit);
    }
    let c = s[start + 2];
    assert(u[2] == c);
    if b == 'i' && c == 'B' {
        Ok(binary)
    } else {
        Err(ParseBytesError::InvalidUnit)
    }
}

/// The value of the ASCII digit `c`.
fn digit_of(c: char) -> (d: u64)
    requires
        is_digit(c),
    ensures
        d as nat == digit_value(c),
        d < 10,
{
    (c as u32 - '0' as u32) as u64
}

/// Parses `s[0..k]`, all digits, as a decimal number; `None` when it does not fit in u64.
fn decimal_prefix(s: &Vec<char>, k: usize) -> (r: Option<u64>)
    requires
        k <= s@.len(),
        all_digits(s@.take(k as int)),
    ensures
        match r {
            Some(v) => v as nat == decimal_value(s@.take(k as int)),
            None => decimal_value(s@.take(k as int)) > u64::MAX,
        },
{
    let mut num: u64 = 0;
    let mut j: usize = 0;
    while j < k
        invariant
            j <= k <= s@.len(),
            all_digits(s@.take(k as int)),
            num as nat == decimal_value(s@.take(j as int)),
        decreases k - j,
    {
        assert(s@.take(k as int)[j as int] == s@[j as int]);
        let c = s[j];
        let d = digit_of(c);
        proof {
            assert(s@.take(j as int + 1) =~= s@.take(j as int).push(c));
            lemma_decimal_value_push(s@.take(j as int), c);
        }
        if num > 1_844_674_407_370_955_161u64 || (num == 1_844_674_407_370_955_161u64 && d > 5) {
            proof {
                assert(s@.take(k as int).take(j as int + 1) =~= s@.take(j as int + 1));
                lemma_decimal_value_prefix(s@.take(k as int), j as int + 1);
            }
            return None;
        }
        num = num * 10 + d;
        j = j + 1;
    }
    Some(num)
}

// ---------------------------------------------------------------------------
// The option table and the parse result.
// ---------------------------------------------------------------------------

/// Every argument after the executable's name is non-empty.
pub open spec fn args_wf(args: Seq<Seq<char>>) -> bool {
    forall|k: int| 1 <= k < args.len() ==> (#[trigger] args[k]).len() > 0
}

/// The texts of a sequence of strings.
pub open spec fn texts(v: Seq<String>) -> Seq<Seq<char>> {
    v.map_values(|s: String| s@)
}

/// The index of the first option of the table, from `k` on, whose short name
/// is `c`; the table's length if there is none.
pub open spec fn short_index(options: Seq<AppOption>, c: char, k: int) -> int
    decreases options.len() - k,
{
    if k >= options.len() {
        options.len() as int
    } else if options[k].short == Some(c) {
        k
    } else {
        short_index(options, c, k + 1)
    }
}

/// The options of the table whose long name starts with `p`, in table order.
pub open spec fn matching_options(options: Seq<AppOption>, p: Seq<char>) -> Seq<AppOption>
    decreases options.len(),
{
    if options.len() == 0 {
        Seq::empty()
    } else {
        let r = matching_options(options.drop_last(), p);
        if p.is_prefix_of(options.last().long_name@) {
            r.push(options.last())
        } else {
            r
        }
    }
}

/// The index of the first `c` in `s` from `k` on; `s.len()` if there is none.
pub open spec fn char_index(s: Seq<char>, c: char, k: int) -> int
    decreases s.len() - k,
{
    if k >= s.len() {
        s.len() as int
    } else if s[k] == c {
        k
    } else {
        char_index(s, c, k + 1)
    }
}

pub proof fn lemma_char_index(s: Seq<char>, c: char, k: int)
    requires
        0 <= k <= s.len(),
    ensures
        k <= char_index(s, c, k) <= s.len(),
        forall|j: int| k <= j < char_index(s, c, k) ==> #[trigger] s[j] != c,
        char_index(s, c, k) < s.len() ==> s[char_index(s, c, k)] == c,
    decreases s.len() - k,
{
    if k < s.len() && s[k] != c {
        lemma_char_index(s, c, k + 1);
    }
}

pub proof fn lemma_short_index(options: Seq<AppOption>, c: char, k: int)
    requires
        0 <= k <= options.len(),
    ensures
        k <= short_index(options, c, k) <= options.len(),
        short_index(options, c, k) < options.len() ==> options[short_index(options, c, k)].short
            == Some(c),
    decreases options.len() - k,
{
    if k < options.len() && options[k].short != Some(c) {
        lemma_short_index(options, c, k + 1);
    }
}

/// Every option that `matching_options` gives is in the table.
pub proof fn lemma_matching_options_in_table(options: Seq<AppOption>, p: Seq<char>)
    ensures
        forall|j: int|
            0 <= j < matching_options(options, p).len() ==> options.contains(
                #[trigger] matching_options(options, p)[j],
            ),
    decreases options.len(),
{
    if options.len() > 0 {
        lemma_matching_options_in_table(options.drop_last(), p);
        let r = matching_options(options.drop_last(), p);
        assert forall|j: int| 0 <= j < matching_options(options, p).len() implies options.contains(
            #[trigger] matching_options(options, p)[j],
        ) by {
            if j < r.len() {
                let o = r[j];
                assert(options.drop_last().contains(o));
                let t = choose|t: int| 0 <= t < options.drop_last().len() && options.drop_last()[t] == o;
                assert(options[t] == o);
            } else {
                assert(options[options.len() - 1] == options.last());
            }
        }
    }
}

// ---------------------------------------------------------------------------
// Errors and the parse result.
// ---------------------------------------------------------------------------

/// Contains all parser errors and their text messages.
#[derive(Debug, PartialEq)]
pub enum ParamsGenParseError {
    /// When the long option is abbreviated, but does not have a unique match.
    /// (ambiguous option, possible options)
    AmbiguousOption(String, Vec<AppOption>),
    /// cmp: option '--silent' doesn't allow an argument
    /// (wrong option)
    ArgForOptionNotAllowed(ParsedOption),
    /// (option, short or long name used)
    ArgForOptionMissing(ParsedOption),
    /// cmp as parameter missing.
    NoExecutable,
    /// Non-existent single dash option.
    /// (unidentified option)
    InvalidOption(String),
    /// cmp but no args for it
    NoOperand,
    /// Non-existent double dash option. This is unrecognized because the name can be abbreviated.
    /// (unrecognized option)
    UnrecognizedOption(String),
}

/// A [`ParamsGenParseError`] with its texts as sequences of characters.
pub enum GenErrorView {
    AmbiguousOption(Seq<char>, Seq<AppOption>),
    ArgForOptionNotAllowed(ParsedOptionView),
    ArgForOptionMissing(ParsedOptionView),
    NoExecutable,
    InvalidOption(Seq<char>),
    NoOperand,
    UnrecognizedOption(Seq<char>),
}

impl View for ParamsGenParseError {
    type V = GenErrorView;

    open spec fn view(&self) -> GenErrorView {
        match self {
            ParamsGenParseError::AmbiguousOption(p, o) => GenErrorView::AmbiguousOption(p@, o@),
            ParamsGenParseError::ArgForOptionNotAllowed(o) => GenErrorView::ArgForOptionNotAllowed(
                o@,
            ),
            ParamsGenParseError::ArgForOptionMissing(o) => GenErrorView::ArgForOptionMissing(o@),
            ParamsGenParseError::NoExecutable => GenErrorView::NoExecutable,
            ParamsGenParseError::InvalidOption(p) => GenErrorView::InvalidOption(p@),
            ParamsGenParseError::NoOperand => GenErrorView::NoOperand,
            ParamsGenParseError::UnrecognizedOption(p) => GenErrorView::UnrecognizedOption(p@),
        }
    }
}

/// The options and operands found on a command line.
#[derive(Debug)]
pub struct ParamsGen {
    pub executable: String,
    pub options_parsed: Vec<ParsedOption>,
    pub operands: Vec<String>,
}

/// A [`ParamsGen`] with its texts as sequences of characters.
pub struct ParamsGenView {
    pub executable: Seq<char>,
    pub options_parsed: Seq<ParsedOptionView>,
    pub operands: Seq<Seq<char>>,
}

impl View for ParamsGen {
    type V = ParamsGenView;

    open spec fn view(&self) -> ParamsGenView {
        ParamsGenView {
            executable: self.executable@,
            options_parsed: parsed_views(self.options_parsed@),
            operands: texts(self.operands@),
        }
    }
}

/// The view of a parse result.
pub open spec fn gen_result_view(r: Result<ParamsGen, ParamsGenParseError>) -> Result<
    ParamsGenView,
    GenErrorView,
> {
    match r {
        Ok(p) => Ok(p@),
        Err(e) => Err(e@),
    }
}

/// What one argument, or an option with the argument that follows it,
/// contributes: the options found, the operand found, and the index of the
/// next argument to read.
pub type ArgStep = (Seq<ParsedOptionView>, Option<Seq<char>>, int);

/// Completes a parsed option with its argument: one that takes an argument
/// and has none yet takes the argument at `next` (or its default, when there
/// is no further argument); one that takes none must have none.
pub open spec fn spec_check_add_arg(opt: ParsedOptionView, args: Seq<Seq<char>>, next: int) -> Result<
    (ParsedOptionView, int),
    GenErrorView,
> {
    if opt.app_option.has_arg {
        if opt.arg_for_option is None {
            if next < args.len() {
                Ok((parsed(opt.app_option, Some(args[next]), opt.name_type_used), next + 1))
            } else if opt.app_option.arg_default is Some {
                Ok(
                    (
                        parsed(
                            opt.app_option,
                            opt_str_text(opt.app_option.arg_default),
                            opt.name_type_used,
                        ),
                        next,
                    ),
                )
            } else {
                Err(GenErrorView::ArgForOptionMissing(opt))
            }
        } else {
            Ok((opt, next))
        }
    } else if opt.arg_for_option is Some {
        Err(GenErrorView::ArgForOptionNotAllowed(opt))
    } else {
        Ok((opt, next))
    }
}

/// A long option `--name`, `--name=arg` or `--name arg`, at `args[i]`; the
/// name may be abbreviated as long as it stays unambiguous.
pub open spec fn spec_long_option(options: Seq<AppOption>, args: Seq<Seq<char>>, i: int) -> Result<
    ArgStep,
    GenErrorView,
> {
    let param = args[i];
    let eq = char_index(param, '=', 2);
    let name = param.take(eq);
    let arg: Option<Seq<char>> = if eq < param.len() {
        Some(param.skip(eq + 1))
    } else {
        None
    };
    let possible = matching_options(options, name.skip(2));
    if possible.len() == 0 {
        Err(GenErrorView::UnrecognizedOption(name))
    } else if possible.len() > 1 {
        Err(GenErrorView::AmbiguousOption(name, possible))
    } else {
        match spec_check_add_arg(
            parsed(possible[0], arg, OptionNameTypeUsed::LongName),
            args,
            i + 1,
        ) {
            Ok((o, n)) => Ok((seq![o], None, n)),
            Err(e) => Err(e),
        }
    }
}

/// A group of short options `-abc` at `args[i]`, from the character at `pos`
/// on. An option that takes an argument ends the group: its argument is the
/// rest of the group or, when that is empty, the next argument.
pub open spec fn spec_short_group(
    options: Seq<AppOption>,
    args: Seq<Seq<char>>,
    i: int,
    pos: int,
) -> Result<ArgStep, GenErrorView>
    decreases args[i].len() - pos,
{
    let param = args[i];
    if pos >= param.len() || pos < 0 {
        Ok((Seq::empty(), None, i + 1))
    } else {
        let k = short_index(options, param[pos], 0);
        if k >= options.len() {
            Err(GenErrorView::InvalidOption(param))
        } else {
            let opt = options[k];
            if opt.has_arg {
                if param.len() > pos + 1 {
                    Ok(
                        (
                            seq![parsed(opt, Some(param.skip(pos + 1)), OptionNameTypeUsed::ShortName)],
                            None,
                            i + 1,
                        ),
                    )
                } else if i + 1 < args.len() {
                    Ok(
                        (
                            seq![parsed(opt, Some(args[i + 1]), OptionNameTypeUsed::ShortName)],
                            None,
                            i + 2,
                        ),
                    )
                } else {
                    Err(
                        GenErrorView::ArgForOptionMissing(
                            parsed(opt, None, OptionNameTypeUsed::ShortName),
                        ),
                    )
                }
            } else {
                match spec_short_group(options, args, i, pos + 1) {
                    Ok((rest, _operand, n)) => Ok(
                        (
                            seq![parsed(opt, None, OptionNameTypeUsed::ShortName)] + rest,
                            None,
                            n,
                        ),
                    ),
                    Err(e) => Err(e),
                }
            }
        }
    }
}

/// What the argument `args[i]` contributes: an operand (anything not starting
/// with `-`, and `-` alone), a single short option `-x`, a long option
/// `--name...` or a group of short options `-xyz`.
pub open spec fn spec_parse_arg(options: Seq<AppOption>, args: Seq<Seq<char>>, i: int) -> Result<
    ArgStep,
    GenErrorView,
> {
    let param = args[i];
    if param[0] != '-' || param.len() == 1 {
        Ok((Seq::empty(), Some(param), i + 1))
    } else if param.len() == 2 {
        let k = short_index(options, param[1], 0);
        if k >= options.len() {
            Err(GenErrorView::InvalidOption(param))
        } else {
            match spec_check_add_arg(
                parsed(options[k], None, OptionNameTypeUsed::ShortName),
                args,
                i + 1,
            ) {
                Ok((o, n)) => Ok((seq![o], None, n)),
                Err(e) => Err(e),
            }
        }
    } else if param[1] == '-' {
        spec_long_option(options, args, i)
    } else {
        spec_short_group(options, args, i, 1)
    }
}

/// The result of parsing the arguments from `args[i]` on, after `acc` was
/// collected from those before.
pub open spec fn spec_parse_from(
    options: Seq<AppOption>,
    args: Seq<Seq<char>>,
    i: int,
    acc: ParamsGenView,
) -> Result<ParamsGenView, GenErrorView>
    decreases args.len() - i,
{
    if i >= args.len() {
        Ok(acc)
    } else {
        match spec_parse_arg(options, args, i) {
            Ok((items, operand, n)) => if i < n <= args.len() {
                spec_parse_from(
                    options,
                    args,
                    n,
                    ParamsGenView {
                        executable: acc.executable,
                        options_parsed: acc.options_parsed + items,
                        operands: match operand {
                            Some(o) => acc.operands.push(o),
                            None => acc.operands,
                        },
                    },
                )
            } else {
                Ok(acc)
            },
            Err(e) => Err(e),
        }
    }
}

/// What [`ParamsGen::parse_params`] gives for a command line: the first
/// argument is the executable's name, at least one operand must follow.
pub open spec fn spec_parse_params(options: Seq<AppOption>, args: Seq<Seq<char>>) -> Result<
    ParamsGenView,
    GenErrorView,
> {
    if args.len() == 0 {
        Err(GenErrorView::NoExecutable)
    } else {
        match spec_parse_from(
            options,
            args,
            1,
            ParamsGenView { executable: args[0], options_parsed: Seq::empty(), operands: Seq::empty() },
        ) {
            Ok(p) => if p.operands.len() == 0 {
                Err(GenErrorView::NoOperand)
            } else {
                Ok(p)
            },
            Err(e) => Err(e),
        }
    }
}

/// The view of what a step of the parser gives.
pub open spec fn step_view(r: Result<(Vec<ParsedOption>, Option<String>, usize), ParamsGenParseError>) -> Result<
    ArgStep,
    GenErrorView,
> {
    match r {
        Ok((items, operand, n)) => Ok((parsed_views(items@), opt_text(operand), n as int)),
        Err(e) => Err(e@),
    }
}

/// The next index a successful step gives lies after `i` and within the arguments.
pub open spec fn step_advances(
    r: Result<(Vec<ParsedOption>, Option<String>, usize), ParamsGenParseError>,
    i: int,
    len: int,
) -> bool {
    r matches Ok((_items, _operand, n)) ==> i < n <= len
}

impl ParamsGen {
    /// The index of the first option of the table whose short name is `c`,
    /// or the table's length.
    fn find_short(options: &[AppOption], c: char) -> (k: usize)
        ensures
            k as int == short_index(options@, c, 0),
    {
        let mut k: usize = 0;
        while k < options.len()
            invariant
                k <= options@.len(),
                short_index(options@, c, 0) == short_index(options@, c, k as int),
            decreases options.len() - k,
        {
            match options[k].short {
                Some(s) => {
                    if s == c {
                        return k;
                    }
                },
                None => {},
            }
            k = k + 1;
        }
        k
    }

    /// The options whose long name starts with `p[start..end]`.
    fn matching_range(options: &[AppOption], p: &Vec<char>, start: usize, end: usize) -> (r: Vec<
        AppOption,
    >)
        requires
            start <= end <= p@.len(),
        ensures
            r@ == matching_options(options@, p@.subrange(start as int, end as int)),
    {
        let ghost pre = p@.subrange(start as int, end as int);
        let mut r: Vec<AppOption> = Vec::new();
        let mut k: usize = 0;
        while k < options.len()
            invariant
                start <= end <= p@.len(),
                pre == p@.subrange(start as int, end as int),
                k <= options@.len(),
                r@ == matching_options(options@.take(k as int), pre),
            decreases options.len() - k,
        {
            let o = options[k];
            proof {
                assert(options@.take(k as int + 1).drop_last() =~= options@.take(k as int));
                assert(options@.take(k as int + 1).last() == o);
            }
            if starts_with(o.long_name, p, start, end) {
                r.push(o);
            }
            k = k + 1;
        }
        assert(options@.take(options@.len() as int) =~= options@);
        r
    }

    /// Returns the options whose long name starts with `opt`, in table order.
    pub fn identify_options_from_partial_text(app_options: &[AppOption], opt: &str) -> (r: Vec<
        AppOption,
    >)
        ensures
            r@ == matching_options(app_options@, opt@),
    {
        let p = chars_of(opt);
        assert(p@.subrange(0, p@.len() as int) =~= p@);
        Self::matching_range(app_options, &p, 0, p.len())
    }

    /// Parses a number as defined in <https://www.gnu.org/software/diffutils/manual/html_node/cmp-Options.html>. \
    /// e.g. 1024 or 1KiB
    pub fn parse_bytes(bytes: &str) -> (r: Result<Bytes, ParseBytesError>)
        ensures
            r == spec_parse_bytes(bytes@),
    {
        let s = chars_of(bytes);
        if s.len() == 0 {
            return Err(ParseBytesError::NoValue);
        }
        let mut k: usize = 0;
        while k < s.len() && '0' <= s[k] && s[k] <= '9'
            invariant
                k <= s@.len(),
                digits_end(s@, 0) == digits_end(s@, k as int),
            decreases s.len() - k,
        {
            k = k + 1;
        }
        proof {
            lemma_digits_end(s@, 0);
            assert(all_digits(s@.take(k as int)));
        }
        if k == 0 {
            return Err(ParseBytesError::InvalidNumber);
        }
        let multiplier: u64 = if k < s.len() {
            match unit_of(&s, k) {
                Ok(m) => m,
                Err(e) => {
                    return Err(e);
                },
            }
        } else {
            1
        };
        let ghost m: nat = multiplier as nat;
        assert(m >= 1);
        match decimal_prefix(&s, k) {
            Some(num) => {
                if multiplier == 1 {
                    assert(num * m == num);
                    Ok(num)
                } else {
                    match num.checked_mul(multiplier) {
                        Some(v) => Ok(v),
                        None => Err(ParseBytesError::PosOverflow),
                    }
                }
            },
            None => {
                proof {
                    let dv = decimal_value(s@.take(k as int));
                    assert(dv * m >= dv) by (nonlinear_arith)
                        requires
                            m >= 1,
                    ;
                }
                Err(ParseBytesError::PosOverflow)
            },
        }
    }

    /// Returns a multiplier depending on the given unit, e.g. 'KiB' -> 1024,
    /// which then can be used to calculate the final number of bytes.
    /// Following GNU documentation: https://www.gnu.org/software/diffutils/manual/html_node/cmp-Options.html
    pub fn parse_number_unit(unit: &str) -> (r: Result<Bytes, ParseBytesError>)
        ensures
            r == spec_parse_number_unit(unit@),
    {
        let u = chars_of(unit);
        assert(u@.skip(0) =~= u@);
        unit_of(&u, 0)
    }
}

impl ParsedOption {
    /// Completes the option with its argument: an option that takes an
    /// argument and has none yet takes `args[*next]`, or its default when
    /// `args` has no more; an option that takes none must have none.
    pub fn check_add_arg(&mut self, args: &Vec<String>, next: &mut usize) -> (r: Result<
        (),
        ParamsGenParseError,
    >)
        requires
            *old(next) <= args@.len(),
        ensures
            match spec_check_add_arg(old(self)@, texts(args@), *old(next) as int) {
                Ok((o, n)) => r is Ok && final(self)@ == o && *final(next) as int == n,
                Err(e) => r matches Err(x) && x@ == e && final(self)@ == old(self)@
                    && *final(next) == *old(next),
            },
    {
        if self.app_option.has_arg {
            if self.arg_for_option.is_none() {
                if *next < args.len() {
                    self.arg_for_option = Some(args[*next].clone());
                    *next = *next + 1;
                } else {
                    match self.app_option.arg_default {
                        Some(d) => {
                            self.arg_for_option = Some(d.to_owned());
                        },
                        None => {
                            return Err(ParamsGenParseError::ArgForOptionMissing(self.clone()));
                        },
                    }
                }
            }
        } else {
            if self.arg_for_option.is_some() {
                return Err(ParamsGenParseError::ArgForOptionNotAllowed(self.clone()));
            }
        }
        Ok(())
    }
}

/// The views of two vectors of options put together.
pub proof fn lemma_parsed_views_add(a: Seq<ParsedOption>, b: Seq<ParsedOption>)
    ensures
        parsed_views(a + b) == parsed_views(a) + parsed_views(b),
{
    assert(parsed_views(a + b) =~= parsed_views(a) + parsed_views(b));
}

impl ParamsGen {
    /// A long option at `args[i]`, whose characters are `p`.
    fn parse_long_option(options: &[AppOption], args: &Vec<String>, i: usize, p: &Vec<char>) -> (r:
        Result<(Vec<ParsedOption>, Option<String>, usize), ParamsGenParseError>)
        requires
            1 <= i < args@.len(),
            p@ == args@[i as int]@,
            p@.len() >= 3,
            p@[1] == '-',
        ensures
            step_view(r) == spec_long_option(options@, texts(args@), i as int),
            step_advances(r, i as int, args@.len() as int),
    {
        let ghost param = texts(args@)[i as int];
        assert(param == p@);
        let len = args.len();
        let mut eq: usize = 2;
        while eq < p.len() && p[eq] != '='
            invariant
                2 <= eq <= p@.len(),
                char_index(p@, '=', 2) == char_index(p@, '=', eq as int),
            decreases p.len() - eq,
        {
            eq = eq + 1;
        }
        assert(char_index(p@, '=', eq as int) == eq as int);
        let name = string_of_range(p, 0, eq);
        assert(p@.subrange(0, eq as int) =~= param.take(eq as int));
        let arg = if eq < p.len() {
            let a = string_of_range(p, eq + 1, p.len());
            assert(p@.subrange(eq as int + 1, p@.len() as int) =~= param.skip(eq as int + 1));
            Some(a)
        } else {
            None
        };
        let possible = Self::matching_range(options, p, 2, eq);
        assert(p@.subrange(2, eq as int) =~= param.take(eq as int).skip(2));
        if possible.len() == 0 {
            return Err(ParamsGenParseError::UnrecognizedOption(name));
        }
        if possible.len() > 1 {
            return Err(ParamsGenParseError::AmbiguousOption(name, possible));
        }
        let mut o = ParsedOption {
            app_option: possible[0],
            arg_for_option: arg,
            name_type_used: OptionNameTypeUsed::LongName,
        };
        let mut next = i + 1;
        match o.check_add_arg(args, &mut next) {
            Ok(()) => {
                let mut v: Vec<ParsedOption> = Vec::new();
                v.push(o);
                assert(parsed_views(v@) =~= seq![o@]);
                Ok((v, None, next))
            },
            Err(e) => Err(e),
        }
    }

    /// A group of short options at `args[i]`, whose characters are `p`, from
    /// position `pos` on.
    fn parse_short_group(
        options: &[AppOption],
        args: &Vec<String>,
        i: usize,
        p: &Vec<char>,
        pos: usize,
    ) -> (r: Result<(Vec<ParsedOption>, Option<String>, usize), ParamsGenParseError>)
        requires
            1 <= i < args@.len(),
            p@ == args@[i as int]@,
            1 <= pos < p@.len(),
        ensures
            step_view(r) == spec_short_group(options@, texts(args@), i as int, pos as int),
            step_advances(r, i as int, args@.len() as int),
        decreases p@.len() - pos,
    {
        let ghost a = texts(args@);
        assert(a[i as int] == p@);
        let len = args.len();
        let plen = p.len();
        let k = Self::find_short(options, p[pos]);
        if k >= options.len() {
            return Err(ParamsGenParseError::InvalidOption(args[i].clone()));
        }
        let opt = options[k];
        if opt.has_arg {
            let arg = if p.len() > pos + 1 {
                let rest = string_of_range(p, pos + 1, p.len());
                assert(p@.subrange(pos as int + 1, p@.len() as int) =~= p@.skip(pos as int + 1));
                (rest, i + 1)
            } else if i + 1 < args.len() {
                (args[i + 1].clone(), i + 2)
            } else {
                return Err(
                    ParamsGenParseError::ArgForOptionMissing(
                        ParsedOption::new_none(opt, OptionNameTypeUsed::ShortName),
                    ),
                );
            };
            let (text, next) = arg;
            let mut v: Vec<ParsedOption> = Vec::new();
            v.push(ParsedOption::new(opt, text, OptionNameTypeUsed::ShortName));
            assert(parsed_views(v@) =~= seq![v@[0]@]);
            Ok((v, None, next))
        } else {
            let mut v: Vec<ParsedOption> = Vec::new();
            v.push(ParsedOption::new_none(opt, OptionNameTypeUsed::ShortName));
            assert(parsed_views(v@) =~= seq![v@[0]@]);
            if pos + 1 < p.len() {
                match Self::parse_short_group(options, args, i, p, pos + 1) {
                    Ok((rest, _operand, next)) => {
                        let mut rest = rest;
                        proof {
                            lemma_parsed_views_add(v@, rest@);
                        }
                        v.append(&mut rest);
                        Ok((v, None, next))
                    },
                    Err(e) => Err(e),
                }
            } else {
                assert(seq![v@[0]@] + Seq::<ParsedOptionView>::empty() =~= seq![v@[0]@]);
                Ok((v, None, i + 1))
            }
        }
    }

    /// What the argument `args[i]` contributes.
    pub(crate) fn parse_arg(options: &[AppOption], args: &Vec<String>, i: usize) -> (r: Result<
        (Vec<ParsedOption>, Option<String>, usize),
        ParamsGenParseError,
    >)
        requires
            1 <= i < args@.len(),
            args_wf(texts(args@)),
        ensures
            step_view(r) == spec_parse_arg(options@, texts(args@), i as int),
            step_advances(r, i as int, args@.len() as int),
    {
        let ghost a = texts(args@);
        let len = args.len();
        let p = chars_of(args[i].as_str());
        assert(a[i as int] == p@);
        assert(p@.len() > 0);
        if p[0] != '-' || p.len() == 1 {
            let v: Vec<ParsedOption> = Vec::new();
            assert(parsed_views(v@) =~= Seq::<ParsedOptionView>::empty());
            return Ok((v, Some(args[i].clone()), i + 1));
        }
        if p.len() == 2 {
            let k = Self::find_short(options, p[1]);
            if k >= options.len() {
                return Err(ParamsGenParseError::InvalidOption(args[i].clone()));
            }
            let mut o = ParsedOption::new_none(options[k], OptionNameTypeUsed::ShortName);
            let mut next = i + 1;
            match o.check_add_arg(args, &mut next) {
                Ok(()) => {
                    let mut v: Vec<ParsedOption> = Vec::new();
                    v.push(o);
                    assert(parsed_views(v@) =~= seq![o@]);
                    Ok((v, None, next))
                },
                Err(e) => Err(e),
            }
        } else if p[1] == '-' {
            Self::parse_long_option(options, args, i, &p)
        } else {
            Self::parse_short_group(options, args, i, &p, 1)
        }
    }

    /// Parses the command line `args`, whose first element is the name of
    /// the executable, against the options of `arg_options`.
    pub fn parse_params(arg_options: &[AppOption], args: &Vec<String>) -> (r: Result<
        ParamsGen,
        ParamsGenParseError,
    >)
        requires
            args_wf(texts(args@)),
        ensures
            gen_result_view(r) == spec_parse_params(arg_options@, texts(args@)),
    {
        let ghost a = texts(args@);
        if args.len() == 0 {
            return Err(ParamsGenParseError::NoExecutable);
        }
        let mut params = ParamsGen {
            executable: args[0].clone(),
            options_parsed: Vec::new(),
            operands: Vec::new(),
        };
        assert(params@.options_parsed =~= Seq::<ParsedOptionView>::empty());
        assert(params@.operands =~= Seq::<Seq<char>>::empty());
        let ghost init = params@;
        assert(init == ParamsGenView {
            executable: a[0],
            options_parsed: Seq::empty(),
            operands: Seq::empty(),
        });
        let mut i: usize = 1;
        while i < args.len()
            invariant
                1 <= i <= args@.len(),
                a == texts(args@),
                args_wf(a),
                init == (ParamsGenView {
                    executable: a[0],
                    options_parsed: Seq::empty(),
                    operands: Seq::empty(),
                }),
                spec_parse_from(arg_options@, a, 1, init) == spec_parse_from(
                    arg_options@,
                    a,
                    i as int,
                    params@,
                ),
            decreases args.len() - i,
        {
            match Self::parse_arg(arg_options, args, i) {
                Ok((items, operand, n)) => {
                    let ghost before = params@;
                    let mut items = items;
                    proof {
                        lemma_parsed_views_add(params.options_parsed@, items@);
                    }
                    params.options_parsed.append(&mut items);
                    match operand {
                        Some(o) => {
                            params.operands.push(o);
                            assert(texts(params.operands@) =~= before.operands.push(o@));
                        },
                        None => {},
                    }
                    i = n;
                },
                Err(e) => {
                    return Err(e);
                },
            }
        }
        if params.operands.len() == 0 {
            return Err(ParamsGenParseError::NoOperand);
        }
        Ok(params)
    }
}

// ---------------------------------------------------------------------------
// Every option the parser reports is one of the table's options.
// ---------------------------------------------------------------------------

/// A parsed option holds an option of the table, with an argument exactly
/// when that option takes one.
pub open spec fn item_wf(options: Seq<AppOption>, o: ParsedOptionView) -> bool {
    &&& options.contains(o.app_option)
    &&& o.app_option.has_arg <==> o.arg_for_option is Some
}

/// Every parsed option of `items` is an option of the table, with an
/// argument exactly when that option takes one.
pub open spec fn from_table(options: Seq<AppOption>, items: Seq<ParsedOptionView>) -> bool {
    forall|j: int| 0 <= j < items.len() ==> item_wf(options, #[trigger] items[j])
}

proof fn lemma_check_add_arg_wf(options: Seq<AppOption>, opt: ParsedOptionView, args: Seq<Seq<char>>, next: int)
    requires
        options.contains(opt.app_option),
    ensures
        spec_check_add_arg(opt, args, next) matches Ok((o, _n)) ==> item_wf(options, o),
{
}

proof fn lemma_short_group_from_table(
    options: Seq<AppOption>,
    args: Seq<Seq<char>>,
    i: int,
    pos: int,
)
    requires
        0 <= i < args.len(),
    ensures
        spec_short_group(options, args, i, pos) matches Ok((items, _o, _n)) ==> from_table(
            options,
            items,
        ),
    decreases args[i].len() - pos,
{
    let param = args[i];
    if 0 <= pos < param.len() {
        let k = short_index(options, param[pos], 0);
        lemma_short_index(options, param[pos], 0);
        if k < options.len() {
            assert(options[k] == options[k]);
            assert(options.contains(options[k]));
            if !options[k].has_arg {
                lemma_short_group_from_table(options, args, i, pos + 1);
                if let Ok((rest, _o, _n)) = spec_short_group(options, args, i, pos + 1) {
                    let items = seq![parsed(options[k], None, OptionNameTypeUsed::ShortName)] + rest;
                    assert forall|j: int| 0 <= j < items.len() implies item_wf(
                        options,
                        #[trigger] items[j],
                    ) by {
                        if j > 0 {
                            assert(items[j] == rest[j - 1]);
                        }
                    }
                }
            }
        }
    }
}

pub proof fn lemma_parse_arg_from_table(options: Seq<AppOption>, args: Seq<Seq<char>>, i: int)
    requires
        0 <= i < args.len(),
    ensures
        spec_parse_arg(options, args, i) matches Ok((items, _o, _n)) ==> from_table(
            options,
            items,
        ),
{
    let param = args[i];
    if param[0] != '-' || param.len() == 1 {
    } else if param.len() == 2 {
        let k = short_index(options, param[1], 0);
        lemma_short_index(options, param[1], 0);
        if k < options.len() {
            assert(options.contains(options[k]));
            lemma_check_add_arg_wf(options, parsed(options[k], None, OptionNameTypeUsed::ShortName), args, i + 1);
        }
    } else if param[1] == '-' {
        let eq = char_index(param, '=', 2);
        let possible = matching_options(options, param.take(eq).skip(2));
        lemma_matching_options_in_table(options, param.take(eq).skip(2));
        if possible.len() == 1 {
            assert(options.contains(possible[0]));
            let arg: Option<Seq<char>> = if eq < param.len() {
                Some(param.skip(eq + 1))
            } else {
                None
            };
            lemma_check_add_arg_wf(options, parsed(possible[0], arg, OptionNameTypeUsed::LongName), args, i + 1);
        }
    } else {
        lemma_short_group_from_table(options, args, i, 1);
    }
}

proof fn lemma_parse_from_table(
    options: Seq<AppOption>,
    args: Seq<Seq<char>>,
    i: int,
    acc: ParamsGenView,
)
    requires
        0 <= i,
        from_table(options, acc.options_parsed),
    ensures
        spec_parse_from(options, args, i, acc) matches Ok(p) ==> from_table(
            options,
            p.options_parsed,
        ),
    decreases args.len() - i,
{
    if i < args.len() {
        lemma_parse_arg_from_table(options, args, i);
        if let Ok((items, operand, n)) = spec_parse_arg(options, args, i) {
            if i < n <= args.len() {
                let next = ParamsGenView {
                    executable: acc.executable,
                    options_parsed: acc.options_parsed + items,
                    operands: match operand {
                        Some(o) => acc.operands.push(o),
                        None => acc.operands,
                    },
                };
                assert forall|j: int| 0 <= j < next.options_parsed.len() implies item_wf(
                    options,
                    #[trigger] next.options_parsed[j],
                ) by {
                    if j >= acc.options_parsed.len() {
                        assert(next.options_parsed[j] == items[j - acc.options_parsed.len()]);
                    }
                }
                lemma_parse_from_table(options, args, n, next);
            }
        }
    }
}

/// A lone `-` is the file standard input: whatever the options, the
/// argument `-` is read as an operand, and no option.
pub proof fn lemma_dash_is_operand(options: Seq<AppOption>, args: Seq<Seq<char>>, i: int)
    requires
        0 <= i < args.len(),
        args[i] == "-"@,
    ensures
        spec_parse_arg(options, args, i) == Ok::<ArgStep, GenErrorView>(
            (Seq::<ParsedOptionView>::empty(), Some("-"@), i + 1),
        ),
{
    reveal_strlit("-");
}

/// Is `a` an operand as it stands: `-`, or a text that does not start
/// with a dash?
pub open spec fn plain_operand(a: Seq<char>) -> bool {
    a == "-"@ || (a.len() > 0 && a[0] != '-')
}

proof fn lemma_plain_operands_from(
    options: Seq<AppOption>,
    args: Seq<Seq<char>>,
    i: int,
    acc: ParamsGenView,
)
    requires
        1 <= i <= args.len(),
        forall|j: int| 1 <= j < args.len() ==> plain_operand(#[trigger] args[j]),
    ensures
        spec_parse_from(options, args, i, acc) == Ok::<ParamsGenView, GenErrorView>(
            ParamsGenView {
                executable: acc.executable,
                options_parsed: acc.options_parsed,
                operands: acc.operands + args.subrange(i, args.len() as int),
            },
        ),
    decreases args.len() - i,
{
    reveal_strlit("-");
    if i < args.len() {
        assert(plain_operand(args[i]));
        assert(args[i].len() > 0);
        let next = ParamsGenView {
            executable: acc.executable,
            options_parsed: acc.options_parsed + Seq::<ParsedOptionView>::empty(),
            operands: acc.operands.push(args[i]),
        };
        lemma_plain_operands_from(options, args, i + 1, next);
        assert(acc.options_parsed + Seq::<ParsedOptionView>::empty() =~= acc.options_parsed);
        assert(acc.operands.push(args[i]) + args.subrange(i + 1, args.len() as int)
            =~= acc.operands + args.subrange(i, args.len() as int));
    } else {
        assert(acc.operands + args.subrange(i, args.len() as int) =~= acc.operands);
    }
}

/// A command line of operands only, `-` among them perhaps, parses to
/// those operands, in their order, and no option.
pub proof fn lemma_plain_operands(options: Seq<AppOption>, args: Seq<Seq<char>>)
    requires
        args.len() >= 2,
        forall|j: int| 1 <= j < args.len() ==> plain_operand(#[trigger] args[j]),
    ensures
        spec_parse_params(options, args) == Ok::<ParamsGenView, GenErrorView>(
            ParamsGenView {
                executable: args[0],
                options_parsed: Seq::empty(),
                operands: args.skip(1),
            },
        ),
{
    let init = ParamsGenView {
        executable: args[0],
        options_parsed: Seq::empty(),
        operands: Seq::empty(),
    };
    lemma_plain_operands_from(options, args, 1, init);
    assert(Seq::<Seq<char>>::empty() + args.subrange(1, args.len() as int) =~= args.skip(1));
}

/// Every option the parser reports is one of the options of the table it
/// was given, and it comes with an argument exactly when that option takes one.
pub proof fn lemma_parse_params_from_table(options: Seq<AppOption>, args: Seq<Seq<char>>)
    ensures
        spec_parse_params(options, args) matches Ok(p) ==> from_table(options, p.options_parsed),
{
    if args.len() > 0 {
        lemma_parse_from_table(
            options,
            args,
            1,
            ParamsGenView { executable: args[0], options_parsed: Seq::empty(), operands: Seq::empty() },
        );
    }
}

// ---------------------------------------------------------------------------
// Error messages.
// ---------------------------------------------------------------------------

/// A message prefixed with the executable's name and followed by the help hint.
pub open spec fn with_hint(msg: Seq<char>) -> Seq<char> {
    EXE_NAME@ + ": "@ + msg + "\n"@ + EXE_NAME@ + ": "@ + TEXT_HELP_HINT@
}

/// The long names of the options, each as `'--name'`, separated by blanks.
pub open spec fn option_list(opts: Seq<AppOption>) -> Seq<char>
    decreases opts.len(),
{
    if opts.len() == 0 {
        Seq::empty()
    } else if opts.len() == 1 {
        "'--"@ + opts[0].long_name@ + "'"@
    } else {
        option_list(opts.drop_last()) + " "@ + "'--"@ + opts.last().long_name@ + "'"@
    }
}

/// A message prefixed with the name `exe` of an executable and followed by
/// the hint where its help is found.
pub open spec fn hint_for(exe: Seq<char>, msg: Seq<char>) -> Seq<char> {
    exe + ": "@ + msg + "\n"@ + exe + ": Try '"@ + exe + " --help' for more information."@
}

/// The message of a parse error of the executable `exe`, without the
/// executable's name before it and the help hint after it.
pub open spec fn gen_error_body(e: GenErrorView, exe: Seq<char>) -> Seq<char> {
    match e {
        GenErrorView::AmbiguousOption(param, opts) => "option '"@ + param
            + "' is ambiguous; possibilities: "@ + option_list(opts),
        GenErrorView::ArgForOptionNotAllowed(o) => "option '"@ + o.app_option.long_name@
            + "' doesn't allow an argument"@,
        GenErrorView::ArgForOptionMissing(o) => "option "@ + o.app_option.long_name@
            + " requires an argument"@,
        GenErrorView::NoExecutable => "This program must be called with '"@ + exe
            + "' and its parameters."@,
        GenErrorView::InvalidOption(opt) => "invalid option '"@ + opt + "'"@,
        GenErrorView::NoOperand => "missing operand after '"@ + exe + "'"@,
        GenErrorView::UnrecognizedOption(opt) => "unrecognized option '"@ + opt + "'"@,
    }
}

/// The message of a parse error: the body with the executable's name and
/// the help hint, but for a missing executable, which has the body alone.
pub open spec fn gen_error_text(e: GenErrorView) -> Seq<char> {
    match e {
        GenErrorView::NoExecutable => gen_error_body(e, EXE_NAME@),
        _ => with_hint(gen_error_body(e, EXE_NAME@)),
    }
}

/// `msg` prefixed with the executable's name and followed by the help hint.
pub fn hinted(msg: &str) -> (r: String)
    ensures
        r@ == with_hint(msg@),
{
    let mut r = String::new();
    r.append(EXE_NAME);
    r.append(": ");
    r.append(msg);
    r.append("\n");
    r.append(EXE_NAME);
    r.append(": ");
    r.append(TEXT_HELP_HINT);
    assert(r@ =~= with_hint(msg@));
    r
}

/// Appends the list of the options' long names to `s`.
fn append_option_list(s: &mut String, opts: &Vec<AppOption>)
    ensures
        final(s)@ == old(s)@ + option_list(opts@),
{
    let mut k: usize = 0;
    while k < opts.len()
        invariant
            k <= opts@.len(),
            s@ == old(s)@ + option_list(opts@.take(k as int)),
        decreases opts.len() - k,
    {
        let ghost before = s@;
        if k > 0 {
            s.append(" ");
        }
        s.append("'--");
        s.append(opts[k].long_name);
        s.append("'");
        proof {
            let t = opts@.take(k as int + 1);
            assert(t.drop_last() =~= opts@.take(k as int));
            assert(t.last() == opts@[k as int]);
            if k == 0 {
                assert(s@ =~= old(s)@ + option_list(t));
            } else {
                assert(s@ =~= old(s)@ + option_list(t));
            }
        }
        k = k + 1;
    }
    assert(opts@.take(opts@.len() as int) =~= opts@);
}

/// `msg` prefixed with the name `exe` and followed by the help hint of `exe`.
pub fn hinted_for(exe: &str, msg: &str) -> (r: String)
    ensures
        r@ == hint_for(exe@, msg@),
{
    let mut r = String::new();
    r.append(exe);
    r.append(": ");
    r.append(msg);
    r.append("\n");
    r.append(exe);
    r.append(": Try '");
    r.append(exe);
    r.append(" --help' for more information.");
    assert(r@ =~= hint_for(exe@, msg@));
    r
}

impl ParamsGenParseError {
    /// The message of the error for the executable `exe`, without its name
    /// before it and the help hint after it.
    pub fn body(&self, exe: &str) -> (r: String)
        ensures
            r@ == gen_error_body(self@, exe@),
    {
        let mut m = String::new();
        match self {
            ParamsGenParseError::AmbiguousOption(param, possible_opts) => {
                m.append("option '");
                m.append(param.as_str());
                m.append("' is ambiguous; possibilities: ");
                append_option_list(&mut m, possible_opts);
            },
            ParamsGenParseError::ArgForOptionNotAllowed(opt) => {
                m.append("option '");
                m.append(opt.app_option.long_name);
                m.append("' doesn't allow an argument");
            },
            ParamsGenParseError::ArgForOptionMissing(opt) => {
                m.append("option ");
                m.append(opt.app_option.long_name);
                m.append(" requires an argument");
            },
            ParamsGenParseError::NoExecutable => {
                m.append("This program must be called with '");
                m.append(exe);
                m.append("' and its parameters.");
            },
            ParamsGenParseError::InvalidOption(opt) => {
                m.append("invalid option '");
                m.append(opt.as_str());
                m.append("'");
            },
            ParamsGenParseError::NoOperand => {
                m.append("missing operand after '");
                m.append(exe);
                m.append("'");
            },
            ParamsGenParseError::UnrecognizedOption(opt) => {
                m.append("unrecognized option '");
                m.append(opt.as_str());
                m.append("'");
            },
        }
        assert(m@ =~= gen_error_body(self@, exe@));
        m
    }

    /// The message of the error, as the user of cmp sees it.
    pub fn message(&self) -> (r: String)
        ensures
            r@ == gen_error_text(self@),
    {
        let b = self.body(EXE_NAME);
        match self {
            ParamsGenParseError::NoExecutable => b,
            _ => hinted(b.as_str()),
        }
    }
}

// ---------------------------------------------------------------------------
// The options every utility has.
// ---------------------------------------------------------------------------

/// `--help`: display the help text and exit.
pub open spec fn spec_opt_help() -> AppOption {
    AppOption { long_name: "help", short: None, has_arg: false, arg_default: None }
}

/// `-v`, `--version`: display the version text and exit.
pub open spec fn spec_opt_version() -> AppOption {
    AppOption { long_name: "version", short: Some('v'), has_arg: false, arg_default: None }
}

/// `--help`: display the help text and exit.
pub fn opt_help() -> (o: AppOption)
    ensures
        o == spec_opt_help(),
{
    AppOption { long_name: "help", short: None, has_arg: false, arg_default: None }
}

/// `-v`, `--version`: display the version text and exit.
pub fn opt_version() -> (o: AppOption)
    ensures
        o == spec_opt_version(),
{
    AppOption { long_name: "version", short: Some('v'), has_arg: false, arg_default: None }
}

// ---------------------------------------------------------------------------
// What a byte value reads back as.
// ---------------------------------------------------------------------------

/// The decimal text of a number is all digits and reads back as the number.
pub proof fn lemma_decimal_digits(n: nat)
    ensures
        decimal(n).len() >= 1,
        all_digits(decimal(n)),
        decimal_value(decimal(n)) == n,
    decreases n,
{
    if n >= 10 {
        lemma_decimal_digits(n / 10);
        let d = decimal(n);
        assert(d.drop_last() =~= decimal(n / 10));
        assert(d.last() == digit_char(n % 10));
        assert(digit_value(digit_char(n % 10)) == n % 10);
        assert(decimal_value(d) == decimal_value(d.drop_last()) * 10 + digit_value(d.last()));
        assert forall|i: int| 0 <= i < d.len() implies is_digit(#[trigger] d[i]) by {
            if i < d.len() - 1 {
                assert(d[i] == decimal(n / 10)[i]);
            }
        }
    } else {
        assert(decimal(n).drop_last() =~= Seq::<char>::empty());
        assert(digit_value(digit_char(n)) == n);
        assert(decimal_value(decimal(n)) == decimal_value(decimal(n).drop_last()) * 10 + digit_value(
            decimal(n).last(),
        ));
    }
}

/// The digits of `s` run up to its end where all of it is digits.
proof fn lemma_digits_end_all(s: Seq<char>, k: int)
    requires
        0 <= k <= s.len(),
        forall|j: int| k <= j < s.len() ==> is_digit(#[trigger] s[j]),
    ensures
        digits_end(s, k) == s.len(),
    decreases s.len() - k,
{
    if k < s.len() {
        lemma_digits_end_all(s, k + 1);
    }
}

/// The digits of `d + u` end where `d` ends, `d` all digits and `u`
/// starting with none.
proof fn lemma_digits_end_before(d: Seq<char>, u: Seq<char>, k: int)
    requires
        0 <= k <= d.len(),
        all_digits(d),
        u.len() > 0,
        !is_digit(u[0]),
    ensures
        digits_end(d + u, k) == d.len(),
    decreases d.len() - k,
{
    let s = d + u;
    if k < d.len() {
        assert(s[k] == d[k]);
        lemma_digits_end_before(d, u, k + 1);
    } else {
        assert(s[k] == u[0]);
    }
}

/// A plain number, as `to_string` writes it, reads back as itself.
pub proof fn lemma_parse_bytes_decimal(n: u64)
    ensures
        spec_parse_bytes(decimal(n as nat)) == Ok::<u64, ParseBytesError>(n),
{
    let d = decimal(n as nat);
    lemma_decimal_digits(n as nat);
    lemma_digits_end_all(d, 0);
    assert(d.take(d.len() as int) =~= d);
}

/// A number followed by a unit reads as the number times the multiplier of
/// the unit (`K` 1024, `KB` 1000, `KiB` 1024, and so on up to `E`), or as
/// too large where the product does not fit in 64 bits.
pub proof fn lemma_parse_bytes_with_unit(n: u64, u: Seq<char>)
    requires
        unit_multiplier(u) is Some,
    ensures
        spec_parse_bytes(decimal(n as nat) + u) == if n * unit_multiplier(u)->0 <= u64::MAX {
            Ok::<u64, ParseBytesError>((n * unit_multiplier(u)->0) as u64)
        } else {
            Err(ParseBytesError::PosOverflow)
        },
{
    let d = decimal(n as nat);
    let s = d + u;
    lemma_decimal_digits(n as nat);
    assert(!is_digit(u[0]));
    lemma_digits_end_before(d, u, 0);
    assert(s.take(d.len() as int) =~= d);
    assert(s.skip(d.len() as int) =~= u);
}

// ---------------------------------------------------------------------------
// Abbreviated long options.
// ---------------------------------------------------------------------------

/// The options whose long name starts with `full` are those among the ones
/// starting with `p` whose name starts with `full`, where `p` starts `full`.
proof fn lemma_matching_refine(options: Seq<AppOption>, p: Seq<char>, full: Seq<char>)
    requires
        p.is_prefix_of(full),
    ensures
        matching_options(options, full) == matching_options(matching_options(options, p), full),
    decreases options.len(),
{
    if options.len() > 0 {
        lemma_matching_refine(options.drop_last(), p, full);
        let last = options.last();
        let m = matching_options(options.drop_last(), p);
        if full.is_prefix_of(last.long_name@) {
            assert(p.is_prefix_of(last.long_name@)) by {
                assert forall|j: int| 0 <= j < p.len() implies p[j] == last.long_name@[j] by {
                    assert(p[j] == full[j]);
                }
            }
        }
        if p.is_prefix_of(last.long_name@) {
            assert(m.push(last).drop_last() =~= m);
        }
    }
}

/// Every option that matches `p` has a long name that starts with `p`.
proof fn lemma_matching_prefix(options: Seq<AppOption>, p: Seq<char>)
    ensures
        forall|j: int|
            0 <= j < matching_options(options, p).len() ==> p.is_prefix_of(
                (#[trigger] matching_options(options, p)[j]).long_name@,
            ),
    decreases options.len(),
{
    if options.len() > 0 {
        lemma_matching_prefix(options.drop_last(), p);
        let r = matching_options(options.drop_last(), p);
        assert forall|j: int| 0 <= j < matching_options(options, p).len() implies p.is_prefix_of(
            (#[trigger] matching_options(options, p)[j]).long_name@,
        ) by {
            if j < r.len() {
                assert(matching_options(options, p)[j] == r[j]);
            }
        }
    }
}

/// An unambiguous abbreviation of a long option reads as the option
/// itself: `--verb` as `--verbose`, with the same option, argument and
/// errors.
pub proof fn lemma_abbreviation(options: Seq<AppOption>, args: Seq<Seq<char>>, i: int)
    requires
        0 <= i < args.len(),
        args[i].len() > 2,
        args[i][0] == '-',
        args[i][1] == '-',
        char_index(args[i], '=', 2) == args[i].len(),
        matching_options(options, args[i].skip(2)).len() == 1,
        char_index(matching_options(options, args[i].skip(2))[0].long_name@, '=', 0)
            == matching_options(options, args[i].skip(2))[0].long_name@.len(),
    ensures
        spec_parse_arg(options, args, i) == spec_parse_arg(
            options,
            args.update(
                i,
                "--"@ + matching_options(options, args[i].skip(2))[0].long_name@,
            ),
            i,
        ),
{
    let p = args[i].skip(2);
    let x = matching_options(options, p)[0];
    let full = x.long_name@;
    let param2 = "--"@ + full;
    let args2 = args.update(i, param2);
    lemma_matching_prefix(options, p);
    assert(p.is_prefix_of(full));
    assert(full.len() > 0);
    reveal_strlit("--");
    assert(param2.len() > 2);
    assert(param2[0] == '-' && param2[1] == '-');
    assert(param2.skip(2) =~= full);
    lemma_char_index(full, '=', 0);
    lemma_char_index(param2, '=', 2);
    if char_index(param2, '=', 2) < param2.len() {
        let q = char_index(param2, '=', 2);
        assert(full[q - 2] == '=');
    }
    assert(param2.take(param2.len() as int) =~= param2);
    assert(args[i].take(args[i].len() as int) =~= args[i]);
    lemma_matching_refine(options, p, full);
    let m = matching_options(options, p);
    assert(m =~= seq![x]);
    assert(seq![x].drop_last() =~= Seq::<AppOption>::empty());
    assert(full.is_prefix_of(x.long_name@)) by {
        assert(x.long_name@.subrange(0, full.len() as int) =~= full);
    }
    assert(matching_options(Seq::<AppOption>::empty(), full) == Seq::<AppOption>::empty());
    assert(seq![x].last() == x);
    assert(matching_options(seq![x], full) =~= Seq::<AppOption>::empty().push(x));
    assert forall|j: int| i + 1 <= j < args.len() implies args2[j] == args[j] by {}
    assert(args2.len() == args.len());
}

} // verus!
