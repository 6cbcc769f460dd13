//! Writes the option definitions of a utility from its help text.
//!
//! The lines of a help text that start with a dash name an option; from
//! them come the constants of the options, their table, the parameter
//! struct and the match that fills it in.
use vstd::prelude::*;

use crate::params_gen::{char_index, lemma_char_index, texts};
use crate::text::{chars_of, decimal, itoa_decimal, push_char};

verus! {

// ---------------------------------------------------------------------------
// Characters.
// ---------------------------------------------------------------------------

/// `c` with an ASCII lowercase letter turned to uppercase.
pub open spec fn ascii_upper(c: char) -> char {
    if 'a' <= c && c <= 'z' {
        (((c as u32) - 32) as u8) as char
    } else {
        c
    }
}

/// `c` with an ASCII uppercase letter turned to lowercase.
pub open spec fn ascii_lower(c: char) -> char {
    if 'A' <= c && c <= 'Z' {
        (((c as u32) + 32) as u8) as char
    } else {
        c
    }
}

/// `c` with a dash turned to an underscore.
pub open spec fn dash_to_underscore(c: char) -> char {
    if c == '-' {
        '_'
    } else {
        c
    }
}

/// The first character of the uppercase form of `c`, as
/// `char::to_uppercase` gives it.
pub uninterp spec fn upper_first(c: char) -> char;

/// `char::to_uppercase`, first character.
///
/// Trusted: the contract claims that the result is a function of `c`, and
/// that on ASCII characters it is `to_ascii_uppercase`, as the documentation
/// of `char::to_uppercase` says. What it gives for other characters (the
/// Unicode case mapping) is left unsaid.
#[verifier::external_body]
fn to_upper_first(c: char) -> (r: char)
    ensures
        r == upper_first(c),
        (c as u32) < 128 ==> r == ascii_upper(c),
{
    c.to_uppercase().next().unwrap_or(c)
}

/// The `Debug` text of a character: the character in single quotes, with
/// escapes.
pub uninterp spec fn char_debug_text(c: char) -> Seq<char>;

/// The `Debug` text of a character, written by `format!("{:?}", c)`.
///
/// Trusted: the contract claims that the text is a function of `c`, and
/// that a printable ASCII character other than the quote and the backslash
/// is written as itself in single quotes, as the documentation of
/// `char::escape_debug` says. The escapes of other characters are left
/// unsaid.
#[verifier::external_body]
fn debug_char(c: char) -> (r: String)
    ensures
        r@ == char_debug_text(c),
        32 <= (c as u32) < 127 && c != '\'' && c != '\\' ==> r@ == seq!['\'', c, '\''],
{
    format!("{:?}", c)
}

/// Is `c` white space, as `char::is_whitespace` says: the characters of
/// the Unicode property `White_Space`.
pub open spec fn is_white_space(c: char) -> bool {
    let u = c as u32;
    ||| 9 <= u <= 13
    ||| u == 32
    ||| u == 0x85
    ||| u == 0xA0
    ||| u == 0x1680
    ||| 0x2000 <= u <= 0x200A
    ||| u == 0x2028
    ||| u == 0x2029
    ||| u == 0x202F
    ||| u == 0x205F
    ||| u == 0x3000
}

/// Is `c` white space?
fn white_space(c: char) -> (r: bool)
    ensures
        r == is_white_space(c),
{
    let u = c as u32;
    (9 <= u && u <= 13) || u == 32 || u == 0x85 || u == 0xA0 || u == 0x1680 || (0x2000 <= u && u
        <= 0x200A) || u == 0x2028 || u == 0x2029 || u == 0x202F || u == 0x205F || u == 0x3000
}

/// The number of white space characters at the start of `s`.
pub open spec fn leading_space(s: Seq<char>) -> nat
    decreases s.len(),
{
    if s.len() > 0 && is_white_space(s[0]) {
        1 + leading_space(s.skip(1))
    } else {
        0
    }
}

/// The number of white space characters at the end of `s`.
pub open spec fn trailing_space(s: Seq<char>) -> nat
    decreases s.len(),
{
    if s.len() > 0 && is_white_space(s.last()) {
        1 + trailing_space(s.drop_last())
    } else {
        0
    }
}

/// `s` without white space at its start and its end, as `str::trim` gives it.
pub open spec fn trim(s: Seq<char>) -> Seq<char> {
    let t = s.skip(leading_space(s) as int);
    t.take(t.len() - trailing_space(t))
}

proof fn lemma_leading_space(s: Seq<char>, k: int)
    requires
        0 <= k <= s.len(),
        forall|j: int| 0 <= j < k ==> is_white_space(#[trigger] s[j]),
        k == s.len() || !is_white_space(s[k]),
    ensures
        leading_space(s) == k,
    decreases k,
{
    if k > 0 {
        lemma_leading_space(s.skip(1), k - 1);
    }
}

proof fn lemma_trailing_space(s: Seq<char>, k: int)
    requires
        0 <= k <= s.len(),
        forall|j: int| s.len() - k <= j < s.len() ==> is_white_space(#[trigger] s[j]),
        k == s.len() || !is_white_space(s[s.len() - k - 1]),
    ensures
        trailing_space(s) == k,
    decreases k,
{
    if k > 0 {
        lemma_trailing_space(s.drop_last(), k - 1);
    }
}

/// The characters `v[start..end]` without white space at either end.
fn trim_range(v: &Vec<char>, start: usize, end: usize) -> (r: String)
    requires
        start <= end <= v@.len(),
    ensures
        r@ == trim(v@.subrange(start as int, end as int)),
{
    let ghost s = v@.subrange(start as int, end as int);
    let mut a = start;
    while a < end && white_space(v[a])
        invariant
            start <= a <= end <= v@.len(),
            s == v@.subrange(start as int, end as int),
            forall|j: int| 0 <= j < a - start ==> is_white_space(#[trigger] s[j]),
        decreases end - a,
    {
        a = a + 1;
    }
    proof {
        lemma_leading_space(s, a - start);
    }
    let ghost t = s.skip(a - start);
    assert(t =~= v@.subrange(a as int, end as int));
    let mut b = end;
    while b > a && white_space(v[b - 1])
        invariant
            a <= b <= end,
            end <= v@.len(),
            t == v@.subrange(a as int, end as int),
            forall|j: int| b - a <= j < t.len() ==> is_white_space(#[trigger] t[j]),
        decreases b - a,
    {
        b = b - 1;
    }
    proof {
        lemma_trailing_space(t, end - b);
    }
    assert(t.take(t.len() - trailing_space(t)) =~= v@.subrange(a as int, b as int));
    crate::text::string_of_range(v, a, b)
}

// ---------------------------------------------------------------------------
// One option.
// ---------------------------------------------------------------------------

/// An option as the help text describes it.
#[derive(Debug)]
pub struct AppOption {
    pub option: String,
    pub long_name: String,
    pub short: Option<char>,
    pub has_arg: bool,
    pub line: String,
}

/// An [`AppOption`] with its texts as sequences of characters.
pub struct GenOptionView {
    pub option: Seq<char>,
    pub long_name: Seq<char>,
    pub short: Option<char>,
    pub has_arg: bool,
    pub line: Seq<char>,
}

impl View for AppOption {
    type V = GenOptionView;

    open spec fn view(&self) -> GenOptionView {
        GenOptionView {
            option: self.option@,
            long_name: self.long_name@,
            short: self.short,
            has_arg: self.has_arg,
            line: self.line@,
        }
    }
}

impl Clone for AppOption {
    fn clone(&self) -> (r: Self)
        ensures
            r@ == self@,
    {
        AppOption {
            option: self.option.clone(),
            long_name: self.long_name.clone(),
            short: self.short,
            has_arg: self.has_arg,
            line: self.line.clone(),
        }
    }
}

impl Default for AppOption {
    fn default() -> (r: Self)
        ensures
            r@ == (GenOptionView {
                option: Seq::empty(),
                long_name: Seq::empty(),
                short: None,
                has_arg: false,
                line: Seq::empty(),
            }),
    {
        AppOption {
            option: String::new(),
            long_name: String::new(),
            short: None,
            has_arg: false,
            line: String::new(),
        }
    }
}

/// The name of a field for the option `long`: lowercase, with underscores
/// for dashes.
pub open spec fn snake_name(long: Seq<char>) -> Seq<char> {
    long.map_values(|c: char| name_char(c, false))
}

/// The name of the constant for the option `long`: `OPT_` and the name in
/// uppercase, with underscores for dashes.
pub open spec fn const_name(long: Seq<char>) -> Seq<char> {
    "OPT_"@ + long.map_values(|c: char| name_char(c, true))
}

/// `s` with each word capitalized: the first character after a blank, a
/// dash or the start, where `cap` says the start is one.
pub open spec fn capitalized(s: Seq<char>, cap: bool) -> Seq<char>
    decreases s.len(),
{
    if s.len() == 0 {
        Seq::empty()
    } else if s[0] == ' ' || s[0] == '-' {
        seq![s[0]] + capitalized(s.skip(1), true)
    } else if cap {
        seq![upper_first(s[0])] + capitalized(s.skip(1), false)
    } else {
        seq![s[0]] + capitalized(s.skip(1), false)
    }
}

/// Is every character of `s` an ASCII character?
pub open spec fn ascii_only(s: Seq<char>) -> bool {
    forall|j: int| 0 <= j < s.len() ==> (#[trigger] s[j] as u32) < 128
}

/// [`capitalized`] on ASCII text: the first letter of each word in ASCII
/// uppercase.
pub open spec fn ascii_capitalized(s: Seq<char>, cap: bool) -> Seq<char>
    decreases s.len(),
{
    if s.len() == 0 {
        Seq::empty()
    } else if s[0] == ' ' || s[0] == '-' {
        seq![s[0]] + ascii_capitalized(s.skip(1), true)
    } else if cap {
        seq![ascii_upper(s[0])] + ascii_capitalized(s.skip(1), false)
    } else {
        seq![s[0]] + ascii_capitalized(s.skip(1), false)
    }
}

/// Capitalizing keeps the number of characters.
proof fn lemma_capitalized_len(s: Seq<char>, cap: bool)
    ensures
        capitalized(s, cap).len() == s.len(),
    decreases s.len(),
{
    if s.len() > 0 {
        lemma_capitalized_len(s.skip(1), true);
        lemma_capitalized_len(s.skip(1), false);
    }
}

/// `s` without its dashes.
pub open spec fn without_dashes(s: Seq<char>) -> Seq<char>
    decreases s.len(),
{
    if s.len() == 0 {
        Seq::empty()
    } else if s.last() == '-' {
        without_dashes(s.drop_last())
    } else {
        without_dashes(s.drop_last()).push(s.last())
    }
}

/// The text of `b`.
pub open spec fn bool_text(b: bool) -> Seq<char> {
    if b {
        "true"@
    } else {
        "false"@
    }
}

/// The `Debug` text of an optional short name.
pub open spec fn short_debug(short: Option<char>) -> Seq<char> {
    match short {
        Some(c) => "Some("@ + char_debug_text(c) + ")"@,
        None => "None"@,
    }
}

/// The definition of the constant of an option.
pub open spec fn option_text(o: GenOptionView) -> Seq<char> {
    "pub const "@ + o.option + ": AppOption = AppOption {\n"@ + "    long_name: \""@ + o.long_name
        + "\",\n"@ + "    short: "@ + short_debug(o.short) + ",\n"@ + "    has_arg: "@ + bool_text(
        o.has_arg,
    ) + ",\n"@ + "};"@
}

/// `c` with an ASCII uppercase letter turned to lowercase.
fn lower_char(c: char) -> (r: char)
    ensures
        r == ascii_lower(c),
{
    if 'A' <= c && c <= 'Z' {
        (((c as u32) + 32) as u8) as char
    } else {
        c
    }
}

/// `c` with an ASCII lowercase letter turned to uppercase.
fn upper_char(c: char) -> (r: char)
    ensures
        r == ascii_upper(c),
{
    if 'a' <= c && c <= 'z' {
        (((c as u32) - 32) as u8) as char
    } else {
        c
    }
}

/// A character of a name: in uppercase where `upper`, else in lowercase,
/// and an underscore for a dash.
pub open spec fn name_char(c: char, upper: bool) -> char {
    dash_to_underscore(
        if upper {
            ascii_upper(c)
        } else {
            ascii_lower(c)
        },
    )
}

/// Appends the characters of `s` as a name, in uppercase where `upper`.
fn append_name(r: &mut String, s: &str, upper: bool)
    ensures
        final(r)@ == old(r)@ + s@.map_values(|c: char| name_char(c, upper)),
{
    let v = chars_of(s);
    let mut i: usize = 0;
    while i < v.len()
        invariant
            i <= v@.len(),
            v@ == s@,
            r@ == old(r)@ + v@.take(i as int).map_values(|c: char| name_char(c, upper)),
        decreases v.len() - i,
    {
        let c = if upper {
            upper_char(v[i])
        } else {
            lower_char(v[i])
        };
        let d = if c == '-' {
            '_'
        } else {
            c
        };
        push_char(r, d);
        assert(name_char(v@[i as int], upper) == d);
        assert(v@.take(i as int + 1).map_values(|c: char| name_char(c, upper)) =~= v@.take(
            i as int,
        ).map_values(|c: char| name_char(c, upper)).push(d));
        i = i + 1;
    }
    assert(v@.take(v@.len() as int) =~= v@);
}

impl AppOption {
    /// The name of the field of the option: lowercase, with underscores for
    /// dashes.
    pub fn option_name_snake_case(&self) -> (r: String)
        ensures
            r@ == snake_name(self.long_name@),
    {
        let mut r = String::new();
        append_name(&mut r, self.long_name.as_str(), false);
        assert(r@ =~= snake_name(self.long_name@));
        r
    }

    /// The name of the constant of the option: `OPT_` and the name in
    /// uppercase, with underscores for dashes.
    pub fn option_const_name(&self) -> (r: String)
        ensures
            r@ == const_name(self.long_name@),
    {
        let mut r = String::new();
        r.append("OPT_");
        append_name(&mut r, self.long_name.as_str(), true);
        assert(r@ =~= const_name(self.long_name@));
        r
    }

    /// Capitalizes each word of `s` and removes the dashes; on ASCII text
    /// the capitals are the ASCII uppercase letters.
    pub fn capitalize_words(s: &mut String)
        ensures
            final(s)@ == without_dashes(capitalized(old(s)@, true)),
            ascii_only(old(s)@) ==> final(s)@ == without_dashes(ascii_capitalized(old(s)@, true)),
    {
        let v = chars_of(s.as_str());
        let ghost all = capitalized(v@, true);
        let ghost acap = ascii_capitalized(v@, true);
        proof {
            lemma_capitalized_len(v@, true);
            assert(acap.take(0) + acap =~= acap);
        }
        let mut result = String::new();
        let mut capitalize_next = true;
        let mut i: usize = 0;
        assert(v@.skip(0) =~= v@);
        assert(all.take(0) + all =~= all);
        assert(without_dashes(all.take(0)) == Seq::<char>::empty());
        while i < v.len()
            invariant
                i <= v@.len(),
                v@ == old(s)@,
                all == capitalized(v@, true),
                all.len() == v@.len(),
                all == all.take(i as int) + capitalized(v@.skip(i as int), capitalize_next),
                result@ == without_dashes(all.take(i as int)),
                acap == ascii_capitalized(v@, true),
                ascii_only(v@) ==> acap == all.take(i as int) + ascii_capitalized(
                    v@.skip(i as int),
                    capitalize_next,
                ),
            decreases v.len() - i,
        {
            let ghost cap = capitalize_next;
            let c = v[i];
            let d = if c == ' ' || c == '-' {
                capitalize_next = true;
                c
            } else if capitalize_next {
                capitalize_next = false;
                to_upper_first(c)
            } else {
                c
            };
            proof {
                let rest = v@.skip(i as int);
                assert(rest[0] == c);
                assert(rest.skip(1) =~= v@.skip(i as int + 1));
                assert(capitalized(rest, cap) == seq![d] + capitalized(
                    v@.skip(i as int + 1),
                    capitalize_next,
                ));
                assert(all.take(i as int + 1) =~= all.take(i as int).push(d));
                assert(all =~= all.take(i as int + 1) + capitalized(
                    v@.skip(i as int + 1),
                    capitalize_next,
                ));
                assert(all.take(i as int + 1).drop_last() =~= all.take(i as int));
                if ascii_only(v@) {
                    assert((c as u32) < 128);
                    assert(ascii_capitalized(rest, cap) == seq![d] + ascii_capitalized(
                        v@.skip(i as int + 1),
                        capitalize_next,
                    ));
                    assert(acap =~= all.take(i as int + 1) + ascii_capitalized(
                        v@.skip(i as int + 1),
                        capitalize_next,
                    ));
                }
            }
            if d != '-' {
                push_char(&mut result, d);
            }
            i = i + 1;
        }
        assert(all.take(v@.len() as int) =~= all);
        proof {
            if ascii_only(v@) {
                assert(v@.skip(v@.len() as int) =~= Seq::<char>::empty());
                assert(acap =~= all);
            }
        }
        *s = result;
    }

    /// The definition of the constant of the option.
    pub fn text(&self) -> (r: String)
        ensures
            r@ == option_text(self@),
    {
        let mut r = String::new();
        r.append("pub const ");
        r.append(self.option.as_str());
        r.append(": AppOption = AppOption {\n");
        r.append("    long_name: \"");
        r.append(self.long_name.as_str());
        r.append("\",\n");
        r.append("    short: ");
        match self.short {
            Some(c) => {
                r.append("Some(");
                let d = debug_char(c);
                r.append(d.as_str());
                r.append(")");
            },
            None => {
                r.append("None");
            },
        }
        r.append(",\n");
        r.append("    has_arg: ");
        if self.has_arg {
            r.append("true");
        } else {
            r.append("false");
        }
        r.append(",\n");
        r.append("};");
        assert(r@ =~= option_text(self@));
        r
    }
}

// ---------------------------------------------------------------------------
// Reading the lines of a help text.
// ---------------------------------------------------------------------------

/// The index of the first `--` in `s` from `k` on; the length of `s` where
/// there is none.
pub open spec fn pair_index(s: Seq<char>, k: int) -> int
    decreases s.len() - k,
{
    if k < 0 || k + 1 >= s.len() {
        s.len() as int
    } else if s[k] == '-' && s[k + 1] == '-' {
        k
    } else {
        pair_index(s, k + 1)
    }
}

/// The first byte of the UTF-8 encoding of `c`, taken as a character.
pub open spec fn lead_byte_char(c: char) -> char {
    let u = c as u32;
    if u < 0x80 {
        c
    } else if u < 0x800 {
        ((0xC0 + u / 64) as u8) as char
    } else if u < 0x10000 {
        ((0xE0 + u / 4096) as u8) as char
    } else {
        ((0xF0 + u / 262144) as u8) as char
    }
}

/// Does the line describe an option: does it start with a dash after its
/// white space?
pub open spec fn is_option_line(line: Seq<char>) -> bool {
    trim(line).len() > 0 && trim(line)[0] == '-'
}

/// The short name of the option of a line: the character after its first
/// dash, unless that is a dash too. The line is read as bytes: of a
/// character beyond ASCII the first byte is taken.
pub open spec fn line_short(line: Seq<char>) -> Option<char> {
    let p = char_index(line, '-', 0);
    if line[p + 1] != '-' {
        Some(lead_byte_char(line[p + 1]))
    } else {
        None
    }
}

/// The long name of the option of a line, the text after its first `--` up
/// to the next blank, and whether it takes an argument, written after `=`;
/// `None` where the line has no `--`.
pub open spec fn line_long(line: Seq<char>) -> Option<(Seq<char>, bool)> {
    let b = pair_index(line, 0);
    if b >= line.len() {
        None
    } else {
        let e = char_index(line, ' ', b);
        let part = line.subrange(b + 2, e);
        let q = char_index(part, '=', 0);
        if q < part.len() {
            Some((trim(part.take(q)), true))
        } else {
            Some((trim(part), false))
        }
    }
}

/// The option a line describes with the long name `long`.
pub open spec fn line_option(line: Seq<char>, long: Seq<char>, has_arg: bool) -> GenOptionView {
    GenOptionView {
        option: const_name(long),
        long_name: long,
        short: line_short(line),
        has_arg,
        line,
    }
}

/// What the line `line`, the `i`-th, adds to the text `content` and the
/// options `opts` found before: a line of an option as a comment, with its
/// option or, where it has no long name, an error.
pub open spec fn scan_line(content: Seq<char>, opts: Seq<GenOptionView>, line: Seq<char>, i: int) -> (
    Seq<char>,
    Seq<GenOptionView>,
) {
    if !is_option_line(line) {
        (content, opts)
    } else {
        let c2 = content + "// "@ + line + "\n"@;
        match line_long(line) {
            Some((long, has_arg)) => (c2, opts.push(line_option(line, long, has_arg))),
            None => (
                c2 + "*** ERROR parsing in line "@ + decimal(i as nat)
                    + ": no --long_name found for option '"@ + seq![line_short(line)->0] + "'!\n"@,
                opts,
            ),
        }
    }
}

/// What the lines `lines[..k]` give: the text written so far and the
/// options found.
pub open spec fn scan_help(lines: Seq<Seq<char>>, k: int) -> (Seq<char>, Seq<GenOptionView>)
    decreases k,
{
    if k <= 0 {
        (Seq::empty(), Seq::empty())
    } else {
        let (content, opts) = scan_help(lines, k - 1);
        scan_line(content, opts, lines[k - 1], k - 1)
    }
}

// ---------------------------------------------------------------------------
// Sorting the options by the names of their constants.
// ---------------------------------------------------------------------------

/// Is `a` not greater than `b` in the order of `String`: character by
/// character, a prefix first.
pub open spec fn text_le(a: Seq<char>, b: Seq<char>) -> bool
    decreases a.len(),
{
    if a.len() == 0 {
        true
    } else if b.len() == 0 {
        false
    } else if a[0] != b[0] {
        a[0] < b[0]
    } else {
        text_le(a.skip(1), b.skip(1))
    }
}

/// The sorted options `sorted` with `o` put after all those whose constant
/// name is not greater than its own.
pub open spec fn insert_sorted(sorted: Seq<GenOptionView>, o: GenOptionView) -> Seq<GenOptionView>
    decreases sorted.len(),
{
    if sorted.len() == 0 {
        seq![o]
    } else if text_le(sorted.last().option, o.option) {
        sorted.push(o)
    } else {
        insert_sorted(sorted.drop_last(), o).push(sorted.last())
    }
}

/// The options sorted by the names of their constants; options with equal
/// names keep their order.
pub open spec fn sort_options(opts: Seq<GenOptionView>) -> Seq<GenOptionView>
    decreases opts.len(),
{
    if opts.len() == 0 {
        Seq::empty()
    } else {
        insert_sorted(sort_options(opts.drop_last()), opts.last())
    }
}

/// The order of `String` is total.
proof fn lemma_text_le_total(a: Seq<char>, b: Seq<char>)
    ensures
        text_le(a, b) || text_le(b, a),
    decreases a.len(),
{
    if a.len() > 0 && b.len() > 0 {
        if a[0] == b[0] {
            lemma_text_le_total(a.skip(1), b.skip(1));
        } else {
            assert(a[0] < b[0] || b[0] < a[0]);
        }
    }
}

/// The order of `String` is transitive.
proof fn lemma_text_le_transitive(a: Seq<char>, b: Seq<char>, c: Seq<char>)
    requires
        text_le(a, b),
        text_le(b, c),
    ensures
        text_le(a, c),
    decreases a.len(),
{
    if a.len() > 0 && b.len() > 0 && c.len() > 0 && a[0] == b[0] && b[0] == c[0] {
        lemma_text_le_transitive(a.skip(1), b.skip(1), c.skip(1));
    }
}

/// The options are in the order of the names of their constants.
pub open spec fn options_sorted(s: Seq<GenOptionView>) -> bool {
    forall|i: int, j: int| 0 <= i < j < s.len() ==> text_le(s[i].option, s[j].option)
}

/// Putting an option into sorted options keeps them sorted, and adds it.
proof fn lemma_insert_sorted(s: Seq<GenOptionView>, o: GenOptionView)
    requires
        options_sorted(s),
    ensures
        options_sorted(insert_sorted(s, o)),
        insert_sorted(s, o).to_multiset() =~= s.to_multiset().insert(o),
    decreases s.len(),
{
    broadcast use vstd::seq_lib::group_to_multiset_ensures;
    broadcast use vstd::multiset::group_multiset_axioms;

    if s.len() == 0 {
        assert(seq![o] =~= Seq::<GenOptionView>::empty().push(o));
        assert(Seq::<GenOptionView>::empty().to_multiset() =~= vstd::multiset::Multiset::empty());
    } else {
        let last = s.last();
        let dl = s.drop_last();
        assert(dl.push(last) =~= s);
        if text_le(last.option, o.option) {
            let r = s.push(o);
            assert forall|i: int, j: int| 0 <= i < j < r.len() implies text_le(
                r[i].option,
                r[j].option,
            ) by {
                if j == s.len() {
                    if i < s.len() - 1 {
                        lemma_text_le_transitive(s[i].option, last.option, o.option);
                    }
                }
            }
        } else {
            lemma_text_le_total(last.option, o.option);
            assert(options_sorted(dl));
            lemma_insert_sorted(dl, o);
            let t = insert_sorted(dl, o);
            let r = t.push(last);
            assert forall|k: int| 0 <= k < t.len() implies text_le(
                (#[trigger] t[k]).option,
                last.option,
            ) by {
                let x = t[k];
                assert(t.contains(x));
                assert(t.to_multiset().count(x) > 0);
                if x != o {
                    assert(dl.to_multiset().count(x) > 0);
                    assert(dl.contains(x));
                    let m = choose|m: int| 0 <= m < dl.len() && dl[m] == x;
                    assert(s[m] == x);
                }
            }
            assert forall|i: int, j: int| 0 <= i < j < r.len() implies text_le(
                r[i].option,
                r[j].option,
            ) by {
                if j == t.len() {
                    assert(r[i] == t[i]);
                } else {
                    assert(r[i] == t[i] && r[j] == t[j]);
                }
            }
        }
    }
}

/// The options sorted by the names of their constants are in order, and
/// they are the same options.
pub proof fn lemma_sort_options(opts: Seq<GenOptionView>)
    ensures
        options_sorted(sort_options(opts)),
        sort_options(opts).to_multiset() =~= opts.to_multiset(),
    decreases opts.len(),
{
    broadcast use vstd::seq_lib::group_to_multiset_ensures;

    if opts.len() > 0 {
        lemma_sort_options(opts.drop_last());
        lemma_insert_sorted(sort_options(opts.drop_last()), opts.last());
        assert(opts.drop_last().push(opts.last()) =~= opts);
    } else {
        assert(sort_options(opts) =~= opts);
    }
}

// ---------------------------------------------------------------------------
// The text that is written.
// ---------------------------------------------------------------------------

/// The views of options.
pub open spec fn option_views(v: Seq<AppOption>) -> Seq<GenOptionView> {
    v.map_values(|o: AppOption| o@)
}

/// Is the option `--help` or `--version`, which every utility has?
pub open spec fn is_common_option(o: GenOptionView) -> bool {
    o.long_name == "help"@ || o.long_name == "version"@
}

/// The constants of the options, but those of `--help` and `--version`.
pub open spec fn consts_text(opts: Seq<GenOptionView>) -> Seq<char>
    decreases opts.len(),
{
    if opts.len() == 0 {
        Seq::empty()
    } else if is_common_option(opts.last()) {
        consts_text(opts.drop_last())
    } else {
        consts_text(opts.drop_last()) + option_text(opts.last()) + "\n"@
    }
}

/// The entries of the table of the options.
pub open spec fn array_items(opts: Seq<GenOptionView>) -> Seq<char>
    decreases opts.len(),
{
    if opts.len() == 0 {
        Seq::empty()
    } else {
        array_items(opts.drop_last()) + opts.last().option + ",\n"@
    }
}

/// The table of the options.
pub open spec fn array_text(opts: Seq<GenOptionView>) -> Seq<char> {
    "\n// Array for ArgParser\n"@ + "pub const APP_OPTIONS: [AppOption; "@ + decimal(opts.len())
        + "] = [\n"@ + array_items(opts) + "];\n"@
}

/// The type of the field of an option.
pub open spec fn field_type(o: GenOptionView) -> Seq<char> {
    if o.has_arg {
        "Option<String>"@
    } else {
        "bool"@
    }
}

/// The fields of the parameter struct, each with its line as comment.
pub open spec fn struct_fields(opts: Seq<GenOptionView>) -> Seq<char>
    decreases opts.len(),
{
    if opts.len() == 0 {
        Seq::empty()
    } else {
        let o = opts.last();
        struct_fields(opts.drop_last()) + "    /// "@ + trim(o.line) + "\n"@ + "    pub "@ + snake_name(
            o.long_name,
        ) + ": "@ + field_type(o) + ",\n"@
    }
}

/// The parameter struct.
pub open spec fn struct_text(opts: Seq<GenOptionView>) -> Seq<char> {
    "\n// The Param struct\n"@ + "#[derive(Debug, Clone, Eq, PartialEq)]\n"@ + "pub struct ParamsXxx {\n"@
        + "    /// Identifier\n"@ + "    pub util: Executable,\n"@ + "    // pub executable: OsString,\n"@
        + "    pub from: OsString,\n"@ + "    pub to: OsString,\n"@ + struct_fields(opts) + "}\n"@
}

/// What the match does for an option.
pub open spec fn arm_action(o: GenOptionView) -> Seq<char> {
    if o.has_arg {
        "params."@ + snake_name(o.long_name) + " = parsed_option.arg_for_option.clone()"@
    } else if o.long_name == "help"@ {
        "return Ok(ParamsXxxOk::Info(ArgParser::add_copyright(TEXT_HELP)))"@
    } else if o.long_name == "version"@ {
        "return Ok(ParamsXxxOk::Info(TEXT_VERSION.to_string()))"@
    } else {
        "params."@ + snake_name(o.long_name) + " = true"@
    }
}

/// The arms of the match, one for each option.
pub open spec fn match_arms(opts: Seq<GenOptionView>) -> Seq<char>
    decreases opts.len(),
{
    if opts.len() == 0 {
        Seq::empty()
    } else {
        match_arms(opts.drop_last()) + "            "@ + opts.last().option + " => "@ + arm_action(
            opts.last(),
        ) + ", \n"@
    }
}

/// The function that sets the parameters from the parser's output.
pub open spec fn match_text(opts: Seq<GenOptionView>) -> Seq<char> {
    "\n// match for ArgParser output\n"@ + "fn try_from(parser: &ArgParser) -> ResultParamsXxxParse {\n"@
        + "    let mut params = Self::default();\n"@ + "    //  {\n"@
        + "    //     // executable: parser.executable.clone(),\n"@ + "    //     ..Default::default()\n"@
        + "    // };\n"@ + "\n"@ + "    // set options\n"@
        + "    for parsed_option in &parser.options_parsed {\n"@ + "        dbg!(parsed_option);\n"@
        + "        match *parsed_option.app_option {\n"@ + match_arms(opts)
        + "\n            // This is not an error, but a todo. Unfortunately an Enum is not possible.\n"@
        + "            _ => todo!(\"Err Option: {}\", parsed_option.app_option.long_name),\n"@
        + "        }\n"@ + "    }\n"@ + "}\n"@ + "}\n"@
}

/// What [`parse_to_app_options`] writes for the lines of a help text.
pub open spec fn generated_text(lines: Seq<Seq<char>>) -> Seq<char> {
    let (content, opts) = scan_help(lines, lines.len() as int);
    let sorted = sort_options(opts);
    content + consts_text(sorted) + array_text(sorted) + struct_text(sorted) + match_text(sorted)
}

// ---------------------------------------------------------------------------
// The steps of the reading.
// ---------------------------------------------------------------------------

/// The index of the first `c` in `v` from `k` on; the length where there is none.
fn find_char(v: &Vec<char>, c: char, k: usize) -> (r: usize)
    requires
        k <= v@.len(),
    ensures
        r == char_index(v@, c, k as int),
{
    let mut i = k;
    while i < v.len() && v[i] != c
        invariant
            k <= i <= v@.len(),
            char_index(v@, c, k as int) == char_index(v@, c, i as int),
        decreases v.len() - i,
    {
        i = i + 1;
    }
    i
}

/// The index of the first `--` in `v`; the length where there is none.
fn find_pair(v: &Vec<char>) -> (r: usize)
    ensures
        r == pair_index(v@, 0),
{
    let mut i: usize = 0;
    while i < v.len() && i + 1 < v.len() && !(v[i] == '-' && v[i + 1] == '-')
        invariant
            i <= v@.len(),
            pair_index(v@, 0) == pair_index(v@, i as int),
        decreases v.len() - i,
    {
        i = i + 1;
    }
    if i < v.len() && i + 1 < v.len() {
        i
    } else {
        v.len()
    }
}

/// The characters `v[a..b]`.
fn sub_vec(v: &Vec<char>, a: usize, b: usize) -> (r: Vec<char>)
    requires
        a <= b <= v@.len(),
    ensures
        r@ == v@.subrange(a as int, b as int),
{
    let mut r: Vec<char> = Vec::new();
    let mut i = a;
    while i < b
        invariant
            a <= i <= b <= v@.len(),
            r@ == v@.subrange(a as int, i as int),
        decreases b - i,
    {
        r.push(v[i]);
        i = i + 1;
        assert(r@ =~= v@.subrange(a as int, i as int));
    }
    r
}

/// The first byte of the UTF-8 encoding of `c`, as a character.
fn lead_byte(c: char) -> (r: char)
    ensures
        r == lead_byte_char(c),
{
    let u = c as u32;
    if u < 0x80 {
        c
    } else if u < 0x800 {
        ((0xC0 + u / 64) as u8) as char
    } else if u < 0x10000 {
        ((0xE0 + u / 4096) as u8) as char
    } else {
        ((0xF0 + u / 262144) as u8) as char
    }
}

/// Where `s[0]` is no white space, the trailing white space leaves it.
proof fn lemma_trailing_space_short(s: Seq<char>)
    requires
        s.len() > 0,
        !is_white_space(s[0]),
    ensures
        trailing_space(s) < s.len(),
    decreases s.len(),
{
    if s.len() > 1 && is_white_space(s.last()) {
        lemma_trailing_space_short(s.drop_last());
    }
}

/// The first `c` from `k` on is at `a` where `s[k..a]` holds none.
proof fn lemma_char_index_at(s: Seq<char>, c: char, k: int, a: int)
    requires
        0 <= k <= a < s.len(),
        s[a] == c,
        forall|j: int| k <= j < a ==> s[j] != c,
    ensures
        char_index(s, c, k) == a,
    decreases a - k,
{
    if k < a {
        lemma_char_index_at(s, c, k + 1, a);
    }
}

/// Does the line describe an option?
fn option_line(v: &Vec<char>) -> (r: bool)
    ensures
        r == is_option_line(v@),
        r ==> char_index(v@, '-', 0) == leading_space(v@),
{
    let mut a: usize = 0;
    while a < v.len() && white_space(v[a])
        invariant
            a <= v@.len(),
            forall|j: int| 0 <= j < a ==> is_white_space(#[trigger] v@[j]),
        decreases v.len() - a,
    {
        a = a + 1;
    }
    proof {
        lemma_leading_space(v@, a as int);
        if a < v@.len() {
            let t = v@.skip(a as int);
            assert(t[0] == v@[a as int]);
            lemma_trailing_space_short(t);
            assert(trim(v@)[0] == v@[a as int]);
            if v@[a as int] == '-' {
                assert forall|j: int| 0 <= j < a implies v@[j] != '-' by {
                    assert(is_white_space(v@[j]));
                }
                lemma_char_index_at(v@, '-', 0, a as int);
            }
        } else {
            assert(trim(v@).len() == 0);
        }
    }
    a < v.len() && v[a] == '-'
}

/// The option of a line with the long name `long`.
fn new_option(line: &String, long: String, has_arg: bool, short: Option<char>) -> (r: AppOption)
    ensures
        r@ == (GenOptionView {
            option: const_name(long@),
            long_name: long@,
            short,
            has_arg,
            line: line@,
        }),
{
    let mut opt = AppOption::default();
    opt.line = line.clone();
    opt.short = short;
    opt.long_name = long;
    opt.has_arg = has_arg;
    opt.option = opt.option_const_name();
    opt
}

/// Where `--` is found it is there, and where it is not there is none.
proof fn lemma_pair_index(s: Seq<char>, k: int)
    requires
        0 <= k,
    ensures
        pair_index(s, k) < s.len() ==> {
            &&& k <= pair_index(s, k)
            &&& pair_index(s, k) + 1 < s.len()
            &&& s[pair_index(s, k)] == '-'
            &&& s[pair_index(s, k) + 1] == '-'
        },
        pair_index(s, k) >= s.len() ==> forall|j: int|
            k <= j && j + 1 < s.len() ==> !(#[trigger] s[j] == '-' && s[j + 1] == '-'),
    decreases s.len() - k,
{
    if k + 1 < s.len() && !(s[k] == '-' && s[k + 1] == '-') {
        lemma_pair_index(s, k + 1);
    }
}

/// Reads the `i`-th line of the help text.
fn read_line(content: &mut String, opts: &mut Vec<AppOption>, line: &String, i: usize)
    requires
        is_option_line(line@) ==> char_index(line@, '-', 0) + 1 < line@.len(),
    ensures
        (final(content)@, option_views(final(opts)@)) == scan_line(
            old(content)@,
            option_views(old(opts)@),
            line@,
            i as int,
        ),
{
    let v = chars_of(line.as_str());
    if !option_line(&v) {
        return;
    }
    content.append("// ");
    content.append(line.as_str());
    content.append("\n");
    let p = find_char(&v, '-', 0);
    let short = if v[p + 1] != '-' {
        Some(lead_byte(v[p + 1]))
    } else {
        None
    };
    assert(short == line_short(line@));
    let b = find_pair(&v);
    proof {
        lemma_pair_index(v@, 0);
    }
    if b < v.len() {
        let e = find_char(&v, ' ', b);
        proof {
            lemma_char_index(v@, ' ', b as int);
        }
        let part = sub_vec(&v, b + 2, e);
        let q = find_char(&part, '=', 0);
        let (long, has_arg) = if q < part.len() {
            assert(part@.subrange(0, q as int) =~= part@.take(q as int));
            (trim_range(&part, 0, q), true)
        } else {
            assert(part@.subrange(0, part@.len() as int) =~= part@);
            (trim_range(&part, 0, part.len()), false)
        };
        let opt = new_option(line, long, has_arg, short);
        let ghost before = option_views(opts@);
        opts.push(opt);
        assert(option_views(opts@) =~= before.push(opt@));
    } else {
        assert(v@[p as int] == '-') by {
            lemma_char_index(v@, '-', 0);
        }
        let c = match short {
            Some(c) => c,
            None => ' ',
        };
        content.append("*** ERROR parsing in line ");
        let n = itoa_decimal(i as u64);
        content.append(n.as_str());
        content.append(": no --long_name found for option '");
        push_char(content, c);
        content.append("'!\n");
    }
    assert(content@ =~= scan_line(old(content)@, option_views(old(opts)@), line@, i as int).0);
}

/// Every line of an option goes on after its first dash.
pub open spec fn lines_wf(lines: Seq<Seq<char>>) -> bool {
    forall|k: int|
        0 <= k < lines.len() && is_option_line(#[trigger] lines[k]) ==> char_index(lines[k], '-', 0)
            + 1 < lines[k].len()
}

/// Is `a` not greater than `b` in the order of `String`?
fn text_not_greater(a: &str, b: &str) -> (r: bool)
    ensures
        r == text_le(a@, b@),
{
    let va = chars_of(a);
    let vb = chars_of(b);
    let mut i: usize = 0;
    assert(va@.skip(0) =~= va@);
    assert(vb@.skip(0) =~= vb@);
    while i < va.len() && i < vb.len() && va[i] == vb[i]
        invariant
            i <= va@.len(),
            i <= vb@.len(),
            va@ == a@,
            vb@ == b@,
            text_le(a@, b@) == text_le(va@.skip(i as int), vb@.skip(i as int)),
        decreases va.len() - i,
    {
        assert(va@.skip(i as int).skip(1) =~= va@.skip(i as int + 1));
        assert(vb@.skip(i as int).skip(1) =~= vb@.skip(i as int + 1));
        i = i + 1;
    }
    let ghost ra = va@.skip(i as int);
    let ghost rb = vb@.skip(i as int);
    if i == va.len() {
        assert(ra.len() == 0);
        true
    } else if i == vb.len() {
        assert(ra.len() > 0 && rb.len() == 0);
        false
    } else {
        assert(ra[0] == va@[i as int] && rb[0] == vb@[i as int]);
        va[i] < vb[i]
    }
}

/// Puts `o` into the sorted options after all whose constant name is not
/// greater than its own.
fn insert_option(sorted: &mut Vec<AppOption>, o: AppOption)
    ensures
        option_views(final(sorted)@) == insert_sorted(option_views(old(sorted)@), o@),
{
    let ghost v = option_views(sorted@);
    let mut j = sorted.len();
    assert(v.take(j as int) =~= v);
    assert(v.skip(j as int) =~= Seq::<GenOptionView>::empty());
    while j > 0 && !text_not_greater(sorted[j - 1].option.as_str(), o.option.as_str())
        invariant
            j <= sorted@.len(),
            sorted@ == old(sorted)@,
            v == option_views(sorted@),
            insert_sorted(v, o@) == insert_sorted(v.take(j as int), o@) + v.skip(j as int),
        decreases j,
    {
        proof {
            let t = v.take(j as int);
            assert(t.drop_last() =~= v.take(j as int - 1));
            assert(t.last() == v[j as int - 1]);
            assert(seq![v[j as int - 1]] + v.skip(j as int) =~= v.skip(j as int - 1));
            assert(insert_sorted(t.drop_last(), o@).push(t.last()) + v.skip(j as int)
                =~= insert_sorted(v.take(j as int - 1), o@) + v.skip(j as int - 1));
        }
        j = j - 1;
    }
    proof {
        if j > 0 {
            let t = v.take(j as int);
            assert(t.last() == v[j as int - 1]);
        }
    }
    let ghost ov = o@;
    sorted.insert(j, o);
    assert(option_views(sorted@) =~= v.take(j as int).push(ov) + v.skip(j as int));
}

/// The options sorted by the names of their constants.
fn sorted_options(opts: &Vec<AppOption>) -> (r: Vec<AppOption>)
    ensures
        option_views(r@) == sort_options(option_views(opts@)),
{
    let ghost v = option_views(opts@);
    let mut sorted: Vec<AppOption> = Vec::new();
    let mut k: usize = 0;
    assert(option_views(sorted@) =~= sort_options(v.take(0)));
    while k < opts.len()
        invariant
            k <= opts@.len(),
            v == option_views(opts@),
            option_views(sorted@) == sort_options(v.take(k as int)),
        decreases opts.len() - k,
    {
        assert(v.take(k as int + 1).drop_last() =~= v.take(k as int));
        assert(v.take(k as int + 1).last() == opts@[k as int]@);
        insert_option(&mut sorted, opts[k].clone());
        k = k + 1;
    }
    assert(v.take(opts@.len() as int) =~= v);
    sorted
}

/// Is the option `--help` or `--version`?
fn common_option(o: &AppOption) -> (r: bool)
    ensures
        r == is_common_option(o@),
{
    crate::text::same_text(o.long_name.as_str(), "help") || crate::text::same_text(
        o.long_name.as_str(),
        "version",
    )
}

/// Appends the constants of the options.
fn append_consts(content: &mut String, opts: &Vec<AppOption>)
    ensures
        final(content)@ == old(content)@ + consts_text(option_views(opts@)),
{
    let ghost v = option_views(opts@);
    let mut k: usize = 0;
    assert(old(content)@ =~= old(content)@ + consts_text(v.take(0)));
    while k < opts.len()
        invariant
            k <= opts@.len(),
            v == option_views(opts@),
            content@ == old(content)@ + consts_text(v.take(k as int)),
        decreases opts.len() - k,
    {
        assert(v.take(k as int + 1).drop_last() =~= v.take(k as int));
        assert(v.take(k as int + 1).last() == opts@[k as int]@);
        if !common_option(&opts[k]) {
            let t = opts[k].text();
            content.append(t.as_str());
            content.append("\n");
        }
        k = k + 1;
        assert(content@ =~= old(content)@ + consts_text(v.take(k as int)));
    }
    assert(v.take(opts@.len() as int) =~= v);
}

/// Appends the table of the options.
fn append_array(content: &mut String, opts: &Vec<AppOption>)
    ensures
        final(content)@ == old(content)@ + array_text(option_views(opts@)),
{
    let ghost v = option_views(opts@);
    content.append("\n// Array for ArgParser\n");
    content.append("pub const APP_OPTIONS: [AppOption; ");
    let n = itoa_decimal(opts.len() as u64);
    content.append(n.as_str());
    content.append("] = [\n");
    let ghost start = content@;
    let mut k: usize = 0;
    assert(start =~= start + array_items(v.take(0)));
    while k < opts.len()
        invariant
            k <= opts@.len(),
            v == option_views(opts@),
            content@ == start + array_items(v.take(k as int)),
        decreases opts.len() - k,
    {
        assert(v.take(k as int + 1).drop_last() =~= v.take(k as int));
        assert(v.take(k as int + 1).last() == opts@[k as int]@);
        content.append(opts[k].option.as_str());
        content.append(",\n");
        k = k + 1;
        assert(content@ =~= start + array_items(v.take(k as int)));
    }
    assert(v.take(opts@.len() as int) =~= v);
    content.append("];\n");
    assert(content@ =~= old(content)@ + array_text(v));
}

/// Appends the parameter struct.
fn append_struct(content: &mut String, opts: &Vec<AppOption>)
    ensures
        final(content)@ == old(content)@ + struct_text(option_views(opts@)),
{
    let ghost v = option_views(opts@);
    content.append("\n// The Param struct\n");
    content.append("#[derive(Debug, Clone, Eq, PartialEq)]\n");
    content.append("pub struct ParamsXxx {\n");
    content.append("    /// Identifier\n");
    content.append("    pub util: Executable,\n");
    content.append("    // pub executable: OsString,\n");
    content.append("    pub from: OsString,\n");
    content.append("    pub to: OsString,\n");
    let ghost start = content@;
    let mut k: usize = 0;
    assert(start =~= start + struct_fields(v.take(0)));
    while k < opts.len()
        invariant
            k <= opts@.len(),
            v == option_views(opts@),
            content@ == start + struct_fields(v.take(k as int)),
        decreases opts.len() - k,
    {
        assert(v.take(k as int + 1).drop_last() =~= v.take(k as int));
        assert(v.take(k as int + 1).last() == opts@[k as int]@);
        let o = &opts[k];
        let lv = chars_of(o.line.as_str());
        assert(lv@.subrange(0, lv@.len() as int) =~= lv@);
        let trimmed = trim_range(&lv, 0, lv.len());
        content.append("    /// ");
        content.append(trimmed.as_str());
        content.append("\n");
        content.append("    pub ");
        let snake = o.option_name_snake_case();
        content.append(snake.as_str());
        content.append(": ");
        if o.has_arg {
            content.append("Option<String>");
        } else {
            content.append("bool");
        }
        content.append(",\n");
        k = k + 1;
        assert(content@ =~= start + struct_fields(v.take(k as int)));
    }
    assert(v.take(opts@.len() as int) =~= v);
    content.append("}\n");
    assert(content@ =~= old(content)@ + struct_text(v));
}

/// Appends what the match does for the option `o`.
fn append_action(content: &mut String, o: &AppOption)
    ensures
        final(content)@ == old(content)@ + arm_action(o@),
{
    if o.has_arg {
        content.append("params.");
        let snake = o.option_name_snake_case();
        content.append(snake.as_str());
        content.append(" = parsed_option.arg_for_option.clone()");
    } else if crate::text::same_text(o.long_name.as_str(), "help") {
        content.append("return Ok(ParamsXxxOk::Info(ArgParser::add_copyright(TEXT_HELP)))");
    } else if crate::text::same_text(o.long_name.as_str(), "version") {
        content.append("return Ok(ParamsXxxOk::Info(TEXT_VERSION.to_string()))");
    } else {
        content.append("params.");
        let snake = o.option_name_snake_case();
        content.append(snake.as_str());
        content.append(" = true");
    }
    assert(content@ =~= old(content)@ + arm_action(o@));
}

/// Appends the function that sets the parameters from the parser's output.
fn append_match(content: &mut String, opts: &Vec<AppOption>)
    ensures
        final(content)@ == old(content)@ + match_text(option_views(opts@)),
{
    let ghost v = option_views(opts@);
    content.append("\n// match for ArgParser output\n");
    content.append("fn try_from(parser: &ArgParser) -> ResultParamsXxxParse {\n");
    content.append("    let mut params = Self::default();\n");
    content.append("    //  {\n");
    content.append("    //     // executable: parser.executable.clone(),\n");
    content.append("    //     ..Default::default()\n");
    content.append("    // };\n");
    content.append("\n");
    content.append("    // set options\n");
    content.append("    for parsed_option in &parser.options_parsed {\n");
    content.append("        dbg!(parsed_option);\n");
    content.append("        match *parsed_option.app_option {\n");
    let ghost start = content@;
    let mut k: usize = 0;
    assert(start =~= start + match_arms(v.take(0)));
    while k < opts.len()
        invariant
            k <= opts@.len(),
            v == option_views(opts@),
            content@ == start + match_arms(v.take(k as int)),
        decreases opts.len() - k,
    {
        assert(v.take(k as int + 1).drop_last() =~= v.take(k as int));
        assert(v.take(k as int + 1).last() == opts@[k as int]@);
        content.append("            ");
        content.append(opts[k].option.as_str());
        content.append(" => ");
        append_action(content, &opts[k]);
        content.append(", \n");
        k = k + 1;
        assert(content@ =~= start + match_arms(v.take(k as int)));
    }
    assert(v.take(opts@.len() as int) =~= v);
    content.append(
        "\n            // This is not an error, but a todo. Unfortunately an Enum is not possible.\n",
    );
    content.append("            _ => todo!(\"Err Option: {}\", parsed_option.app_option.long_name),\n");
    content.append("        }\n");
    content.append("    }\n");
    content.append("}\n");
    content.append("}\n");
    assert(content@ =~= old(content)@ + match_text(v));
}

/// Writes the option definitions of a utility from the lines of its help
/// text: the lines of the options as comments, the constants of the options
/// sorted by name (but `--help` and `--version`), their table, the
/// parameter struct and the match that fills it in.
pub fn parse_to_app_options(lines: &[String]) -> (r: String)
    requires
        lines_wf(texts(lines@)),
    ensures
        r@ == generated_text(texts(lines@)),
{
    let ghost ls = texts(lines@);
    let mut opts: Vec<AppOption> = Vec::new();
    let mut content = String::new();
    let mut i: usize = 0;
    while i < lines.len()
        invariant
            i <= lines@.len(),
            ls == texts(lines@),
            ls.len() == lines@.len(),
            lines_wf(ls),
            (content@, option_views(opts@)) == scan_help(ls, i as int),
        decreases lines.len() - i,
    {
        assert(ls[i as int] == lines@[i as int]@);
        read_line(&mut content, &mut opts, &lines[i], i);
        i = i + 1;
    }
    let sorted = sorted_options(&opts);
    append_consts(&mut content, &sorted);
    append_array(&mut content, &sorted);
    append_struct(&mut content, &sorted);
    append_match(&mut content, &sorted);
    content
}

} // verus!
