//! `cmp`: compares two files byte by byte.
//!
//! The comparison itself reads the files chunk by chunk; this module holds
//! what it decides on each chunk and the texts it writes.
pub mod params;
pub mod params_cmp;
pub mod params_cmp_def;

use vstd::prelude::*;

use crate::cmp::params_cmp::ParamsCmp;
use crate::cmp::params_cmp_def::{error_shows_arg, error_text, ParamsCmpError};
use crate::executable::executable_name;
use crate::text::{chars_of, decimal, itoa_decimal, push_char};

verus! {

// ---------------------------------------------------------------------------
// Bytes in octal and in visible form.
// ---------------------------------------------------------------------------

/// `'0'` in ASCII.
pub const DIGIT_ZERO: u8 = 48;

/// `' '` in ASCII.
pub const BLANK: u8 = 32;

/// `'^'` in ASCII.
pub const CARET: u8 = 94;

/// `'?'` in ASCII.
pub const QUESTION_MARK: u8 = 63;

/// `'M'` in ASCII.
pub const LETTER_M: u8 = 77;

/// `'-'` in ASCII.
pub const DASH: u8 = 45;

/// `'\n'` in ASCII.
pub const NEWLINE: u8 = 10;

/// The ASCII code of a decimal digit.
pub open spec fn digit_byte(d: nat) -> u8 {
    (d + 48) as u8
}

/// The octal digits of `n`, most significant first, without leading zeros;
/// `0` for zero.
pub open spec fn octal_digits(n: nat) -> Seq<u8>
    decreases n,
{
    if n < 8 {
        seq![digit_byte(n)]
    } else {
        octal_digits(n / 8).push(digit_byte(n % 8))
    }
}

/// `n` blanks.
pub open spec fn blanks(n: nat) -> Seq<u8> {
    Seq::new(n, |i: int| 32u8)
}

/// The octal digits of a byte, right-aligned in three columns.
pub open spec fn octal_field(byte: u8) -> Seq<u8> {
    blanks((3 - octal_digits(byte as nat).len()) as nat) + octal_digits(byte as nat)
}

/// A byte as `cat -v` and GNU cmp show it: control characters as `^X`, DEL
/// as `^?`, bytes from 128 on with an `M-` before the form of the byte 128
/// below, printable ASCII as itself.
pub open spec fn visible(byte: u8) -> Seq<u8> {
    if byte < 32 {
        seq![94u8, (byte + 64) as u8]
    } else if byte < 127 {
        seq![byte]
    } else if byte == 127 {
        seq![94u8, 63u8]
    } else if byte < 160 {
        seq![77u8, 45u8, 94u8, (byte - 64) as u8]
    } else if byte < 255 {
        seq![77u8, 45u8, (byte - 128) as u8]
    } else {
        seq![77u8, 45u8, 94u8, 63u8]
    }
}

/// The visible form of a byte, padded on the right with blanks to four columns.
pub open spec fn visible_padded(byte: u8) -> Seq<u8> {
    visible(byte) + blanks((4 - visible(byte).len()) as nat)
}

/// The text of a sequence of ASCII bytes.
pub open spec fn ascii_text(s: Seq<u8>) -> Seq<char> {
    s.map_values(|b: u8| b as char)
}

/// The value of a sequence of octal digits, most significant first.
pub open spec fn octal_value(s: Seq<u8>) -> int
    decreases s.len(),
{
    if s.len() == 0 {
        0
    } else {
        octal_value(s.drop_last()) * 8 + (s.last() - 48)
    }
}

/// Reading the octal digits of `n` gives `n` back.
pub proof fn lemma_octal_digits_value(n: nat)
    ensures
        octal_value(octal_digits(n)) == n,
        1 <= octal_digits(n).len(),
        forall|i: int| 0 <= i < octal_digits(n).len() ==> 48 <= #[trigger] octal_digits(n)[i] < 56,
    decreases n,
{
    let d = octal_digits(n);
    if n >= 8 {
        lemma_octal_digits_value(n / 8);
        assert(d.drop_last() =~= octal_digits(n / 8));
        assert(d.last() == digit_byte(n % 8));
        assert(digit_byte(n % 8) == n % 8 + 48);
        assert(n == (n / 8) * 8 + n % 8);
        assert(octal_value(d) == octal_value(d.drop_last()) * 8 + (d.last() - 48));
    } else {
        assert(d.drop_last() =~= Seq::<u8>::empty());
        assert(digit_byte(n) == n + 48);
        assert(octal_value(d) == octal_value(d.drop_last()) * 8 + (d.last() - 48));
    }
}

/// The octal field of a byte is three columns wide, and the byte is read
/// back from the digits after its leading blanks.
pub proof fn lemma_octal_field(byte: u8)
    ensures
        octal_field(byte).len() == 3,
        octal_value(octal_field(byte).skip(3 - octal_digits(byte as nat).len())) == byte,
{
    reveal_with_fuel(octal_digits, 3);
    lemma_octal_digits_value(byte as nat);
    let k = 3 - octal_digits(byte as nat).len();
    assert(octal_field(byte).skip(k) =~= octal_digits(byte as nat));
}

/// Every byte of a visible form is printable ASCII, a visible form is one to
/// four bytes long, and no two bytes have the same visible form.
pub proof fn lemma_visible(b1: u8, b2: u8)
    ensures
        1 <= visible(b1).len() <= 4,
        forall|i: int| 0 <= i < visible(b1).len() ==> 32 <= #[trigger] visible(b1)[i] <= 126,
        b1 != b2 ==> visible(b1) != visible(b2),
{
    if b1 != b2 && visible(b1) == visible(b2) {
        let v = visible(b1);
        if v.len() == 1 {
            assert(v[0] == b1 && v[0] == b2);
        } else if v.len() == 2 {
            assert(v[1] == visible(b2)[1]);
        } else if v.len() == 3 {
            assert(v[2] == visible(b2)[2]);
        } else {
            assert(v[3] == visible(b2)[3]);
        }
    }
}

/// The octal digits of a byte, right-aligned in three columns.
pub fn format_octal(byte: u8) -> (r: Vec<u8>)
    ensures
        r@ == octal_field(byte),
{
    let d0 = byte % 8;
    let d1 = (byte / 8) % 8;
    let d2 = byte / 64;
    proof {
        reveal_with_fuel(octal_digits, 3);
        assert(byte as nat / 8 / 8 == byte as nat / 64);
    }
    let mut buf: Vec<u8> = Vec::new();
    if byte >= 64 {
        buf.push(DIGIT_ZERO + d2);
        buf.push(DIGIT_ZERO + d1);
    } else if byte >= 8 {
        buf.push(BLANK);
        buf.push(DIGIT_ZERO + d1);
    } else {
        buf.push(BLANK);
        buf.push(BLANK);
    }
    buf.push(DIGIT_ZERO + d0);
    assert(buf@ =~= octal_field(byte));
    buf
}

/// Appends the visible form of `byte` to `output` and returns its length.
pub fn write_visible_byte(output: &mut Vec<u8>, byte: u8) -> (r: usize)
    ensures
        final(output)@ == old(output)@ + visible(byte),
        r == visible(byte).len(),
{
    if byte < 32 {
        // Control characters: ^@, ^A, ..., ^_
        output.push(CARET);
        output.push(byte + 64);
        assert(output@ =~= old(output)@ + visible(byte));
        2
    } else if byte < 127 {
        // Printable ASCII (space through ~)
        output.push(byte);
        assert(output@ =~= old(output)@ + visible(byte));
        1
    } else if byte == 127 {
        // DEL: ^?
        output.push(CARET);
        output.push(QUESTION_MARK);
        assert(output@ =~= old(output)@ + visible(byte));
        2
    } else if byte < 160 {
        // High bytes with control equivalents: M-^@, M-^A, ..., M-^_
        output.push(LETTER_M);
        output.push(DASH);
        output.push(CARET);
        output.push(byte - 64);
        assert(output@ =~= old(output)@ + visible(byte));
        4
    } else if byte < 255 {
        // High bytes: M-<space>, M-!, ..., M-~
        output.push(LETTER_M);
        output.push(DASH);
        output.push(byte - 128);
        assert(output@ =~= old(output)@ + visible(byte));
        3
    } else {
        // Byte 255: M-^?
        output.push(LETTER_M);
        output.push(DASH);
        output.push(CARET);
        output.push(QUESTION_MARK);
        assert(output@ =~= old(output)@ + visible(byte));
        4
    }
}

/// Appends `n` blanks to `output`.
fn push_blanks(output: &mut Vec<u8>, n: usize)
    ensures
        final(output)@ == old(output)@ + blanks(n as nat),
{
    let mut i: usize = 0;
    while i < n
        invariant
            i <= n,
            output@ == old(output)@ + blanks(i as nat),
        decreases n - i,
    {
        output.push(BLANK);
        i = i + 1;
        assert(output@ =~= old(output)@ + blanks(i as nat));
    }
}

/// Writes a byte in visible form with right-padding to 4 spaces.
pub fn write_visible_byte_padded(output: &mut Vec<u8>, byte: u8)
    ensures
        final(output)@ == old(output)@ + visible_padded(byte),
{
    let display_width = write_visible_byte(output, byte);
    // Add right-padding spaces
    let padding = 4usize.saturating_sub(display_width);
    push_blanks(output, padding);
    assert(output@ =~= old(output)@ + visible_padded(byte));
}

/// Formats a byte as a visible string (for non-performance-critical path)
pub fn format_visible_byte(byte: u8) -> (r: String)
    ensures
        r@ == ascii_text(visible(byte)),
{
    let mut bytes: Vec<u8> = Vec::new();
    write_visible_byte(&mut bytes, byte);
    let mut result = String::new();
    let mut i: usize = 0;
    while i < bytes.len()
        invariant
            i <= bytes@.len(),
            bytes@ == visible(byte),
            result@ == ascii_text(bytes@.take(i as int)),
        decreases bytes.len() - i,
    {
        let b = bytes[i];
        push_char(&mut result, b as char);
        i = i + 1;
        assert(result@ =~= ascii_text(bytes@.take(i as int)));
    }
    assert(bytes@.take(bytes@.len() as int) =~= bytes@);
    result
}

// ---------------------------------------------------------------------------
// The line of a difference in verbose output.
// ---------------------------------------------------------------------------

/// The bytes of an ASCII text.
pub open spec fn ascii_bytes(s: Seq<char>) -> Seq<u8> {
    s.map_values(|c: char| c as u8)
}

/// The decimal digits of `n` as ASCII bytes.
pub open spec fn decimal_bytes(n: nat) -> Seq<u8> {
    ascii_bytes(decimal(n))
}

/// The blanks that right-align a text of `len` columns in `width` columns.
pub open spec fn padding(width: nat, len: nat) -> Seq<u8> {
    if width > len {
        blanks((width - len) as nat)
    } else {
        Seq::empty()
    }
}

/// One line of verbose output: the position right-aligned in `width`
/// columns, the two bytes in octal and, with `print_bytes`, each followed by
/// its visible form.
pub open spec fn verbose_line(from_byte: u8, to_byte: u8, at_byte: nat, width: nat, print_bytes: bool) -> Seq<u8> {
    let num = decimal_bytes(at_byte);
    if print_bytes {
        padding(width, num.len()) + num + seq![BLANK] + octal_field(from_byte) + seq![BLANK]
            + visible_padded(from_byte) + seq![BLANK] + octal_field(to_byte) + seq![BLANK]
            + visible(to_byte) + seq![NEWLINE]
    } else {
        padding(width, num.len()) + num + seq![BLANK] + octal_field(from_byte) + seq![BLANK]
            + octal_field(to_byte) + seq![NEWLINE]
    }
}

/// Appends the bytes of the characters of `s` to `output`.
fn push_ascii(output: &mut Vec<u8>, s: &str)
    ensures
        final(output)@ == old(output)@ + ascii_bytes(s@),
{
    let v = chars_of(s);
    let mut i: usize = 0;
    while i < v.len()
        invariant
            i <= v@.len(),
            v@ == s@,
            output@ == old(output)@ + ascii_bytes(v@.take(i as int)),
        decreases v.len() - i,
    {
        output.push(v[i] as u8);
        i = i + 1;
        assert(output@ =~= old(output)@ + ascii_bytes(v@.take(i as int)));
    }
    assert(v@.take(v@.len() as int) =~= v@);
}

/// Appends the octal field of `byte` to `output`.
fn push_octal(output: &mut Vec<u8>, byte: u8)
    ensures
        final(output)@ == old(output)@ + octal_field(byte),
{
    let o = format_octal(byte);
    let mut i: usize = 0;
    while i < o.len()
        invariant
            i <= o@.len(),
            o@ == octal_field(byte),
            output@ == old(output)@ + o@.take(i as int),
        decreases o.len() - i,
    {
        output.push(o[i]);
        i = i + 1;
        assert(output@ =~= old(output)@ + o@.take(i as int));
    }
    assert(o@.take(o@.len() as int) =~= o@);
}

/// Appends the line of a difference in verbose output: the position
/// `at_byte` right-aligned in `offset_width` columns and the two bytes.
///
/// Without `--print-bytes` the position must fit in the width.
#[verifier::spinoff_prover]
pub fn format_verbose_difference(
    from_byte: u8,
    to_byte: u8,
    at_byte: u64,
    offset_width: usize,
    output: &mut Vec<u8>,
    params: &ParamsCmp,
) -> (r: Result<(), String>)
    requires
        !params.silent,
        !params.print_bytes ==> decimal(at_byte as nat).len() <= offset_width,
    ensures
        r is Ok,
        final(output)@ == old(output)@ + verbose_line(
            from_byte,
            to_byte,
            at_byte as nat,
            offset_width as nat,
            params.print_bytes,
        ),
{
    let at_byte_str = itoa_decimal(at_byte);
    let len = at_byte_str.unicode_len();
    let at_byte_padding = if params.print_bytes {
        offset_width.saturating_sub(len)
    } else {
        offset_width - len
    };
    push_blanks(output, at_byte_padding);
    push_ascii(output, at_byte_str.as_str());
    output.push(BLANK);
    push_octal(output, from_byte);
    output.push(BLANK);
    if params.print_bytes {
        write_visible_byte_padded(output, from_byte);
        output.push(BLANK);
        push_octal(output, to_byte);
        output.push(BLANK);
        write_visible_byte(output, to_byte);
    } else {
        push_octal(output, to_byte);
    }
    output.push(NEWLINE);
    assert(output@ =~= old(output)@ + verbose_line(
        from_byte,
        to_byte,
        at_byte as nat,
        offset_width as nat,
        params.print_bytes,
    ));
    Ok(())
}

// ---------------------------------------------------------------------------
// The messages of the end of a file and of a difference.
// ---------------------------------------------------------------------------

/// The decimal text of a number.
pub open spec fn num_text(n: int) -> Seq<char> {
    decimal(n as nat)
}

/// What cmp says when the input `eof_on` ended before the other one: at
/// byte `at_byte` of the comparison, in line `at_line`.
pub open spec fn eof_text(
    exe: Seq<char>,
    at_byte: u64,
    at_line: u64,
    start_of_line: bool,
    eof_on: Seq<char>,
    verbose: bool,
) -> Seq<char> {
    let head = exe + ": EOF on '"@ + eof_on + "'"@;
    if at_byte == 1 {
        head + " which is empty"@
    } else if verbose {
        head + " after byte "@ + num_text(at_byte - 1)
    } else if start_of_line {
        head + " after byte "@ + num_text(at_byte - 1) + ", line "@ + num_text(at_line - 1)
    } else {
        head + " after byte "@ + num_text(at_byte - 1) + ", in line "@ + num_text(at_line as int)
    }
}

/// Appends the decimal text of `n` to `s`.
fn append_number(s: &mut String, n: u64)
    ensures
        final(s)@ == old(s)@ + decimal(n as nat),
{
    let t = itoa_decimal(n);
    s.append(t.as_str());
}

/// The message that the input `eof_on` ended before the other one, or
/// `None` where cmp is silent.
pub fn eof_message(
    at_byte: u64,
    at_line: u64,
    start_of_line: bool,
    eof_on: &str,
    params: &ParamsCmp,
) -> (r: Option<String>)
    requires
        at_byte >= 1,
        at_byte != 1 && !params.verbose && start_of_line ==> at_line >= 1,
    ensures
        params.silent ==> r is None,
        !params.silent ==> (r matches Some(m) && m@ == eof_text(
            executable_name(params.util),
            at_byte,
            at_line,
            start_of_line,
            eof_on@,
            params.verbose,
        )),
{
    if params.silent {
        return None;
    }
    let mut m = String::new();
    m.append(params.util.name());
    m.append(": EOF on '");
    m.append(eof_on);
    m.append("'");
    if at_byte == 1 {
        m.append(" which is empty");
    } else if params.verbose {
        m.append(" after byte ");
        append_number(&mut m, at_byte - 1);
    } else if start_of_line {
        m.append(" after byte ");
        append_number(&mut m, at_byte - 1);
        m.append(", line ");
        append_number(&mut m, at_line - 1);
    } else {
        m.append(" after byte ");
        append_number(&mut m, at_byte - 1);
        m.append(", in line ");
        append_number(&mut m, at_line);
    }
    assert(m@ =~= eof_text(
        executable_name(params.util),
        at_byte,
        at_line,
        start_of_line,
        eof_on@,
        params.verbose,
    ));
    Some(m)
}

/// A text padded on the right with blanks to `width` characters.
pub open spec fn pad_right(s: Seq<char>, width: nat) -> Seq<char> {
    if width > s.len() {
        s + Seq::new((width - s.len()) as nat, |i: int| ' ')
    } else {
        s
    }
}

/// What cmp says of the first difference: the two files, the position and,
/// with `print_bytes`, the two bytes in octal and in visible form. In the
/// POSIX locale a position without the bytes counts characters.
pub open spec fn difference_text(
    from: Seq<char>,
    to: Seq<char>,
    from_byte: u8,
    to_byte: u8,
    at_byte: u64,
    at_line: u64,
    print_bytes: bool,
    posix_locale: bool,
) -> Seq<char> {
    let term = if posix_locale && !print_bytes {
        "char"@
    } else {
        "byte"@
    };
    let head = from + " "@ + to + " differ: "@ + term + " "@ + num_text(at_byte as int) + ", line "@
        + num_text(at_line as int);
    if print_bytes {
        let w: nat = if to_byte >= 127 {
            2
        } else {
            1
        };
        head + " is "@ + ascii_text(octal_field(from_byte)) + " "@ + pad_right(
            ascii_text(visible(from_byte)),
            w,
        ) + " "@ + ascii_text(octal_field(to_byte)) + " "@ + pad_right(ascii_text(visible(to_byte)), w)
    } else {
        head
    }
}

/// Appends the text of the ASCII bytes `b` to `s`.
fn append_ascii(s: &mut String, b: &Vec<u8>)
    ensures
        final(s)@ == old(s)@ + ascii_text(b@),
{
    let mut i: usize = 0;
    while i < b.len()
        invariant
            i <= b@.len(),
            s@ == old(s)@ + ascii_text(b@.take(i as int)),
        decreases b.len() - i,
    {
        push_char(s, b[i] as char);
        i = i + 1;
        assert(s@ =~= old(s)@ + ascii_text(b@.take(i as int)));
    }
    assert(b@.take(b@.len() as int) =~= b@);
}

/// Appends the text `t` to `s`, padded on the right to `width` characters.
fn append_padded(s: &mut String, t: &String, width: usize)
    ensures
        final(s)@ == old(s)@ + pad_right(t@, width as nat),
{
    s.append(t.as_str());
    let len = t.unicode_len();
    let mut k = len;
    while k < width
        invariant
            len == t@.len(),
            len <= k <= width || (width < len && k == len),
            s@ == old(s)@ + t@ + Seq::new((k - len) as nat, |i: int| ' '),
        decreases width - k,
    {
        push_char(s, ' ');
        k = k + 1;
        assert(s@ =~= old(s)@ + t@ + Seq::new((k - len) as nat, |i: int| ' '));
    }
    assert(s@ =~= old(s)@ + pad_right(t@, width as nat));
}

/// The message of the first difference of the two files, or `None` where
/// cmp is silent; `posix_locale` tells whether messages are in the POSIX
/// locale.
pub fn difference_message(
    from_byte: u8,
    to_byte: u8,
    at_byte: u64,
    at_line: u64,
    params: &ParamsCmp,
    posix_locale: bool,
) -> (r: Option<String>)
    ensures
        params.silent ==> r is None,
        !params.silent ==> (r matches Some(m) && m@ == difference_text(
            params.from@,
            params.to@,
            from_byte,
            to_byte,
            at_byte,
            at_line,
            params.print_bytes,
            posix_locale,
        )),
{
    if params.silent {
        return None;
    }
    let mut m = String::new();
    m.append(params.from.as_str());
    m.append(" ");
    m.append(params.to.as_str());
    m.append(" differ: ");
    if posix_locale && !params.print_bytes {
        m.append("char");
    } else {
        m.append("byte");
    }
    m.append(" ");
    append_number(&mut m, at_byte);
    m.append(", line ");
    append_number(&mut m, at_line);
    if params.print_bytes {
        let char_width: usize = if to_byte >= 127 {
            2
        } else {
            1
        };
        m.append(" is ");
        append_ascii(&mut m, &format_octal(from_byte));
        m.append(" ");
        append_padded(&mut m, &format_visible_byte(from_byte), char_width);
        m.append(" ");
        append_ascii(&mut m, &format_octal(to_byte));
        m.append(" ");
        append_padded(&mut m, &format_visible_byte(to_byte), char_width);
    }
    assert(m@ =~= difference_text(
        params.from@,
        params.to@,
        from_byte,
        to_byte,
        at_byte,
        at_line,
        params.print_bytes,
        posix_locale,
    ));
    Some(m)
}

// ---------------------------------------------------------------------------
// The width of the positions in verbose output.
// ---------------------------------------------------------------------------

/// Ten to the power `k`.
pub open spec fn pow10(k: nat) -> nat
    decreases k,
{
    if k == 0 {
        1
    } else {
        10 * pow10((k - 1) as nat)
    }
}

/// A number below `10^k` has at most `k` decimal digits.
proof fn lemma_decimal_len_below(n: nat, k: nat)
    requires
        k >= 1,
        n < pow10(k),
    ensures
        decimal(n).len() <= k,
    decreases k,
{
    if n >= 10 {
        assert(k >= 2) by {
            if k == 1 {
                assert(pow10(1) == 10) by {
                    reveal_with_fuel(pow10, 2);
                }
            }
        }
        assert(n / 10 < pow10((k - 1) as nat));
        lemma_decimal_len_below(n / 10, (k - 1) as nat);
    }
}

/// The number of decimal digits of `n`.
fn decimal_width(n: u64) -> (r: usize)
    ensures
        r == decimal(n as nat).len(),
{
    proof {
        assert(pow10(20) == 100000000000000000000nat) by {
            reveal_with_fuel(pow10, 21);
        }
        lemma_decimal_len_below(n as nat, 20);
    }
    let mut m = n;
    let mut k: usize = 1;
    while m >= 10
        invariant
            k + decimal(m as nat).len() == decimal(n as nat).len() + 1,
            decimal(n as nat).len() <= 20,
            1 <= decimal(m as nat).len(),
        decreases m,
    {
        assert(decimal(m as nat).len() == decimal((m / 10) as nat).len() + 1);
        m = m / 10;
        k = k + 1;
    }
    k
}

/// The sizes of the two files, where both are known.
pub type FileSizes = Option<(u64, u64)>;

/// The number of bytes of a file of `size` bytes that are compared: those
/// after the `skip` first, at most `limit` of them.
pub open spec fn compared_size(size: u64, skip: Option<u64>, limit: Option<u64>) -> int {
    let k: int = match skip {
        Some(k) => k as int,
        None => 0,
    };
    let rest: int = if size > k {
        size - k
    } else {
        0
    };
    match limit {
        Some(l) => if rest < l {
            rest
        } else {
            l as int
        },
        None => rest,
    }
}

/// The number of bytes of a file of `size` bytes that are compared.
fn compared_size_of(size: u64, skip: Option<u64>, limit: Option<u64>) -> (r: u64)
    ensures
        r == compared_size(size, skip, limit),
{
    let k = match skip {
        Some(k) => k,
        None => 0,
    };
    let rest = if size > k {
        size - k
    } else {
        0
    };
    match limit {
        Some(l) => if rest < l {
            rest
        } else {
            l
        },
        None => rest,
    }
}

/// Where cmp is silent and the parts of the two files that are compared
/// (after the bytes to skip, at most the byte limit) differ in size, the
/// files differ: no byte needs to be read.
pub fn sizes_decide(params: &ParamsCmp, sizes: FileSizes) -> (r: bool)
    ensures
        r == (params.silent && (sizes matches Some((a, b)) && compared_size(
            a,
            params.ignore_initial_bytes_from,
            params.bytes_limit,
        ) != compared_size(b, params.ignore_initial_bytes_to, params.bytes_limit))),
{
    match sizes {
        Some((a, b)) => params.silent && compared_size_of(
            a,
            params.ignore_initial_bytes_from,
            params.bytes_limit,
        ) != compared_size_of(b, params.ignore_initial_bytes_to, params.bytes_limit),
        None => false,
    }
}

/// The number of positions that can be compared: the byte limit, and not
/// more than the smaller file where both sizes are known.
pub open spec fn compared_positions(bytes_limit: Option<u64>, sizes: FileSizes) -> u64 {
    let limit = match bytes_limit {
        Some(l) => l,
        None => u64::MAX,
    };
    match sizes {
        Some((a, b)) => {
            let smaller = if a < b {
                a
            } else {
                b
            };
            if smaller < limit {
                smaller
            } else {
                limit
            }
        },
        None => limit,
    }
}

/// The width of the positions in verbose output: the number of digits of
/// the last position that can be compared, and 2 where none can.
pub open spec fn spec_offset_width(bytes_limit: Option<u64>, sizes: FileSizes) -> nat {
    let n = compared_positions(bytes_limit, sizes);
    if n == 0 {
        2
    } else {
        decimal(n as nat).len()
    }
}

/// The width of the positions in verbose output.
pub fn offset_width(params: &ParamsCmp, sizes: FileSizes) -> (r: usize)
    ensures
        r == spec_offset_width(params.bytes_limit, sizes),
{
    let limit = match params.bytes_limit {
        Some(l) => l,
        None => u64::MAX,
    };
    let n = match sizes {
        Some((a, b)) => {
            let smaller = if a < b {
                a
            } else {
                b
            };
            if smaller < limit {
                smaller
            } else {
                limit
            }
        },
        None => limit,
    };
    if n == 0 {
        2
    } else {
        decimal_width(n)
    }
}

// ---------------------------------------------------------------------------
// The results of cmp.
// ---------------------------------------------------------------------------

/// The Ok result of cmp.
#[derive(Debug, Clone, Copy, PartialEq, Eq, Structural)]
pub enum CmpOk {
    Different,
    Equal,
    Help,
    Version,
}

/// Errors for cmp.
///
/// To centralize error messages and make it easier to use in a lib.
#[derive(Debug, PartialEq)]
pub enum CmpError {
    // parse errors
    ParseError(ParamsCmpError),
    // simple string, should be more specific
    GenericString(String),
    // compare errors
    OutputError(String),
    // (msg)
    ReadFileError(String),
}

/// The message of a cmp error.
pub open spec fn cmp_error_text(e: &CmpError) -> Seq<char> {
    match e {
        CmpError::ParseError(p) => error_text(p@),
        CmpError::GenericString(msg) => msg@,
        CmpError::OutputError(msg) => msg@,
        CmpError::ReadFileError(msg) => msg@,
    }
}

impl CmpError {
    /// Wraps a parse error.
    pub fn from(e: ParamsCmpError) -> (r: Self)
        ensures
            r == CmpError::ParseError(e),
    {
        CmpError::ParseError(e)
    }

    /// The message of the error as the user sees it.
    pub fn message(&self) -> (r: String)
        requires
            self matches CmpError::ParseError(p) ==> error_shows_arg(p@),
        ensures
            r@ == cmp_error_text(self),
    {
        match self {
            CmpError::ParseError(p) => p.message(),
            CmpError::GenericString(msg) => msg.clone(),
            CmpError::OutputError(msg) => msg.clone(),
            CmpError::ReadFileError(msg) => msg.clone(),
        }
    }
}

// ---------------------------------------------------------------------------
// The comparison, one chunk of both inputs at a time.
// ---------------------------------------------------------------------------

/// Where the comparison stands: the position of the next byte, its line,
/// whether it starts a line, and the result so far.
#[derive(Debug, Clone, Copy, PartialEq, Eq)]
pub struct CompareState {
    pub at_byte: u64,
    pub at_line: u64,
    pub start_of_line: bool,
    pub compare: CmpOk,
}

impl CompareState {
    /// Positions and lines count from 1, and no line holds less than a byte.
    pub open spec fn wf(self) -> bool {
        1 <= self.at_line <= self.at_byte
    }

    /// The state before the first byte.
    pub fn new() -> (s: Self)
        ensures
            s == (CompareState { at_byte: 1, at_line: 1, start_of_line: true, compare: CmpOk::Equal }),
            s.wf(),
    {
        CompareState { at_byte: 1, at_line: 1, start_of_line: true, compare: CmpOk::Equal }
    }
}

/// What the comparison of a chunk of both inputs asks the caller to do.
#[derive(Debug, PartialEq)]
pub enum ChunkOutcome {
    /// Both inputs are at their end: the result is the state's.
    Done,
    /// One input ended before the other: the first one where `on_from`.
    Eof { on_from: bool },
    /// The first difference, at the position `at_byte` in line `at_line`,
    /// ends the comparison.
    Difference { from_byte: u8, to_byte: u8, at_byte: u64, at_line: u64 },
    /// The byte limit was passed: the result is the state's, once `output`,
    /// the lines of verbose output up to the limit, is written.
    LimitReached { output: Vec<u8> },
    /// Go on after `consumed` bytes of both inputs, once `output`, the
    /// lines of verbose output, is written.
    Consumed { consumed: usize, output: Vec<u8> },
}

/// A [`ChunkOutcome`] with its output as a sequence.
pub enum OutcomeView {
    Done,
    Eof(bool),
    Difference(u8, u8, u64, u64),
    LimitReached(Seq<u8>),
    Consumed(int, Seq<u8>),
}

impl View for ChunkOutcome {
    type V = OutcomeView;

    open spec fn view(&self) -> OutcomeView {
        match self {
            ChunkOutcome::Done => OutcomeView::Done,
            ChunkOutcome::Eof { on_from } => OutcomeView::Eof(*on_from),
            ChunkOutcome::Difference { from_byte, to_byte, at_byte, at_line } => OutcomeView::Difference(
                *from_byte,
                *to_byte,
                *at_byte,
                *at_line,
            ),
            ChunkOutcome::LimitReached { output } => OutcomeView::LimitReached(output@),
            ChunkOutcome::Consumed { consumed, output } => OutcomeView::Consumed(
                *consumed as int,
                output@,
            ),
        }
    }
}

/// The number of newline bytes in `s`.
pub open spec fn count_newlines(s: Seq<u8>) -> nat
    decreases s.len(),
{
    if s.len() == 0 {
        0
    } else {
        count_newlines(s.drop_last()) + if s.last() == NEWLINE {
            1nat
        } else {
            0nat
        }
    }
}

/// A sequence holds at most as many newlines as bytes.
proof fn lemma_count_newlines_len(s: Seq<u8>)
    ensures
        count_newlines(s) <= s.len(),
    decreases s.len(),
{
    if s.len() > 0 {
        lemma_count_newlines_len(s.drop_last());
    }
}

/// The newlines of two sequences one after the other are those of each.
proof fn lemma_count_newlines_concat(a: Seq<u8>, b: Seq<u8>)
    ensures
        count_newlines(a + b) == count_newlines(a) + count_newlines(b),
    decreases b.len(),
{
    if b.len() > 0 {
        lemma_count_newlines_concat(a, b.drop_last());
        assert((a + b).drop_last() =~= a + b.drop_last());
    } else {
        assert(a + b =~= a);
    }
}

/// The state after the byte `from_byte` of the first input and `to_byte` of
/// the second were compared.
pub open spec fn byte_state(s: CompareState, from_byte: u8, to_byte: u8) -> CompareState {
    CompareState {
        at_byte: (s.at_byte + 1) as u64,
        at_line: if from_byte == NEWLINE {
            (s.at_line + 1) as u64
        } else {
            s.at_line
        },
        start_of_line: from_byte == NEWLINE,
        compare: if from_byte != to_byte {
            CmpOk::Different
        } else {
            s.compare
        },
    }
}

/// Has the position passed the byte limit?
pub open spec fn past_limit(at_byte: u64, limit: Option<u64>) -> bool {
    match limit {
        Some(l) => at_byte > l,
        None => false,
    }
}

/// The outcome of going byte by byte through the first `n` bytes of the two
/// chunks, from the `k`-th on.
pub enum ScanView {
    /// The first difference, in the state where it was found.
    Report(u8, u8, CompareState),
    /// The state after the bytes, and the verbose output they gave.
    Scanned(CompareState, Seq<u8>),
    /// The state where the byte limit was passed, and the verbose output
    /// up to there.
    Limited(CompareState, Seq<u8>),
}

/// Goes byte by byte through `f[k..n]` and `t[k..n]`: a difference ends the
/// comparison, or with `verbose` adds a line to `out`; the limit ends the
/// chunk.
pub open spec fn spec_scan(
    f: Seq<u8>,
    t: Seq<u8>,
    k: int,
    n: int,
    s: CompareState,
    out: Seq<u8>,
    limit: Option<u64>,
    verbose: bool,
    print_bytes: bool,
    width: nat,
) -> ScanView
    decreases n - k,
{
    if k >= n || k < 0 {
        ScanView::Scanned(s, out)
    } else if f[k] != t[k] && !verbose {
        ScanView::Report(f[k], t[k], s)
    } else {
        let out2 = if f[k] != t[k] {
            out + verbose_line(f[k], t[k], s.at_byte as nat, width, print_bytes)
        } else {
            out
        };
        let s2 = byte_state(s, f[k], t[k]);
        if past_limit(s2.at_byte, limit) {
            ScanView::Limited(s2, out2)
        } else {
            spec_scan(f, t, k + 1, n, s2, out2, limit, verbose, print_bytes, width)
        }
    }
}

/// Without a byte limit, going byte by byte through `f[k..n]` and
/// `t[k..n]` stops at a difference exactly where it is not verbose and the
/// two differ; else it passes all of them: the position moves by their
/// number, the line by the newlines of the first, and the result turns to
/// different exactly where a byte differs.
pub proof fn lemma_scan_without_limit(
    f: Seq<u8>,
    t: Seq<u8>,
    k: int,
    n: int,
    s: CompareState,
    out: Seq<u8>,
    verbose: bool,
    print_bytes: bool,
    width: nat,
)
    requires
        0 <= k <= n,
        n <= f.len(),
        n <= t.len(),
        s.wf(),
        s.at_byte + (n - k) <= u64::MAX,
    ensures
        (spec_scan(f, t, k, n, s, out, None, verbose, print_bytes, width) is Report) <==> (!verbose
            && f.subrange(k, n) != t.subrange(k, n)),
        !(spec_scan(f, t, k, n, s, out, None, verbose, print_bytes, width) is Limited),
        spec_scan(f, t, k, n, s, out, None, verbose, print_bytes, width) matches ScanView::Scanned(
            s2,
            _,
        ) ==> {
            &&& s2.wf()
            &&& s2.at_byte == s.at_byte + (n - k)
            &&& s2.at_line == s.at_line + count_newlines(f.subrange(k, n))
            &&& (s2.compare == CmpOk::Different) <==> (s.compare == CmpOk::Different
                || f.subrange(k, n) != t.subrange(k, n))
        },
    decreases n - k,
{
    if k < n {
        let s2 = byte_state(s, f[k], t[k]);
        let out2 = if f[k] != t[k] {
            out + verbose_line(f[k], t[k], s.at_byte as nat, width, print_bytes)
        } else {
            out
        };
        lemma_scan_without_limit(f, t, k + 1, n, s2, out2, verbose, print_bytes, width);
        assert(f.subrange(k, n) =~= seq![f[k]] + f.subrange(k + 1, n));
        assert(t.subrange(k, n) =~= seq![t[k]] + t.subrange(k + 1, n));
        lemma_count_newlines_concat(seq![f[k]], f.subrange(k + 1, n));
        assert(seq![f[k]].drop_last() =~= Seq::<u8>::empty());
        assert(count_newlines(Seq::<u8>::empty()) == 0);
        assert(count_newlines(seq![f[k]]) == if f[k] == NEWLINE {
            1nat
        } else {
            0nat
        });
        if f.subrange(k, n) == t.subrange(k, n) {
            assert(f.subrange(k + 1, n) =~= f.subrange(k, n).subrange(1, n - k));
            assert(t.subrange(k + 1, n) =~= t.subrange(k, n).subrange(1, n - k));
            assert(f[k] == f.subrange(k, n)[0]);
            assert(t[k] == t.subrange(k, n)[0]);
        }
    } else {
        assert(f.subrange(k, n) =~= t.subrange(k, n));
        assert(f.subrange(k, n) =~= Seq::<u8>::empty());
    }
}

/// The smaller of two lengths.
pub open spec fn min_len(a: int, b: int) -> int {
    if a < b {
        a
    } else {
        b
    }
}

/// What comparing the chunks `f` and `t` from the state `s` gives: the new
/// state and what to do next.
///
/// Where both chunks are empty the inputs ended, where one is the input
/// ended early. Where the bytes the two chunks share are equal they are
/// passed at once; else they are compared byte by byte. Where the limit is
/// passed byte by byte, the rest of the chunks is passed over unread.
pub open spec fn spec_compare_chunk(
    s: CompareState,
    f: Seq<u8>,
    t: Seq<u8>,
    limit: Option<u64>,
    verbose: bool,
    print_bytes: bool,
    width: nat,
) -> (CompareState, OutcomeView) {
    if past_limit(s.at_byte, limit) {
        (s, OutcomeView::LimitReached(Seq::empty()))
    } else if f.len() == 0 && t.len() == 0 {
        (s, OutcomeView::Done)
    } else if f.len() == 0 || t.len() == 0 {
        (s, OutcomeView::Eof(f.len() == 0))
    } else {
        let n = min_len(f.len() as int, t.len() as int);
        if f.take(n) == t.take(n) {
            let s2 = CompareState {
                at_byte: (s.at_byte + n) as u64,
                at_line: (s.at_line + count_newlines(f.take(n))) as u64,
                start_of_line: f[n - 1] == NEWLINE,
                compare: s.compare,
            };
            if past_limit(s2.at_byte, limit) {
                (s2, OutcomeView::LimitReached(Seq::empty()))
            } else {
                (s2, OutcomeView::Consumed(n, Seq::empty()))
            }
        } else {
            match spec_scan(f, t, 0, n, s, Seq::empty(), limit, verbose, print_bytes, width) {
                ScanView::Report(fb, tb, r) => (
                    CompareState { compare: CmpOk::Different, ..r },
                    OutcomeView::Difference(fb, tb, r.at_byte, r.at_line),
                ),
                ScanView::Scanned(s2, out) => (s2, OutcomeView::Consumed(n, out)),
                ScanView::Limited(s2, out) => (s2, OutcomeView::LimitReached(out)),
            }
        }
    }
}

/// Without a byte limit, a chunk ends the comparison with a difference
/// exactly where it is not verbose and the bytes the two chunks share
/// differ; else all of those bytes are passed, and the result turns to
/// different exactly where one of them differs.
pub proof fn lemma_chunk_without_limit(
    s: CompareState,
    f: Seq<u8>,
    t: Seq<u8>,
    verbose: bool,
    print_bytes: bool,
    width: nat,
)
    requires
        s.wf(),
        f.len() > 0,
        t.len() > 0,
        s.at_byte + min_len(f.len() as int, t.len() as int) <= u64::MAX,
    ensures
        ({
            let n = min_len(f.len() as int, t.len() as int);
            let (s2, o) = spec_compare_chunk(s, f, t, None, verbose, print_bytes, width);
            &&& (o is Difference) <==> (!verbose && f.take(n) != t.take(n))
            &&& !(o is Difference) ==> {
                &&& o matches OutcomeView::Consumed(m, _)
                &&& m == n
                &&& s2.wf()
                &&& s2.at_byte == s.at_byte + n
                &&& s2.at_line == s.at_line + count_newlines(f.take(n))
                &&& (s2.compare == CmpOk::Different) <==> (s.compare == CmpOk::Different || f.take(n)
                    != t.take(n))
            }
        }),
{
    let n = min_len(f.len() as int, t.len() as int);
    assert(f.subrange(0, n) =~= f.take(n));
    assert(t.subrange(0, n) =~= t.take(n));
    if f.take(n) == t.take(n) {
        lemma_count_newlines_len(f.take(n));
    } else {
        lemma_scan_without_limit(f, t, 0, n, s, Seq::empty(), verbose, print_bytes, width);
    }
}

/// The next chunk that a reader hands over: up to `size` bytes of `s` from
/// `pos` on.
pub open spec fn chunk_at(s: Seq<u8>, pos: int, size: nat) -> Seq<u8> {
    if pos + size < s.len() {
        s.subrange(pos, pos + size)
    } else {
        s.subrange(pos, s.len() as int)
    }
}

/// The result of comparing the inputs `f` and `t` from the position `pos`
/// on, in the state `s`, where the readers hand over chunks of the sizes
/// `sizes[i..]`; `None` where the sizes run out before the end.
pub open spec fn spec_run(
    f: Seq<u8>,
    t: Seq<u8>,
    pos: int,
    s: CompareState,
    sizes: Seq<(nat, nat)>,
    i: int,
    limit: Option<u64>,
    verbose: bool,
    print_bytes: bool,
    width: nat,
) -> Option<CmpOk>
    decreases sizes.len() - i,
{
    if i >= sizes.len() || i < 0 {
        None
    } else {
        let fc = chunk_at(f, pos, sizes[i].0);
        let tc = chunk_at(t, pos, sizes[i].1);
        match spec_compare_chunk(s, fc, tc, limit, verbose, print_bytes, width) {
            (s2, OutcomeView::Done) => Some(s2.compare),
            (s2, OutcomeView::LimitReached(_)) => Some(s2.compare),
            (_, OutcomeView::Eof(_)) => Some(CmpOk::Different),
            (_, OutcomeView::Difference(..)) => Some(CmpOk::Different),
            (s2, OutcomeView::Consumed(n, _)) => spec_run(
                f,
                t,
                pos + n,
                s2,
                sizes,
                i + 1,
                limit,
                verbose,
                print_bytes,
                width,
            ),
        }
    }
}

/// The induction of [`lemma_compare_equal_iff_same`]: from a position up to
/// which the inputs agree exactly where the result is still equal.
#[verifier::rlimit(40)]
proof fn lemma_run_from(
    f: Seq<u8>,
    t: Seq<u8>,
    pos: int,
    s: CompareState,
    sizes: Seq<(nat, nat)>,
    i: int,
    verbose: bool,
    print_bytes: bool,
    width: nat,
)
    requires
        0 <= i,
        0 <= pos <= f.len(),
        pos <= t.len(),
        s.wf(),
        s.at_byte == pos + 1,
        f.len() < u64::MAX,
        s.compare == CmpOk::Equal || s.compare == CmpOk::Different,
        (s.compare == CmpOk::Equal) <==> (f.take(pos) == t.take(pos)),
        forall|j: int| 0 <= j < sizes.len() ==> (#[trigger] sizes[j]).0 >= 1 && sizes[j].1 >= 1,
    ensures
        spec_run(f, t, pos, s, sizes, i, None, verbose, print_bytes, width) matches Some(r) ==> {
            &&& r == CmpOk::Equal || r == CmpOk::Different
            &&& (r == CmpOk::Equal) <==> (f == t)
        },
    decreases sizes.len() - i,
{
    if i < sizes.len() {
        let fc = chunk_at(f, pos, sizes[i].0);
        let tc = chunk_at(t, pos, sizes[i].1);
        if fc.len() == 0 && tc.len() == 0 {
            assert(f =~= f.take(pos));
            assert(t =~= t.take(pos));
        } else if fc.len() == 0 || tc.len() == 0 {
            assert(f.len() != t.len());
        } else {
            let n = min_len(fc.len() as int, tc.len() as int);
            lemma_chunk_without_limit(s, fc, tc, verbose, print_bytes, width);
            assert(fc.take(n) =~= f.subrange(pos, pos + n));
            assert(tc.take(n) =~= t.subrange(pos, pos + n));
            assert(f.take(pos + n) =~= f.take(pos) + f.subrange(pos, pos + n));
            assert(t.take(pos + n) =~= t.take(pos) + t.subrange(pos, pos + n));
            if f.take(pos + n) == t.take(pos + n) {
                assert(f.take(pos) =~= f.take(pos + n).take(pos));
                assert(t.take(pos) =~= t.take(pos + n).take(pos));
                assert(f.subrange(pos, pos + n) =~= f.take(pos + n).skip(pos));
                assert(t.subrange(pos, pos + n) =~= t.take(pos + n).skip(pos));
            }
            if fc.take(n) != tc.take(n) {
                assert(f.subrange(pos, pos + n) =~= f.skip(pos).take(n));
                assert(t.subrange(pos, pos + n) =~= t.skip(pos).take(n));
            }
            let (s2, o) = spec_compare_chunk(s, fc, tc, None, verbose, print_bytes, width);
            if !(o is Difference) {
                lemma_run_from(f, t, pos + n, s2, sizes, i + 1, verbose, print_bytes, width);
            }
        }
    }
}

/// Without a byte limit, cmp finds two inputs equal exactly when they hold
/// the same bytes, and different otherwise, whatever the sizes of the chunks
/// that the readers hand over.
pub proof fn lemma_compare_equal_iff_same(
    f: Seq<u8>,
    t: Seq<u8>,
    sizes: Seq<(nat, nat)>,
    verbose: bool,
    print_bytes: bool,
    width: nat,
)
    requires
        f.len() < u64::MAX,
        forall|j: int| 0 <= j < sizes.len() ==> (#[trigger] sizes[j]).0 >= 1 && sizes[j].1 >= 1,
    ensures
        spec_run(
            f,
            t,
            0,
            CompareState { at_byte: 1, at_line: 1, start_of_line: true, compare: CmpOk::Equal },
            sizes,
            0,
            None,
            verbose,
            print_bytes,
            width,
        ) matches Some(r) ==> {
            &&& r == CmpOk::Equal || r == CmpOk::Different
            &&& (r == CmpOk::Equal) <==> (f == t)
        },
{
    assert(f.take(0) =~= t.take(0));
    lemma_run_from(
        f,
        t,
        0,
        CompareState { at_byte: 1, at_line: 1, start_of_line: true, compare: CmpOk::Equal },
        sizes,
        0,
        verbose,
        print_bytes,
        width,
    );
}

/// Where going byte by byte through `f[k0..n]` and `t[k0..n]` stops at a
/// difference, it is the first one from `k0` on, and it is reported at its
/// own position and line: `k - k0` bytes and the newlines among them after
/// those of `s`.
proof fn lemma_scan_report(
    f: Seq<u8>,
    t: Seq<u8>,
    k0: int,
    n: int,
    s: CompareState,
    out: Seq<u8>,
    limit: Option<u64>,
    verbose: bool,
    print_bytes: bool,
    width: nat,
)
    requires
        0 <= k0 <= n,
        n <= f.len(),
        n <= t.len(),
        s.wf(),
        s.at_byte + (n - k0) <= u64::MAX,
    ensures
        ({
            let r0 = spec_scan(f, t, k0, n, s, out, limit, verbose, print_bytes, width);
            r0 is Report ==> !verbose && exists|k: int|
                #![trigger f[k], t[k]]
                {
                    &&& k0 <= k < n
                    &&& f[k] != t[k]
                    &&& (forall|j: int| k0 <= j < k ==> f[j] == t[j])
                    &&& r0->Report_0 == f[k]
                    &&& r0->Report_1 == t[k]
                    &&& r0->Report_2.at_byte == s.at_byte + (k - k0)
                    &&& r0->Report_2.at_line == s.at_line + count_newlines(f.subrange(k0, k))
                }
        }),
    decreases n - k0,
{
    if k0 < n {
        let r0 = spec_scan(f, t, k0, n, s, out, limit, verbose, print_bytes, width);
        if f[k0] != t[k0] && !verbose {
            assert(f.subrange(k0, k0) =~= Seq::<u8>::empty());
            assert(count_newlines(Seq::<u8>::empty()) == 0);
            assert(f[k0] != t[k0]);
        } else {
            let s2 = byte_state(s, f[k0], t[k0]);
            let out2 = if f[k0] != t[k0] {
                out + verbose_line(f[k0], t[k0], s.at_byte as nat, width, print_bytes)
            } else {
                out
            };
            if !past_limit(s2.at_byte, limit) {
                lemma_scan_report(f, t, k0 + 1, n, s2, out2, limit, verbose, print_bytes, width);
                if r0 is Report {
                    let k = choose|k: int|
                        #![trigger f[k], t[k]]
                        {
                            &&& k0 + 1 <= k < n
                            &&& f[k] != t[k]
                            &&& (forall|j: int| k0 + 1 <= j < k ==> f[j] == t[j])
                            &&& r0->Report_0 == f[k]
                            &&& r0->Report_1 == t[k]
                            &&& r0->Report_2.at_byte == s2.at_byte + (k - k0 - 1)
                            &&& r0->Report_2.at_line == s2.at_line + count_newlines(
                                f.subrange(k0 + 1, k),
                            )
                        };
                    assert(f.subrange(k0, k) =~= seq![f[k0]] + f.subrange(k0 + 1, k));
                    lemma_count_newlines_concat(seq![f[k0]], f.subrange(k0 + 1, k));
                    assert(seq![f[k0]].drop_last() =~= Seq::<u8>::empty());
                    assert(count_newlines(Seq::<u8>::empty()) == 0);
                    assert(f[k] != t[k]);
                }
            }
        }
    }
}

/// The first difference that a chunk reports is the first byte where the
/// two chunks differ, and it is reported at its position in the inputs,
/// not in the chunk: the position and line of the state, moved on by the
/// bytes before it and their newlines.
pub proof fn lemma_difference_position(
    s: CompareState,
    f: Seq<u8>,
    t: Seq<u8>,
    limit: Option<u64>,
    verbose: bool,
    print_bytes: bool,
    width: nat,
)
    requires
        s.wf(),
        s.at_byte + min_len(f.len() as int, t.len() as int) <= u64::MAX,
    ensures
        ({
            let o = spec_compare_chunk(s, f, t, limit, verbose, print_bytes, width).1;
            o is Difference ==> !verbose && exists|k: int|
                #![trigger f[k], t[k]]
                {
                    &&& 0 <= k < f.len()
                    &&& k < t.len()
                    &&& f[k] != t[k]
                    &&& (forall|j: int| 0 <= j < k ==> f[j] == t[j])
                    &&& o->Difference_0 == f[k]
                    &&& o->Difference_1 == t[k]
                    &&& o->Difference_2 == s.at_byte + k
                    &&& o->Difference_3 == s.at_line + count_newlines(f.take(k))
                }
        }),
{
    let n = min_len(f.len() as int, t.len() as int);
    if !past_limit(s.at_byte, limit) && f.len() > 0 && t.len() > 0 && f.take(n) != t.take(n) {
        lemma_scan_report(f, t, 0, n, s, Seq::empty(), limit, verbose, print_bytes, width);
        let r0 = spec_scan(f, t, 0, n, s, Seq::empty(), limit, verbose, print_bytes, width);
        if r0 is Report {
            let k = choose|k: int|
                #![trigger f[k], t[k]]
                {
                    &&& 0 <= k < n
                    &&& f[k] != t[k]
                    &&& (forall|j: int| 0 <= j < k ==> f[j] == t[j])
                    &&& r0->Report_0 == f[k]
                    &&& r0->Report_1 == t[k]
                    &&& r0->Report_2.at_byte == s.at_byte + (k - 0)
                    &&& r0->Report_2.at_line == s.at_line + count_newlines(f.subrange(0, k))
                };
            assert(f.subrange(0, k) =~= f.take(k));
            assert(f[k] != t[k]);
        }
    }
}

/// A chunk ends with the end of an input exactly where one of the two
/// chunks is empty and the other not (before the limit), and the input that
/// ended is the one whose chunk is empty; the state is left as it was.
pub proof fn lemma_eof_side(
    s: CompareState,
    f: Seq<u8>,
    t: Seq<u8>,
    limit: Option<u64>,
    verbose: bool,
    print_bytes: bool,
    width: nat,
)
    ensures
        ({
            let (s2, o) = spec_compare_chunk(s, f, t, limit, verbose, print_bytes, width);
            &&& (o is Eof) <==> (!past_limit(s.at_byte, limit) && (f.len() == 0) != (t.len() == 0))
            &&& o is Eof ==> o->Eof_0 == (f.len() == 0) && s2 == s
            &&& (o is Done) <==> (!past_limit(s.at_byte, limit) && f.len() == 0 && t.len() == 0)
        }),
{
    let n = min_len(f.len() as int, t.len() as int);
    if !past_limit(s.at_byte, limit) && f.len() > 0 && t.len() > 0 && f.take(n) != t.take(n) {
        assert(!(spec_compare_chunk(s, f, t, limit, verbose, print_bytes, width).1 is Eof));
    }
}

/// The lines of verbose output for the bytes `k..n` of two chunks whose
/// first byte is at the position `base`: one line for each byte where they
/// differ, in order, each with that byte's own position.
pub open spec fn listed_differences(
    f: Seq<u8>,
    t: Seq<u8>,
    k: int,
    n: int,
    base: int,
    print_bytes: bool,
    width: nat,
) -> Seq<u8>
    decreases n - k,
{
    if k >= n || k < 0 {
        Seq::empty()
    } else {
        (if f[k] != t[k] {
            verbose_line(f[k], t[k], (base + k) as nat, width, print_bytes)
        } else {
            Seq::empty()
        }) + listed_differences(f, t, k + 1, n, base, print_bytes, width)
    }
}

proof fn lemma_scan_lists(
    f: Seq<u8>,
    t: Seq<u8>,
    k: int,
    n: int,
    s: CompareState,
    out: Seq<u8>,
    base: int,
    print_bytes: bool,
    width: nat,
)
    requires
        0 <= k <= n,
        n <= f.len(),
        n <= t.len(),
        s.wf(),
        s.at_byte == base + k,
        s.at_byte + (n - k) <= u64::MAX,
    ensures
        spec_scan(f, t, k, n, s, out, None, true, print_bytes, width) matches ScanView::Scanned(
            _s2,
            o,
        ) ==> o == out + listed_differences(f, t, k, n, base, print_bytes, width),
    decreases n - k,
{
    if k < n {
        let s2 = byte_state(s, f[k], t[k]);
        let out2 = if f[k] != t[k] {
            out + verbose_line(f[k], t[k], s.at_byte as nat, width, print_bytes)
        } else {
            out
        };
        lemma_scan_lists(f, t, k + 1, n, s2, out2, base, print_bytes, width);
        let line: Seq<u8> = if f[k] != t[k] {
            verbose_line(f[k], t[k], (base + k) as nat, width, print_bytes)
        } else {
            Seq::empty()
        };
        assert(out2 == out + line);
        assert(out2 + listed_differences(f, t, k + 1, n, base, print_bytes, width) =~= out + (line
            + listed_differences(f, t, k + 1, n, base, print_bytes, width)));
    } else {
        assert(out + Seq::<u8>::empty() =~= out);
    }
}

proof fn lemma_no_differences_listed(
    f: Seq<u8>,
    t: Seq<u8>,
    k: int,
    n: int,
    base: int,
    print_bytes: bool,
    width: nat,
)
    requires
        0 <= k <= n,
        forall|j: int| k <= j < n ==> f[j] == t[j],
    ensures
        listed_differences(f, t, k, n, base, print_bytes, width) == Seq::<u8>::empty(),
    decreases n - k,
{
    if k < n {
        lemma_no_differences_listed(f, t, k + 1, n, base, print_bytes, width);
        assert(Seq::<u8>::empty() + Seq::<u8>::empty() =~= Seq::<u8>::empty());
    }
}

/// Without a byte limit, verbose output of a chunk lists, in order, one
/// line for each byte where the two chunks differ, with the position of
/// that byte in the inputs: the state's position plus its index.
pub proof fn lemma_verbose_lists_differences(
    s: CompareState,
    f: Seq<u8>,
    t: Seq<u8>,
    print_bytes: bool,
    width: nat,
)
    requires
        s.wf(),
        s.at_byte + min_len(f.len() as int, t.len() as int) <= u64::MAX,
    ensures
        spec_compare_chunk(s, f, t, None, true, print_bytes, width).1 matches OutcomeView::Consumed(
            m,
            out,
        ) ==> m == min_len(f.len() as int, t.len() as int) && out == listed_differences(
            f,
            t,
            0,
            m,
            s.at_byte as int,
            print_bytes,
            width,
        ),
{
    let n = min_len(f.len() as int, t.len() as int);
    if f.len() > 0 && t.len() > 0 {
        if f.take(n) == t.take(n) {
            assert forall|j: int| 0 <= j < n implies f[j] == t[j] by {
                assert(f[j] == f.take(n)[j]);
                assert(t[j] == t.take(n)[j]);
            }
            lemma_no_differences_listed(f, t, 0, n, s.at_byte as int, print_bytes, width);
        } else {
            lemma_scan_lists(f, t, 0, n, s, Seq::empty(), s.at_byte as int, print_bytes, width);
            assert(Seq::<u8>::empty() + listed_differences(f, t, 0, n, s.at_byte as int, print_bytes, width)
                =~= listed_differences(f, t, 0, n, s.at_byte as int, print_bytes, width));
        }
    }
}

/// Where going byte by byte from `k` to `n` from the position `at` ends
/// with the byte limit `l`: at `n`, or after the byte at position `l`.
pub open spec fn scan_end(at: int, k: int, n: int, l: int) -> int {
    if at + (n - k) <= l {
        n
    } else {
        k + l - at + 1
    }
}

/// With the byte limit `l`, going byte by byte through `f[k..n]` and
/// `t[k..n]` looks at the bytes up to [`scan_end`]: it stops at a difference
/// among them exactly where it is not verbose and they differ; else it
/// passes all of them, and ends the chunk where that reaches the limit.
proof fn lemma_scan_with_limit(
    f: Seq<u8>,
    t: Seq<u8>,
    k: int,
    n: int,
    s: CompareState,
    out: Seq<u8>,
    l: u64,
    verbose: bool,
    print_bytes: bool,
    width: nat,
)
    requires
        0 <= k <= n,
        n <= f.len(),
        n <= t.len(),
        s.wf(),
        s.at_byte + (n - k) <= u64::MAX,
        s.at_byte <= l,
    ensures
        ({
            let m = scan_end(s.at_byte as int, k, n, l as int);
            let r = spec_scan(f, t, k, n, s, out, Some(l), verbose, print_bytes, width);
            &&& k <= m <= n
            &&& (r is Report) <==> (!verbose && f.subrange(k, m) != t.subrange(k, m))
            &&& r matches ScanView::Scanned(s2, _) ==> {
                &&& m == n
                &&& s2.wf()
                &&& s2.at_byte == s.at_byte + (n - k)
                &&& (s2.compare == s.compare || s2.compare == CmpOk::Different)
                &&& (s2.compare == CmpOk::Different) <==> (s.compare == CmpOk::Different
                    || f.subrange(k, n) != t.subrange(k, n))
            }
            &&& r matches ScanView::Limited(s2, _) ==> {
                &&& s2.wf()
                &&& s.at_byte + (m - k) == l + 1
                &&& (s2.compare == s.compare || s2.compare == CmpOk::Different)
                &&& (s2.compare == CmpOk::Different) <==> (s.compare == CmpOk::Different
                    || f.subrange(k, m) != t.subrange(k, m))
            }
        }),
    decreases n - k,
{
    let m = scan_end(s.at_byte as int, k, n, l as int);
    if k < n {
        let s2 = byte_state(s, f[k], t[k]);
        let out2 = if f[k] != t[k] {
            out + verbose_line(f[k], t[k], s.at_byte as nat, width, print_bytes)
        } else {
            out
        };
        assert(f.subrange(k, m) =~= seq![f[k]] + f.subrange(k + 1, m));
        assert(t.subrange(k, m) =~= seq![t[k]] + t.subrange(k + 1, m));
        if f.subrange(k, m) == t.subrange(k, m) {
            assert(f.subrange(k + 1, m) =~= f.subrange(k, m).subrange(1, m - k));
            assert(t.subrange(k + 1, m) =~= t.subrange(k, m).subrange(1, m - k));
            assert(f[k] == f.subrange(k, m)[0]);
            assert(t[k] == t.subrange(k, m)[0]);
        }
        if s2.at_byte <= l {
            lemma_scan_with_limit(f, t, k + 1, n, s2, out2, l, verbose, print_bytes, width);
            assert(scan_end(s2.at_byte as int, k + 1, n, l as int) == m);
        } else {
            assert(m == k + 1);
            assert(f.subrange(k + 1, m) =~= Seq::<u8>::empty());
            assert(t.subrange(k + 1, m) =~= Seq::<u8>::empty());
        }
    } else {
        assert(f.subrange(k, n) =~= t.subrange(k, n));
    }
}

/// The bytes of `s` that a byte limit of `l` lets cmp compare.
pub open spec fn limited(s: Seq<u8>, l: u64) -> Seq<u8> {
    if s.len() <= l {
        s
    } else {
        s.take(l as int)
    }
}

/// The induction of [`lemma_compare_limited`]: from a position before the
/// limit, up to which the inputs agree exactly where the result is still
/// equal.
#[verifier::rlimit(100)]
proof fn lemma_run_from_limited(
    f: Seq<u8>,
    t: Seq<u8>,
    pos: int,
    s: CompareState,
    sizes: Seq<(nat, nat)>,
    i: int,
    l: u64,
    verbose: bool,
    print_bytes: bool,
    width: nat,
)
    requires
        0 <= i,
        0 <= pos <= f.len(),
        pos <= t.len(),
        pos <= l,
        s.wf(),
        s.at_byte == pos + 1,
        f.len() < u64::MAX,
        s.compare == CmpOk::Equal || s.compare == CmpOk::Different,
        (s.compare == CmpOk::Equal) <==> (f.take(pos) == t.take(pos)),
        forall|j: int| 0 <= j < sizes.len() ==> (#[trigger] sizes[j]).0 >= 1 && sizes[j].1 >= 1,
    ensures
        spec_run(f, t, pos, s, sizes, i, Some(l), verbose, print_bytes, width) matches Some(r) ==> {
            &&& r == CmpOk::Equal || r == CmpOk::Different
            &&& (r == CmpOk::Equal) <==> (limited(f, l) == limited(t, l))
        },
    decreases sizes.len() - i,
{
    if i < sizes.len() {
        let fc = chunk_at(f, pos, sizes[i].0);
        let tc = chunk_at(t, pos, sizes[i].1);
        let run = spec_run(f, t, pos, s, sizes, i, Some(l), verbose, print_bytes, width);
        let goal = run matches Some(r) ==> {
            &&& r == CmpOk::Equal || r == CmpOk::Different
            &&& (r == CmpOk::Equal) <==> (limited(f, l) == limited(t, l))
        };
        if pos == l {
            assert(limited(f, l) =~= f.take(pos));
            assert(limited(t, l) =~= t.take(pos));
            assert(goal);
        } else if fc.len() == 0 && tc.len() == 0 {
            assert(f =~= f.take(pos));
            assert(t =~= t.take(pos));
            assert(goal);
        } else if fc.len() == 0 || tc.len() == 0 {
            assert(limited(f, l).len() != limited(t, l).len());
            assert(goal);
        } else {
            let n = min_len(fc.len() as int, tc.len() as int);
            assert(fc.take(n) =~= f.subrange(pos, pos + n));
            assert(tc.take(n) =~= t.subrange(pos, pos + n));
            assert(fc.subrange(0, n) =~= fc.take(n));
            assert(tc.subrange(0, n) =~= tc.take(n));
            let (s2, o) = spec_compare_chunk(s, fc, tc, Some(l), verbose, print_bytes, width);
            if fc.take(n) == tc.take(n) {
                // The whole chunk agrees: up to any point in it, the inputs
                // agree exactly where they agreed before it.
                assert forall|q: int| pos <= q <= pos + n implies (f.take(q) == t.take(q)) == (
                f.take(pos) == t.take(pos)) by {
                    assert(f.take(q) =~= f.take(pos) + f.subrange(pos, q));
                    assert(t.take(q) =~= t.take(pos) + t.subrange(pos, q));
                    assert(f.subrange(pos, q) =~= fc.take(n).take(q - pos));
                    assert(t.subrange(pos, q) =~= tc.take(n).take(q - pos));
                    if f.take(q) == t.take(q) {
                        assert(f.take(pos) =~= f.take(q).take(pos));
                        assert(t.take(pos) =~= t.take(q).take(pos));
                    }
                }
                lemma_count_newlines_len(f.take(n));
                lemma_count_newlines_len(fc.take(n));
                if pos + n >= l {
                    assert(limited(f, l) =~= f.take(l as int));
                    assert(limited(t, l) =~= t.take(l as int));
                    assert(goal);
                } else {
                    lemma_run_from_limited(f, t, pos + n, s2, sizes, i + 1, l, verbose, print_bytes, width);
                    assert(goal);
                }
            } else {
                lemma_scan_with_limit(fc, tc, 0, n, s, Seq::empty(), l, verbose, print_bytes, width);
                let m = scan_end(s.at_byte as int, 0, n, l as int);
                assert(fc.subrange(0, m) =~= f.subrange(pos, pos + m));
                assert(tc.subrange(0, m) =~= t.subrange(pos, pos + m));
                assert(f.take(pos + m) =~= f.take(pos) + f.subrange(pos, pos + m));
                assert(t.take(pos + m) =~= t.take(pos) + t.subrange(pos, pos + m));
                if f.take(pos + m) == t.take(pos + m) {
                    assert(f.take(pos) =~= f.take(pos + m).take(pos));
                    assert(t.take(pos) =~= t.take(pos + m).take(pos));
                    assert(f.subrange(pos, pos + m) =~= f.take(pos + m).skip(pos));
                    assert(t.subrange(pos, pos + m) =~= t.take(pos + m).skip(pos));
                }
                let r = spec_scan(fc, tc, 0, n, s, Seq::empty(), Some(l), verbose, print_bytes, width);
                if r is Report {
                    // a difference before the limit
                    assert(limited(f, l).take(pos + m) =~= f.take(pos + m));
                    assert(limited(t, l).take(pos + m) =~= t.take(pos + m));
                    assert(goal);
                } else if r is Limited {
                    assert(pos + m == l);
                    assert(limited(f, l) =~= f.take(pos + m));
                    assert(limited(t, l) =~= t.take(pos + m));
                    assert(goal);
                } else {
                    lemma_run_from_limited(f, t, pos + n, s2, sizes, i + 1, l, verbose, print_bytes, width);
                    assert(goal);
                }
            }
        }
    }
}

/// With a byte limit, cmp finds two inputs equal exactly when the bytes it
/// may compare, at most the limit of each, are the same, and different
/// otherwise, whatever the sizes of the chunks that the readers hand over.
pub proof fn lemma_compare_limited(
    f: Seq<u8>,
    t: Seq<u8>,
    sizes: Seq<(nat, nat)>,
    l: u64,
    verbose: bool,
    print_bytes: bool,
    width: nat,
)
    requires
        f.len() < u64::MAX,
        forall|j: int| 0 <= j < sizes.len() ==> (#[trigger] sizes[j]).0 >= 1 && sizes[j].1 >= 1,
    ensures
        spec_run(
            f,
            t,
            0,
            CompareState { at_byte: 1, at_line: 1, start_of_line: true, compare: CmpOk::Equal },
            sizes,
            0,
            Some(l),
            verbose,
            print_bytes,
            width,
        ) matches Some(r) ==> {
            &&& r == CmpOk::Equal || r == CmpOk::Different
            &&& (r == CmpOk::Equal) <==> (limited(f, l) == limited(t, l))
        },
{
    assert(f.take(0) =~= t.take(0));
    lemma_run_from_limited(
        f,
        t,
        0,
        CompareState { at_byte: 1, at_line: 1, start_of_line: true, compare: CmpOk::Equal },
        sizes,
        0,
        l,
        verbose,
        print_bytes,
        width,
    );
}

/// Does comparing the first `n` bytes of `f` and `t` from `at_byte` on
/// write the position of the `k`-th byte in verbose output? It does where
/// the bytes differ and the comparison gets there, not past the limit.
pub open spec fn position_written(
    at_byte: u64,
    f: Seq<u8>,
    t: Seq<u8>,
    n: int,
    limit: Option<u64>,
    k: int,
) -> bool {
    &&& 0 <= k < n
    &&& f[k] != t[k]
    &&& limit matches Some(l) ==> at_byte + k <= l
}

/// Do the positions that verbose output writes fit in `width` digits?
pub open spec fn written_positions_fit(
    at_byte: u64,
    f: Seq<u8>,
    t: Seq<u8>,
    n: int,
    limit: Option<u64>,
    width: nat,
) -> bool {
    forall|k: int|
        #[trigger] position_written(at_byte, f, t, n, limit, k) ==> decimal(
            (at_byte + k) as nat,
        ).len() <= width
}

/// Does verbose output write any position?
pub open spec fn writes_positions(at_byte: u64, f: Seq<u8>, t: Seq<u8>, n: int, limit: Option<u64>) -> bool {
    exists|k: int| #[trigger] position_written(at_byte, f, t, n, limit, k)
}

/// Are the first `n` bytes of the two chunks equal?
fn same_prefix(f: &[u8], t: &[u8], n: usize) -> (r: bool)
    requires
        n <= f@.len(),
        n <= t@.len(),
    ensures
        r == (f@.take(n as int) == t@.take(n as int)),
{
    let mut i: usize = 0;
    while i < n
        invariant
            i <= n <= f@.len(),
            n <= t@.len(),
            forall|j: int| 0 <= j < i ==> f@[j] == t@[j],
        decreases n - i,
    {
        if f[i] != t[i] {
            assert(f@.take(n as int)[i as int] != t@.take(n as int)[i as int]);
            return false;
        }
        i = i + 1;
    }
    assert(f@.take(n as int) =~= t@.take(n as int));
    true
}

/// The number of newlines among the first `n` bytes of `f`.
fn newlines_in(f: &[u8], n: usize) -> (r: u64)
    requires
        n <= f@.len(),
    ensures
        r == count_newlines(f@.take(n as int)),
{
    let mut count: u64 = 0;
    let mut i: usize = 0;
    while i < n
        invariant
            i <= n <= f@.len(),
            count == count_newlines(f@.take(i as int)),
            count <= i,
        decreases n - i,
    {
        proof {
            assert(f@.take(i as int + 1).drop_last() =~= f@.take(i as int));
        }
        if f[i] == NEWLINE {
            count = count + 1;
        }
        i = i + 1;
    }
    count
}

/// The position as a 64-bit number.
fn widen(n: usize) -> (r: u64)
    ensures
        r == n,
{
    n as u64
}

/// Compares the chunks `from_buf` and `to_buf`, which the two inputs hold
/// at the position of `state`, and says what to do next.
///
/// The positions must fit in 64 bits; verbose output that writes a position
/// is not silent, and without `--print-bytes` the positions it writes fit in
/// `offset_width`.
pub fn compare_chunk(
    state: &mut CompareState,
    from_buf: &[u8],
    to_buf: &[u8],
    params: &ParamsCmp,
    offset_width: usize,
) -> (r: ChunkOutcome)
    requires
        old(state).wf(),
        old(state).at_byte + min_len(from_buf@.len() as int, to_buf@.len() as int) <= u64::MAX,
        params.verbose && params.silent ==> !writes_positions(
            old(state).at_byte,
            from_buf@,
            to_buf@,
            min_len(from_buf@.len() as int, to_buf@.len() as int),
            params.bytes_limit,
        ),
        params.verbose && !params.print_bytes ==> written_positions_fit(
            old(state).at_byte,
            from_buf@,
            to_buf@,
            min_len(from_buf@.len() as int, to_buf@.len() as int),
            params.bytes_limit,
            offset_width as nat,
        ),
    ensures
        final(state).wf(),
        (*final(state), r@) == spec_compare_chunk(
            *old(state),
            from_buf@,
            to_buf@,
            params.bytes_limit,
            params.verbose,
            params.print_bytes,
            offset_width as nat,
        ),
{
    match params.bytes_limit {
        Some(bytes_limit) => {
            if state.at_byte > bytes_limit {
                return ChunkOutcome::LimitReached { output: Vec::new() };
            }
        },
        None => {},
    }
    if from_buf.len() == 0 && to_buf.len() == 0 {
        return ChunkOutcome::Done;
    }
    if from_buf.len() == 0 || to_buf.len() == 0 {
        return ChunkOutcome::Eof { on_from: from_buf.len() == 0 };
    }
    let consumed = if from_buf.len() < to_buf.len() {
        from_buf.len()
    } else {
        to_buf.len()
    };
    let ghost n = consumed as int;
    let ghost f = from_buf@;
    let ghost t = to_buf@;
    // Fast path - for long files in which almost all bytes are the same.
    if same_prefix(from_buf, to_buf, consumed) {
        let lines = newlines_in(from_buf, consumed);
        proof {
            lemma_count_newlines_len(f.take(n));
        }
        state.at_byte = state.at_byte + widen(consumed);
        state.at_line = state.at_line + lines;
        state.start_of_line = from_buf[consumed - 1] == NEWLINE;
        match params.bytes_limit {
            Some(bytes_limit) => {
                if state.at_byte > bytes_limit {
                    return ChunkOutcome::LimitReached { output: Vec::new() };
                }
            },
            None => {},
        }
        return ChunkOutcome::Consumed { consumed, output: Vec::new() };
    }
    // Byte by byte up to the first difference or the limit.
    let ghost s0 = *state;
    let ghost whole = spec_scan(
        f,
        t,
        0,
        n,
        s0,
        Seq::empty(),
        params.bytes_limit,
        params.verbose,
        params.print_bytes,
        offset_width as nat,
    );
    let mut output: Vec<u8> = Vec::new();
    let mut k: usize = 0;
    let mut limited = false;
    while k < consumed
        invariant_except_break
            !limited,
            state.at_byte == s0.at_byte + k,
            whole == spec_scan(
                f,
                t,
                k as int,
                n,
                *state,
                output@,
                params.bytes_limit,
                params.verbose,
                params.print_bytes,
                offset_width as nat,
            ),
        invariant
            k <= consumed,
            consumed as int == n,
            n == min_len(f.len() as int, t.len() as int),
            f == from_buf@,
            t == to_buf@,
            n <= f.len(),
            n <= t.len(),
            state.wf(),
            state.at_byte <= s0.at_byte + k + 1,
            params.bytes_limit matches Some(l) ==> s0.at_byte + k <= l,
            s0 == *old(state),
            f.take(n) != t.take(n),
            f.len() > 0,
            t.len() > 0,
            s0.at_byte + n <= u64::MAX,
            params.verbose && params.silent ==> !writes_positions(
                s0.at_byte,
                f,
                t,
                n,
                params.bytes_limit,
            ),
            params.verbose && !params.print_bytes ==> written_positions_fit(
                s0.at_byte,
                f,
                t,
                n,
                params.bytes_limit,
                offset_width as nat,
            ),
            whole == spec_scan(
                f,
                t,
                0,
                n,
                s0,
                Seq::empty(),
                params.bytes_limit,
                params.verbose,
                params.print_bytes,
                offset_width as nat,
            ),
        ensures
            !limited ==> whole == ScanView::Scanned(*state, output@),
            limited ==> whole == ScanView::Limited(*state, output@),
            state.wf(),
        decreases consumed - k,
    {
        let ghost s_before = *state;
        let ghost out_before = output@;
        let from_byte = from_buf[k];
        let to_byte = to_buf[k];
        if from_byte != to_byte {
            if params.verbose {
                assert(position_written(s0.at_byte, f, t, n, params.bytes_limit, k as int));
                let _ = format_verbose_difference(
                    from_byte,
                    to_byte,
                    state.at_byte,
                    offset_width,
                    &mut output,
                    params,
                );
            } else {
                assert(whole == ScanView::Report(from_byte, to_byte, *state));
                let at_byte = state.at_byte;
                let at_line = state.at_line;
                state.compare = CmpOk::Different;
                return ChunkOutcome::Difference { from_byte, to_byte, at_byte, at_line };
            }
            state.compare = CmpOk::Different;
        }
        state.start_of_line = from_byte == NEWLINE;
        if state.start_of_line {
            state.at_line = state.at_line + 1;
        }
        state.at_byte = state.at_byte + 1;
        assert(*state == byte_state(s_before, from_byte, to_byte));
        let past = match params.bytes_limit {
            Some(max_bytes) => state.at_byte > max_bytes,
            None => false,
        };
        if past {
            assert(whole == ScanView::Limited(*state, output@));
            limited = true;
            break;
        }
        k = k + 1;
    }
    if limited {
        ChunkOutcome::LimitReached { output }
    } else {
        ChunkOutcome::Consumed { consumed, output }
    }
}

} // verus!
