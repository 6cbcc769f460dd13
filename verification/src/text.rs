//! Character-level helpers shared by the parsers and the output formatting.
//!
//! Text is handled as sequences of `char`: a `String` is taken apart with
//! [`chars_of`] and put together again with [`string_of_range`].
use vstd::prelude::*;

verus! {

/// Is `c` one of the ASCII digits `0` to `9`?
pub open spec fn is_digit(c: char) -> bool {
    '0' <= c && c <= '9'
}

/// The value of an ASCII digit.
pub open spec fn digit_value(c: char) -> nat {
    (c as int - '0' as int) as nat
}

/// The ASCII digit of a value below 10.
pub open spec fn digit_char(d: nat) -> char {
    (d + '0' as nat) as char
}

/// The decimal value of a sequence of ASCII digits, most significant first.
/// The empty sequence has value 0.
pub open spec fn decimal_value(s: Seq<char>) -> nat
    decreases s.len(),
{
    if s.len() == 0 {
        0
    } else {
        decimal_value(s.drop_last()) * 10 + digit_value(s.last())
    }
}

/// The shortest decimal representation of `n`: no leading zeros, `0` for zero.
pub open spec fn decimal(n: nat) -> Seq<char>
    decreases n,
{
    if n < 10 {
        seq![digit_char(n)]
    } else {
        decimal(n / 10).push(digit_char(n % 10))
    }
}

/// Every character of `s` is an ASCII digit.
pub open spec fn all_digits(s: Seq<char>) -> bool {
    forall|i: int| 0 <= i < s.len() ==> is_digit(#[trigger] s[i])
}

/// `std::string::String::push`: appends one `char` to the end of the string.
#[verifier::external_body]
pub(crate) fn push_char(s: &mut String, c: char)
    ensures
        final(s)@ == old(s)@.push(c),
{
    s.push(c);
}

/// The decimal text of `n`, written by `itoa::Buffer::format`.
///
/// Trusted: the contract claims that itoa writes the plain decimal digits of
/// the number, without sign, padding or leading zeros, as its documentation
/// shows (`format(128u64)` gives `"128"`).
#[verifier::external_body]
pub(crate) fn itoa_decimal(n: u64) -> (s: String)
    ensures
        s@ == decimal(n as nat),
{
    let mut buffer = itoa::Buffer::new();
    buffer.format(n).to_string()
}

/// The characters of a string slice.
pub fn chars_of(s: &str) -> (v: Vec<char>)
    ensures
        v@ == s@,
{
    let mut v: Vec<char> = Vec::new();
    for c in it: s.chars()
        invariant
            v@ == it.seq().take(it.index() as int),
            it.seq() == s@,
    {
        v.push(c);
    }
    v
}

/// The string made of the characters `v[start..end]`.
pub fn string_of_range(v: &Vec<char>, start: usize, end: usize) -> (s: String)
    requires
        start <= end <= v@.len(),
    ensures
        s@ == v@.subrange(start as int, end as int),
{
    let mut s = String::new();
    let mut i = start;
    while i < end
        invariant
            start <= i <= end <= v@.len(),
            s@ == v@.subrange(start as int, i as int),
        decreases end - i,
    {
        push_char(&mut s, v[i]);
        i = i + 1;
        assert(s@ =~= v@.subrange(start as int, i as int));
    }
    s
}

/// The string made of all characters of `v`.
pub fn string_of(v: &Vec<char>) -> (s: String)
    ensures
        s@ == v@,
{
    let s = string_of_range(v, 0, v.len());
    assert(v@.subrange(0, v@.len() as int) =~= v@);
    s
}

/// Appends the characters of `t` to `s`.
pub fn append_chars(s: &mut String, t: &Vec<char>)
    ensures
        final(s)@ == old(s)@ + t@,
{
    let mut i: usize = 0;
    while i < t.len()
        invariant
            i <= t@.len(),
            s@ == old(s)@ + t@.subrange(0, i as int),
        decreases t.len() - i,
    {
        push_char(s, t[i]);
        i = i + 1;
        assert(s@ =~= old(s)@ + t@.subrange(0, i as int));
    }
    assert(t@.subrange(0, t@.len() as int) =~= t@);
}

/// Do two strings hold the same characters?
pub fn same_text(a: &str, b: &str) -> (r: bool)
    ensures
        r == (a@ == b@),
{
    let va = chars_of(a);
    let vb = chars_of(b);
    if va.len() != vb.len() {
        return false;
    }
    let mut i: usize = 0;
    while i < va.len()
        invariant
            va@ == a@,
            vb@ == b@,
            va@.len() == vb@.len(),
            i <= va@.len(),
            forall|j: int| 0 <= j < i ==> va@[j] == vb@[j],
        decreases va.len() - i,
    {
        if va[i] != vb[i] {
            return false;
        }
        i = i + 1;
    }
    assert(va@ =~= vb@);
    true
}

/// Does `name` start with the characters `p[start..end]`?
pub fn starts_with(name: &str, p: &Vec<char>, start: usize, end: usize) -> (b: bool)
    requires
        start <= end <= p@.len(),
    ensures
        b == p@.subrange(start as int, end as int).is_prefix_of(name@),
{
    let ghost pre = p@.subrange(start as int, end as int);
    let nm = chars_of(name);
    let l = end - start;
    if l > nm.len() {
        return false;
    }
    let mut j: usize = 0;
    while j < l
        invariant
            l == end - start,
            start <= end <= p@.len(),
            pre == p@.subrange(start as int, end as int),
            l <= nm@.len(),
            nm@ == name@,
            j <= l,
            forall|t: int| 0 <= t < j ==> nm@[t] == p@[start + t],
        decreases l - j,
    {
        if nm[j] != p[start + j] {
            assert(pre[j as int] != name@.subrange(0, l as int)[j as int]);
            return false;
        }
        j = j + 1;
    }
    assert(pre =~= name@.subrange(0, pre.len() as int));
    true
}

/// The text of a number without its optional leading `+`.
pub open spec fn unsigned_digits(s: Seq<char>) -> Seq<char> {
    if s.len() > 0 && s[0] == '+' {
        s.skip(1)
    } else {
        s
    }
}

/// What `str::parse::<usize>` accepts: an optional `+`, then one or more
/// ASCII digits whose value fits in `usize`; `None` for any other text.
pub open spec fn spec_parse_usize(s: Seq<char>) -> Option<usize> {
    let d = unsigned_digits(s);
    if d.len() > 0 && all_digits(d) && decimal_value(d) <= usize::MAX {
        Some(decimal_value(d) as usize)
    } else {
        None
    }
}

/// Parses a decimal number of type `usize` as `str::parse::<usize>` does.
pub fn parse_usize(s: &str) -> (r: Option<usize>)
    ensures
        r == spec_parse_usize(s@),
{
    let v = chars_of(s);
    let start: usize = if v.len() > 0 && v[0] == '+' {
        1
    } else {
        0
    };
    let ghost d = v@.skip(start as int);
    assert(d =~= unsigned_digits(s@));
    if start >= v.len() {
        return None;
    }
    let mut num: usize = 0;
    let mut j: usize = start;
    while j < v.len()
        invariant
            start <= j <= v@.len(),
            d == v@.skip(start as int),
            d == unsigned_digits(s@),
            v@ == s@,
            all_digits(d.take(j - start)),
            num as nat == decimal_value(d.take(j - start)),
        decreases v.len() - j,
    {
        let c = v[j];
        assert(d[j - start] == c);
        if !('0' <= c && c <= '9') {
            assert(!is_digit(d[j - start]));
            assert(!all_digits(d));
            return None;
        }
        let dv = (c as u32 - '0' as u32) as usize;
        proof {
            assert(d.take(j - start + 1) =~= d.take(j - start).push(c));
            lemma_decimal_value_push(d.take(j - start), c);
        }
        let next = match num.checked_mul(10) {
            Some(m) => m.checked_add(dv),
            None => None,
        };
        match next {
            Some(n) => {
                num = n;
            },
            None => {
                proof {
                    if all_digits(d) {
                        lemma_decimal_value_prefix(d, j - start + 1);
                        assert(decimal_value(d) > usize::MAX);
                    }
                }
                return None;
            },
        }
        j = j + 1;
    }
    assert(d.take(j - start) =~= d);
    Some(num)
}

/// `decimal_value` of one more digit.
pub proof fn lemma_decimal_value_push(s: Seq<char>, c: char)
    ensures
        decimal_value(s.push(c)) == decimal_value(s) * 10 + digit_value(c),
{
    assert(s.push(c).drop_last() =~= s);
}

/// The value of a prefix of digits is at most the value of the whole.
pub proof fn lemma_decimal_value_prefix(s: Seq<char>, k: int)
    requires
        0 <= k <= s.len(),
        all_digits(s),
    ensures
        decimal_value(s.take(k)) <= decimal_value(s),
    decreases s.len() - k,
{
    if k < s.len() {
        lemma_decimal_value_prefix(s, k + 1);
        assert(s.take(k + 1).drop_last() =~= s.take(k));
        assert(is_digit(s[k]));
    } else {
        assert(s.take(k) =~= s);
    }
}

} // verus!
