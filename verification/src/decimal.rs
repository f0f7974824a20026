//! Decimal text for unsigned integers: the parser that `str::parse` applies
//! to unsigned types, and the rendering that `to_string` produces.

use vstd::prelude::*;

verus! {

pub open spec fn is_digit(c: char) -> bool {
    '0' <= c && c <= '9'
}

pub open spec fn all_digits(s: Seq<char>) -> bool {
    forall|i: int| 0 <= i < s.len() ==> is_digit(#[trigger] s[i])
}

pub open spec fn digit_value(c: char) -> nat {
    (c as int - '0' as int) as nat
}

/// The number that a string of decimal digits denotes.
pub open spec fn digits_value(s: Seq<char>) -> nat
    decreases s.len(),
{
    if s.len() == 0 {
        0
    } else {
        digits_value(s.drop_last()) * 10 + digit_value(s.last())
    }
}

/// The digits after an optional leading `+`.
pub open spec fn unsigned_digits(s: Seq<char>) -> Seq<char> {
    if s.len() > 0 && s[0] == '+' {
        s.drop_first()
    } else {
        s
    }
}

/// What `str::parse` gives for an unsigned type whose largest value is
/// `max`: an optional `+` followed by at least one decimal digit, denoting a
/// value no larger than `max`; anything else is an error.
pub open spec fn spec_parse_unsigned(s: Seq<char>, max: nat) -> Option<nat> {
    let digits = unsigned_digits(s);
    if digits.len() > 0 && all_digits(digits) && digits_value(digits) <= max {
        Some(digits_value(digits))
    } else {
        None
    }
}

pub open spec fn digit_char(d: nat) -> char {
    if d == 0 { '0' }
    else if d == 1 { '1' }
    else if d == 2 { '2' }
    else if d == 3 { '3' }
    else if d == 4 { '4' }
    else if d == 5 { '5' }
    else if d == 6 { '6' }
    else if d == 7 { '7' }
    else if d == 8 { '8' }
    else { '9' }
}

/// The decimal rendering of `n`, without leading zeros (as `to_string`).
pub open spec fn decimal_digits(n: nat) -> Seq<char>
    decreases n,
{
    if n < 10 {
        seq![digit_char(n)]
    } else {
        decimal_digits(n / 10).push(digit_char(n % 10))
    }
}

proof fn lemma_prefix_value(s: Seq<char>, i: int)
    requires
        0 <= i < s.len(),
    ensures
        digits_value(s.take(i + 1)) == digits_value(s.take(i)) * 10 + digit_value(s[i]),
{
    assert(s.take(i + 1).drop_last() =~= s.take(i));
}

proof fn lemma_prefix_value_bounded(s: Seq<char>, i: int)
    requires
        0 <= i <= s.len(),
    ensures
        digits_value(s.take(i)) <= digits_value(s),
    decreases s.len() - i,
{
    if i < s.len() {
        lemma_prefix_value(s, i);
        lemma_prefix_value_bounded(s, i + 1);
    } else {
        assert(s.take(i) =~= s);
    }
}

/// Parses `s` as an unsigned decimal no larger than `max`, exactly as
/// `str::parse::<uN>` does for the type whose largest value is `max`.
pub fn parse_unsigned(s: &str, max: u64) -> (res: Option<u64>)
    ensures
        match res {
            Some(v) => spec_parse_unsigned(s@, max as nat) == Some(v as nat),
            None => spec_parse_unsigned(s@, max as nat) is None,
        },
{
    let chars = chars_of_str(s);
    parse_unsigned_chars(&chars, max)
}

fn chars_of_str(s: &str) -> (res: Vec<char>)
    ensures
        res@ == s@,
{
    crate::text::chars_of(s)
}

/// The parser of [`parse_unsigned`], on a character sequence.
pub fn parse_unsigned_chars(s: &Vec<char>, max: u64) -> (res: Option<u64>)
    ensures
        match res {
            Some(v) => spec_parse_unsigned(s@, max as nat) == Some(v as nat),
            None => spec_parse_unsigned(s@, max as nat) is None,
        },
{
    let start: usize = if s.len() > 0 && s[0] == '+' { 1 } else { 0 };
    let ghost digits = unsigned_digits(s@);
    assert(digits =~= s@.subrange(start as int, s@.len() as int));
    if start >= s.len() {
        return None;
    }
    let mut value: u128 = 0;
    let mut i: usize = start;
    while i < s.len()
        invariant
            start <= i <= s.len(),
            digits == unsigned_digits(s@),
            digits =~= s@.subrange(start as int, s@.len() as int),
            all_digits(digits.take(i - start)),
            value == digits_value(digits.take(i - start)),
            value <= max,
        decreases s.len() - i,
    {
        let c = s[i];
        if !('0' <= c && c <= '9') {
            assert(c == digits[i - start]);
            assert(!is_digit(digits[i - start]));
            return None;
        }
        let d = (c as u32 - '0' as u32) as u128;
        proof {
            lemma_prefix_value(digits, i - start);
            assert(digits.take(i - start + 1) =~= digits.take(i - start).push(c));
        }
        value = value * 10 + d;
        i = i + 1;
        if value > max as u128 {
            proof {
                lemma_prefix_value_bounded(digits, i - start);
            }
            return None;
        }
    }
    assert(digits.take(i - start) =~= digits);
    Some(value as u64)
}

/// Why `str::parse` refuses a text for an unsigned integer type.
#[derive(Debug, Clone, Copy, PartialEq, Eq, Structural)]
pub enum ParseIntErrorKind {
    /// The text is empty.
    Empty,
    /// A character is not a digit (a lone `+`, a `-`, or anything else).
    InvalidDigit,
    /// The value is larger than the type holds.
    PosOverflow,
}

/// The first problem met reading `digits` from the left: a character that
/// is not a digit, or a prefix whose value exceeds `max`. A character is
/// checked for being a digit before its value is added.
pub open spec fn digits_problem(digits: Seq<char>, max: nat) -> Option<ParseIntErrorKind>
    decreases digits.len(),
{
    if digits.len() == 0 {
        None
    } else {
        match digits_problem(digits.drop_last(), max) {
            Some(kind) => Some(kind),
            None => if !is_digit(digits.last()) {
                Some(ParseIntErrorKind::InvalidDigit)
            } else if digits_value(digits) > max {
                Some(ParseIntErrorKind::PosOverflow)
            } else {
                None
            },
        }
    }
}

/// The error `str::parse` reports for a text `s` that does not parse as an
/// unsigned type whose largest value is `max` (see `spec_parse_unsigned`):
/// an empty text is empty; otherwise the first problem after an optional
/// `+`, where nothing after the `+` is an invalid digit.
pub open spec fn spec_parse_error_kind(s: Seq<char>, max: nat) -> ParseIntErrorKind {
    if s.len() == 0 {
        ParseIntErrorKind::Empty
    } else {
        match digits_problem(unsigned_digits(s), max) {
            Some(kind) => kind,
            None => ParseIntErrorKind::InvalidDigit,
        }
    }
}

/// The display text of a parse error of `kind`.
pub open spec fn spec_parse_error_text(kind: ParseIntErrorKind) -> Seq<char> {
    match kind {
        ParseIntErrorKind::Empty => "cannot parse integer from empty string"@,
        ParseIntErrorKind::InvalidDigit => "invalid digit found in string"@,
        ParseIntErrorKind::PosOverflow => "number too large to fit in target type"@,
    }
}

/// A text of digits has no problem exactly when every character is a digit
/// and its value fits.
pub proof fn lemma_digits_problem(digits: Seq<char>, max: nat)
    ensures
        digits_problem(digits, max) is None <==> (all_digits(digits) && digits_value(digits) <= max),
    decreases digits.len(),
{
    if digits.len() > 0 {
        let front = digits.drop_last();
        lemma_digits_problem(front, max);
        if all_digits(digits) {
            assert(all_digits(front)) by {
                assert forall|i: int| 0 <= i < front.len() implies is_digit(#[trigger] front[i]) by {
                    assert(front[i] == digits[i]);
                }
            }
            assert(is_digit(digits[digits.len() - 1]));
        }
        if digits_problem(front, max) is None && is_digit(digits.last()) {
            assert forall|i: int| 0 <= i < digits.len() implies is_digit(#[trigger] digits[i]) by {
                if i < digits.len() - 1 {
                    assert(digits[i] == front[i]);
                }
            }
        }
    }
}

/// A text that does not parse always has a reason: it is empty, holds only
/// a `+`, or has a first problem.
pub proof fn lemma_parse_failure_has_reason(s: Seq<char>, max: nat)
    requires
        spec_parse_unsigned(s, max) is None,
        s.len() > 0,
        unsigned_digits(s).len() > 0,
    ensures
        digits_problem(unsigned_digits(s), max) is Some,
{
    lemma_digits_problem(unsigned_digits(s), max);
}

/// The kind of error parsing `s` as an unsigned type whose largest value is
/// `max` gives (see `spec_parse_error_kind`).
pub fn parse_error_kind(s: &str, max: u64) -> (res: ParseIntErrorKind)
    ensures
        res == spec_parse_error_kind(s@, max as nat),
{
    let chars = chars_of_str(s);
    if chars.len() == 0 {
        return ParseIntErrorKind::Empty;
    }
    let start: usize = if chars[0] == '+' { 1 } else { 0 };
    let ghost digits = unsigned_digits(chars@);
    assert(digits =~= chars@.subrange(start as int, chars@.len() as int));
    let mut value: u128 = 0;
    let mut i: usize = start;
    assert(digits.take(0) =~= Seq::<char>::empty());
    while i < chars.len()
        invariant
            start <= i <= chars@.len(),
            chars@ == s@,
            digits == unsigned_digits(chars@),
            digits =~= chars@.subrange(start as int, chars@.len() as int),
            digits_problem(digits.take(i - start), max as nat) is None,
            value == digits_value(digits.take(i - start)),
            value <= max,
        decreases chars@.len() - i,
    {
        let c = chars[i];
        let ghost prefix = digits.take(i - start + 1);
        proof {
            assert(prefix.drop_last() =~= digits.take(i - start));
            assert(prefix.last() == c);
        }
        if !('0' <= c && c <= '9') {
            proof {
                lemma_digits_problem(digits, max as nat);
                lemma_problem_extends(digits, i - start + 1, max as nat);
            }
            return ParseIntErrorKind::InvalidDigit;
        }
        let d = (c as u32 - '0' as u32) as u128;
        proof {
            lemma_prefix_value(digits, i - start);
        }
        value = value * 10 + d;
        i = i + 1;
        if value > max as u128 {
            proof {
                lemma_problem_extends(digits, i - start, max as nat);
            }
            return ParseIntErrorKind::PosOverflow;
        }
    }
    proof {
        assert(digits.take(i - start) =~= digits);
    }
    ParseIntErrorKind::InvalidDigit
}

/// The first problem of a prefix is the first problem of the whole text.
proof fn lemma_problem_extends(digits: Seq<char>, n: int, max: nat)
    requires
        0 <= n <= digits.len(),
        digits_problem(digits.take(n), max) is Some,
    ensures
        digits_problem(digits, max) == digits_problem(digits.take(n), max),
    decreases digits.len() - n,
{
    if n < digits.len() {
        assert(digits.take(n + 1).drop_last() =~= digits.take(n));
        lemma_problem_extends(digits, n + 1, max);
    } else {
        assert(digits.take(n) =~= digits);
    }
}

/// The display text of a parse error of `kind`, as `ParseIntError` shows it.
pub fn parse_error_text(kind: ParseIntErrorKind) -> (res: &'static str)
    ensures
        res@ == spec_parse_error_text(kind),
{
    match kind {
        ParseIntErrorKind::Empty => "cannot parse integer from empty string",
        ParseIntErrorKind::InvalidDigit => "invalid digit found in string",
        ParseIntErrorKind::PosOverflow => "number too large to fit in target type",
    }
}

fn digit_str(d: u64) -> (res: &'static str)
    requires
        d < 10,
    ensures
        res@ == seq![digit_char(d as nat)],
{
    proof {
        reveal_strlit("0");
        reveal_strlit("1");
        reveal_strlit("2");
        reveal_strlit("3");
        reveal_strlit("4");
        reveal_strlit("5");
        reveal_strlit("6");
        reveal_strlit("7");
        reveal_strlit("8");
        reveal_strlit("9");
    }
    if d == 0 { "0" }
    else if d == 1 { "1" }
    else if d == 2 { "2" }
    else if d == 3 { "3" }
    else if d == 4 { "4" }
    else if d == 5 { "5" }
    else if d == 6 { "6" }
    else if d == 7 { "7" }
    else if d == 8 { "8" }
    else { "9" }
}

/// The decimal rendering of `n`, as `n.to_string()` gives it.
pub fn decimal_string(n: u64) -> (res: String)
    ensures
        res@ == decimal_digits(n as nat),
    decreases n,
{
    if n < 10 {
        String::from_str(digit_str(n))
    } else {
        let mut res = decimal_string(n / 10);
        res.append(digit_str(n % 10));
        res
    }
}

proof fn lemma_digit_char(d: nat)
    requires
        d < 10,
    ensures
        is_digit(digit_char(d)),
        digit_value(digit_char(d)) == d,
{
}

/// The rendering consists of digits only and denotes `n`.
pub proof fn lemma_decimal_digits_value(n: nat)
    ensures
        decimal_digits(n).len() > 0,
        all_digits(decimal_digits(n)),
        digits_value(decimal_digits(n)) == n,
    decreases n,
{
    if n < 10 {
        lemma_digit_char(n);
        assert(seq![digit_char(n)].drop_last() =~= Seq::<char>::empty());
        assert(digits_value(Seq::<char>::empty()) == 0);
    } else {
        lemma_decimal_digits_value(n / 10);
        lemma_digit_char(n % 10);
        let s = decimal_digits(n / 10).push(digit_char(n % 10));
        assert(s.drop_last() =~= decimal_digits(n / 10));
        assert(digits_value(s) == digits_value(decimal_digits(n / 10)) * 10 + digit_value(s.last()));
        assert forall|i: int| 0 <= i < s.len() implies is_digit(#[trigger] s[i]) by {
            if i < s.len() - 1 {
                assert(s[i] == decimal_digits(n / 10)[i]);
            }
        }
    }
}

/// Parsing the rendering of a value gives the value back.
pub proof fn lemma_parse_renders_back(n: nat, max: nat)
    requires
        n <= max,
    ensures
        spec_parse_unsigned(decimal_digits(n), max) == Some(n),
{
    lemma_decimal_digits_value(n);
    let s = decimal_digits(n);
    assert(s[0] != '+') by {
        assert(is_digit(s[0]));
    }
}

} // verus!
