//! Coercion of raw tokens into typed numeric values.

use crate::errors::ParsePerTypeError;
use crate::text::to_chars;
use vstd::prelude::*;

verus! {

/// Whether `c` is one of the ten ASCII decimal digits.
pub open spec fn is_digit(c: char) -> bool {
    '0' <= c && c <= '9'
}

/// The number that the decimal digit `c` stands for.
pub open spec fn digit_value(c: char) -> nat
    recommends
        is_digit(c),
{
    (c as u32 - '0' as u32) as nat
}

/// Whether every character of `s` is a decimal digit.
pub open spec fn all_digits(s: Seq<char>) -> bool {
    forall|i: int| 0 <= i < s.len() ==> is_digit(#[trigger] s[i])
}

/// The number written by the decimal digits `s`, most significant first.
pub open spec fn decimal_value(s: Seq<char>) -> nat
    decreases s.len(),
{
    if s.len() == 0 {
        0
    } else {
        10 * decimal_value(s.drop_last()) + digit_value(s.last())
    }
}

/// Whether `t` starts with the character `c`.
pub open spec fn starts_with_char(t: Seq<char>, c: char) -> bool {
    t.len() > 0 && t[0] == c
}

/// The value of `t` as an unsigned 32-bit integer: an optional `+`, then one
/// or more decimal digits whose value fits. A leading `-` is never accepted,
/// whatever follows it.
pub open spec fn u32_of(t: Seq<char>) -> Option<u32> {
    let digits = if starts_with_char(t, '+') {
        t.skip(1)
    } else {
        t
    };
    if digits.len() > 0 && all_digits(digits) && decimal_value(digits) <= u32::MAX {
        Some(decimal_value(digits) as u32)
    } else {
        None
    }
}

/// The value of `t` as a signed 32-bit integer: an optional `+` or `-`, then
/// one or more decimal digits whose signed value fits.
pub open spec fn i32_of(t: Seq<char>) -> Option<i32> {
    let signed = starts_with_char(t, '+') || starts_with_char(t, '-');
    let digits = if signed {
        t.skip(1)
    } else {
        t
    };
    let value = if starts_with_char(t, '-') {
        -(decimal_value(digits) as int)
    } else {
        decimal_value(digits) as int
    };
    if digits.len() > 0 && all_digits(digits) && i32::MIN <= value <= i32::MAX {
        Some(value as i32)
    } else {
        None
    }
}

/// Reads the decimal digits `chars[from..]`. The result is `None` when there
/// is no digit, when some character is no digit, or when the value exceeds
/// `limit`.
fn read_digits(chars: &Vec<char>, from: usize, limit: u64) -> (r: Option<u64>)
    requires
        from <= chars@.len(),
        limit <= 0xffff_ffff,
    ensures
        r == (if chars@.skip(from as int).len() > 0 && all_digits(chars@.skip(from as int))
            && decimal_value(chars@.skip(from as int)) <= limit {
            Some(decimal_value(chars@.skip(from as int)) as u64)
        } else {
            None
        }),
{
    let ghost digits = chars@.skip(from as int);
    let n: usize = chars.len();
    if from == n {
        return None;
    }
    let mut acc: u64 = 0;
    let mut over: bool = false;
    let mut i: usize = from;
    while i < n
        invariant
            from <= i <= n,
            n == chars@.len(),
            digits == chars@.skip(from as int),
            limit <= 0xffff_ffff,
            all_digits(digits.take(i - from)),
            !over ==> acc == decimal_value(digits.take(i - from)) && acc <= limit,
            over ==> decimal_value(digits.take(i - from)) > limit,
        decreases n - i,
    {
        let c: char = chars[i];
        let ghost before = digits.take(i - from);
        let ghost after = digits.take(i - from + 1);
        assert(digits[i - from] == c);
        if !(c >= '0' && c <= '9') {
            assert(!is_digit(digits[i - from]));
            return None;
        }
        assert(after.drop_last() =~= before);
        assert(after.last() == c);
        let d: u64 = (c as u32 - '0' as u32) as u64;
        if !over {
            acc = acc * 10 + d;
            if acc > limit {
                over = true;
            }
        }
        assert(all_digits(after)) by {
            assert forall|k: int| 0 <= k < after.len() implies is_digit(#[trigger] after[k]) by {
                if k < before.len() {
                    assert(after[k] == before[k]);
                }
            }
        }
        i += 1;
    }
    assert(digits.take(n - from) =~= digits);
    if over {
        None
    } else {
        Some(acc)
    }
}

/// Parses a token as an unsigned 32-bit integer.
pub fn parse_u32(token: &str) -> (r: Result<u32, ParsePerTypeError>)
    ensures
        r == (match u32_of(token@) {
            Some(v) => Ok::<u32, ParsePerTypeError>(v),
            None => Err(ParsePerTypeError::ParseUIntError),
        }),
{
    let chars = to_chars(token);
    let from: usize = if chars.len() > 0 && chars[0] == '+' {
        1
    } else {
        0
    };
    assert(chars@.skip(0) =~= chars@);
    match read_digits(&chars, from, 0xffff_ffff) {
        Some(v) => Ok(v as u32),
        None => Err(ParsePerTypeError::ParseUIntError),
    }
}

/// Parses a token as a signed 32-bit integer.
pub fn parse_i32(token: &str) -> (r: Result<i32, ParsePerTypeError>)
    ensures
        r == (match i32_of(token@) {
            Some(v) => Ok::<i32, ParsePerTypeError>(v),
            None => Err(ParsePerTypeError::ParseIntError),
        }),
{
    let chars = to_chars(token);
    let negative: bool = chars.len() > 0 && chars[0] == '-';
    let from: usize = if chars.len() > 0 && (chars[0] == '+' || chars[0] == '-') {
        1
    } else {
        0
    };
    let limit: u64 = if negative {
        0x8000_0000
    } else {
        0x7fff_ffff
    };
    assert(chars@.skip(0) =~= chars@);
    match read_digits(&chars, from, limit) {
        Some(v) => {
            if negative {
                Ok((0 - (v as i64)) as i32)
            } else {
                Ok(v as i32)
            }
        },
        None => Err(ParsePerTypeError::ParseIntError),
    }
}

/// The index of the first character at or after `from` that is no decimal
/// digit, or the length of `s` when only digits follow.
pub open spec fn digit_run(s: Seq<char>, from: int) -> int
    decreases s.len() - from,
{
    if 0 <= from < s.len() && is_digit(s[from]) {
        digit_run(s, from + 1)
    } else {
        from
    }
}

/// Whether `s` is `word`, letter case disregarded. `word` is in lower case.
pub open spec fn is_word(s: Seq<char>, word: Seq<char>) -> bool {
    s.len() == word.len() && forall|i: int|
        0 <= i < s.len() ==> #[trigger] s[i] == word[i] || s[i] as u32 + 32 == word[i] as u32
}

/// Whether the character `c` opens an exponent.
pub open spec fn is_exponent_mark(c: char) -> bool {
    c == 'e' || c == 'E'
}

/// Whether the character `c` is a sign.
pub open spec fn is_sign(c: char) -> bool {
    c == '+' || c == '-'
}

/// Whether `s[from..]` is an exponent: `e` or `E`, an optional sign, and one
/// or more decimal digits up to the end of `s`.
pub open spec fn is_exponent(s: Seq<char>, from: int) -> bool {
    let digits_from = if from + 1 < s.len() && is_sign(s[from + 1]) {
        from + 2
    } else {
        from + 1
    };
    0 <= from < s.len() && is_exponent_mark(s[from]) && digits_from < s.len() && digit_run(
        s,
        digits_from,
    ) == s.len()
}

/// Whether `s` is an unsigned decimal number: digits with at most one point
/// among them and at least one digit in all, then an optional exponent.
pub open spec fn is_decimal(s: Seq<char>) -> bool {
    let point = digit_run(s, 0);
    let has_point = point < s.len() && s[point] == '.';
    let end = if has_point {
        digit_run(s, point + 1)
    } else {
        point
    };
    let digits = if has_point {
        end - 1
    } else {
        end
    };
    digits >= 1 && (end == s.len() || is_exponent(s, end))
}

/// Whether `s` names one of the special values, letter case disregarded.
pub open spec fn is_special(s: Seq<char>) -> bool {
    is_word(s, seq!['i', 'n', 'f']) || is_word(s, seq!['n', 'a', 'n']) || is_word(
        s,
        seq!['i', 'n', 'f', 'i', 'n', 'i', 't', 'y'],
    )
}

/// Whether `t` is a floating-point literal: an optional sign, then either a
/// decimal number or one of `inf`, `infinity` and `nan`.
pub open spec fn is_float_syntax(t: Seq<char>) -> bool {
    let body = if t.len() > 0 && is_sign(t[0]) {
        t.skip(1)
    } else {
        t
    };
    is_decimal(body) || is_special(body)
}

/// A token that was accepted at a floating-point position. It keeps the
/// literal as it was written; two literals are equal when their texts are.
#[derive(Debug, PartialEq, Eq)]
pub struct FloatLit {
    text: String,
}

impl View for FloatLit {
    type V = Seq<char>;

    closed spec fn view(&self) -> Seq<char> {
        self.text@
    }
}

/// The end of the run of decimal digits that starts at `from`.
fn scan_digits(chars: &Vec<char>, from: usize) -> (to: usize)
    requires
        from <= chars@.len(),
    ensures
        to == digit_run(chars@, from as int),
        from <= to <= chars@.len(),
{
    let n: usize = chars.len();
    let mut i: usize = from;
    while i < n && chars[i] >= '0' && chars[i] <= '9'
        invariant
            from <= i <= n,
            n == chars@.len(),
            digit_run(chars@, from as int) == digit_run(chars@, i as int),
        decreases n - i,
    {
        i += 1;
    }
    i
}

/// Whether `chars` is `word`, letter case disregarded.
fn matches_word(chars: &Vec<char>, word: &Vec<char>) -> (r: bool)
    ensures
        r == is_word(chars@, word@),
{
    let n: usize = chars.len();
    if word.len() != n {
        return false;
    }
    let mut i: usize = 0;
    while i < n
        invariant
            i <= n,
            n == chars@.len(),
            n == word@.len(),
            forall|k: int|
                0 <= k < i ==> #[trigger] chars@[k] == word@[k] || chars@[k] as u32 + 32 == word@[k] as u32,
        decreases n - i,
    {
        let c: char = chars[i];
        let w: char = word[i];
        if !(c == w || (w as u32 >= 32 && c as u32 == w as u32 - 32)) {
            return false;
        }
        i += 1;
    }
    true
}

/// Whether `chars` is an unsigned decimal number.
fn check_decimal(chars: &Vec<char>) -> (r: bool)
    ensures
        r == is_decimal(chars@),
{
    let n: usize = chars.len();
    let point: usize = scan_digits(chars, 0);
    let has_point: bool = point < n && chars[point] == '.';
    let end: usize = if has_point {
        scan_digits(chars, point + 1)
    } else {
        point
    };
    let digits: usize = if has_point {
        end - 1
    } else {
        end
    };
    if digits < 1 {
        return false;
    }
    if end == n {
        return true;
    }
    if !(chars[end] == 'e' || chars[end] == 'E') {
        return false;
    }
    let digits_from: usize = if end + 1 < n && (chars[end + 1] == '+' || chars[end + 1] == '-') {
        end + 2
    } else {
        end + 1
    };
    digits_from < n && scan_digits(chars, digits_from) == n
}

/// Whether `chars` is a floating-point literal.
fn check_float(chars: &Vec<char>) -> (r: bool)
    ensures
        r == is_float_syntax(chars@),
{
    let signed: bool = chars.len() > 0 && (chars[0] == '+' || chars[0] == '-');
    let mut body: Vec<char> = Vec::new();
    let mut i: usize = if signed {
        1
    } else {
        0
    };
    let ghost from = i as int;
    while i < chars.len()
        invariant
            0 <= from <= i <= chars@.len(),
            body@ == chars@.subrange(from, i as int),
        decreases chars@.len() - i,
    {
        body.push(chars[i]);
        assert(body@ =~= chars@.subrange(from, i + 1));
        i += 1;
    }
    assert(body@ =~= chars@.skip(from));
    assert(chars@.skip(0) =~= chars@);
    if check_decimal(&body) {
        return true;
    }
    let inf: Vec<char> = vec!['i', 'n', 'f'];
    let nan: Vec<char> = vec!['n', 'a', 'n'];
    let infinity: Vec<char> = vec!['i', 'n', 'f', 'i', 'n', 'i', 't', 'y'];
    assert(inf@ =~= seq!['i', 'n', 'f']);
    assert(nan@ =~= seq!['n', 'a', 'n']);
    assert(infinity@ =~= seq!['i', 'n', 'f', 'i', 'n', 'i', 't', 'y']);
    matches_word(&body, &inf) || matches_word(&body, &nan) || matches_word(&body, &infinity)
}

impl Clone for FloatLit {
    fn clone(&self) -> (copy: Self)
        ensures
            copy@ == self@,
    {
        proof {
            use_type_invariant(self);
        }
        FloatLit { text: self.text.clone() }
    }
}

impl FloatLit {
    /// Every value of the type is a floating-point literal.
    #[verifier::type_invariant]
    closed spec fn well_formed(self) -> bool {
        is_float_syntax(self.text@)
    }

    /// Accepts `token` as a floating-point literal, or rejects it.
    pub fn parse(token: &str) -> (r: Result<FloatLit, ParsePerTypeError>)
        ensures
            r is Ok <==> is_float_syntax(token@),
            r is Ok ==> r->Ok_0@ == token@,
            r is Err ==> r->Err_0 == ParsePerTypeError::ParseFloatError,
    {
        let chars = to_chars(token);
        if check_float(&chars) {
            Ok(FloatLit { text: token.to_owned() })
        } else {
            Err(ParsePerTypeError::ParseFloatError)
        }
    }

    /// The literal as it was written.
    pub fn as_str(&self) -> (s: &str)
        ensures
            s@ == self@,
            is_float_syntax(s@),
    {
        proof {
            use_type_invariant(self);
        }
        self.text.as_str()
    }
}

} // verus!
