//! The numeric literals of attribute values: decimal integers, the booleans
//! written as integers, and floating-point literals.

use crate::error::RecordError;
use crate::text::chars_of;
use vstd::prelude::*;

verus! {

pub open spec fn is_digit(c: char) -> bool {
    '0' <= c && c <= '9'
}

pub open spec fn is_sign(c: char) -> bool {
    c == '+' || c == '-'
}

/// The number that one decimal digit stands for.
pub open spec fn digit_value(c: char) -> int {
    c as int - 48
}

pub open spec fn all_digits(s: Seq<char>) -> bool {
    forall|i: int| 0 <= i < s.len() ==> is_digit(#[trigger] s[i])
}

/// The number that a run of decimal digits stands for; leading zeros count
/// for nothing.
pub open spec fn digits_value(s: Seq<char>) -> int
    decreases s.len(),
{
    if s.len() == 0 {
        0
    } else {
        10 * digits_value(s.drop_last()) + digit_value(s.last())
    }
}

/// 1 where the text begins with a sign, else 0.
pub open spec fn sign_len(s: Seq<char>) -> int {
    if s.len() > 0 && is_sign(s[0]) {
        1
    } else {
        0
    }
}

/// The integer that a decimal literal stands for: an optional `+` or `-`,
/// then one digit or more, and nothing else. `None` for any other text.
pub open spec fn integer_value(s: Seq<char>) -> Option<int> {
    let digits = s.skip(sign_len(s));
    if digits.len() > 0 && all_digits(digits) {
        if s[0] == '-' {
            Some(-digits_value(digits))
        } else {
            Some(digits_value(digits))
        }
    } else {
        None
    }
}

/// The value of a decimal literal that fits in an `i32`.
pub open spec fn i32_value(s: Seq<char>) -> Option<i32> {
    match integer_value(s) {
        Some(v) => if i32::MIN <= v <= i32::MAX {
            Some(v as i32)
        } else {
            None
        },
        None => None,
    }
}

/// What a boolean attribute means: true for a literal whose value is 1,
/// false for every other text.
pub open spec fn bool_value(s: Seq<char>) -> bool {
    i32_value(s) == Some(1i32)
}

pub proof fn lemma_digits_value_nonnegative(s: Seq<char>)
    requires
        all_digits(s),
    ensures
        digits_value(s) >= 0,
    decreases s.len(),
{
    if s.len() > 0 {
        lemma_digits_value_nonnegative(s.drop_last());
    }
}

/// A run of digits stands for at least as much as any of its prefixes.
pub proof fn lemma_digits_value_prefix(s: Seq<char>, k: int)
    requires
        all_digits(s),
        0 <= k <= s.len(),
    ensures
        digits_value(s.take(k)) <= digits_value(s),
    decreases s.len(),
{
    if k == s.len() {
        assert(s.take(k) =~= s);
    } else {
        let front = s.drop_last();
        assert(front.take(k) =~= s.take(k));
        lemma_digits_value_prefix(front, k);
        lemma_digits_value_nonnegative(front);
    }
}

/// A boolean attribute is true where its text is a decimal literal of the
/// value 1, and false for every other value, 0 and the negative ones among
/// them, and for every text that is no decimal literal.
pub proof fn lemma_bool_coercion(s: Seq<char>)
    ensures
        integer_value(s) == Some(1int) ==> bool_value(s),
        integer_value(s) matches Some(v) && v != 1 ==> !bool_value(s),
        integer_value(s) is None ==> !bool_value(s),
{
}

/// Reads a decimal integer: an optional sign, then digits, within the range
/// of `i32`.
pub fn parse_i32(string: &str) -> (value: Result<i32, RecordError>)
    ensures
        value == match i32_value(string@) {
            Some(v) => Ok::<i32, RecordError>(v),
            None => Err::<i32, RecordError>(RecordError::InvalidNumericField),
        },
{
    let chars = chars_of(string);
    let n = chars.len();
    let start: usize = if n > 0 && (chars[0] == '+' || chars[0] == '-') {
        1
    } else {
        0
    };
    if start == n {
        return Err(RecordError::InvalidNumericField);
    }
    let negative = chars[0] == '-';
    let ghost digits = chars@.skip(start as int);
    let mut magnitude: i64 = 0;
    let mut i: usize = start;
    while i < n
        invariant
            start <= i <= n,
            n == chars@.len(),
            chars@ == string@,
            start == sign_len(chars@),
            digits == chars@.skip(start as int),
            all_digits(digits.take(i - start)),
            magnitude == digits_value(digits.take(i - start)),
            0 <= magnitude <= 2147483648,
        decreases n - i,
    {
        let c: char = chars[i];
        if c < '0' || c > '9' {
            proof {
                assert(!is_digit(digits[i - start]));
            }
            return Err(RecordError::InvalidNumericField);
        }
        let digit = (c as u32 - 48) as i64;
        let ghost before = digits.take(i - start);
        let ghost after = digits.take(i - start + 1);
        proof {
            assert(after.drop_last() =~= before);
            assert(all_digits(after)) by {
                assert forall|j: int| 0 <= j < before.len() implies after[j] == before[j] by {}
            }
        }
        magnitude = magnitude * 10 + digit;
        if magnitude > 2147483648 {
            proof {
                if all_digits(digits) {
                    lemma_digits_value_prefix(digits, i - start + 1);
                }
            }
            return Err(RecordError::InvalidNumericField);
        }
        i += 1;
    }
    proof {
        assert(digits.take(n - start) =~= digits);
    }
    if negative {
        Ok((-magnitude) as i32)
    } else if magnitude <= 2147483647 {
        Ok(magnitude as i32)
    } else {
        Err(RecordError::InvalidNumericField)
    }
}

/// Reads a boolean that is written as an integer: true for the value 1,
/// false for any other number and for text that is no number.
pub fn parse_bool(string: &str) -> (flag: bool)
    ensures
        flag == bool_value(string@),
{
    match parse_i32(string) {
        Ok(v) => v == 1,
        Err(_) => false,
    }
}

/// How many digits stand in a row from position `from` on.
pub open spec fn digit_run(s: Seq<char>, from: int) -> nat
    decreases s.len() - from,
{
    if 0 <= from < s.len() && is_digit(s[from]) {
        1 + digit_run(s, from + 1)
    } else {
        0
    }
}

/// Whether `c` is the given letter, in lower or in upper case.
pub open spec fn is_letter(c: char, lower: char, upper: char) -> bool {
    c == lower || c == upper
}

pub open spec fn is_inf(s: Seq<char>) -> bool {
    &&& s.len() == 3
    &&& is_letter(s[0], 'i', 'I')
    &&& is_letter(s[1], 'n', 'N')
    &&& is_letter(s[2], 'f', 'F')
}

pub open spec fn is_infinity(s: Seq<char>) -> bool {
    &&& s.len() == 8
    &&& is_inf(s.take(3))
    &&& is_letter(s[3], 'i', 'I')
    &&& is_letter(s[4], 'n', 'N')
    &&& is_letter(s[5], 'i', 'I')
    &&& is_letter(s[6], 't', 'T')
    &&& is_letter(s[7], 'y', 'Y')
}

pub open spec fn is_nan(s: Seq<char>) -> bool {
    &&& s.len() == 3
    &&& is_letter(s[0], 'n', 'N')
    &&& is_letter(s[1], 'a', 'A')
    &&& is_letter(s[2], 'n', 'N')
}

/// An exponent that begins at `at` and runs to the end of the text: `e` or
/// `E`, an optional sign, then one digit or more.
pub open spec fn is_exponent(s: Seq<char>, at: int) -> bool {
    let digits = if at + 1 < s.len() && is_sign(s[at + 1]) {
        at + 2
    } else {
        at + 1
    };
    &&& 0 <= at < s.len()
    &&& is_letter(s[at], 'e', 'E')
    &&& digit_run(s, digits) > 0
    &&& digits + digit_run(s, digits) == s.len()
}

/// A decimal number that begins at `start` and runs to the end of the text:
/// digits with at most one point among them, at least one digit in all, then
/// an optional exponent.
pub open spec fn is_decimal(s: Seq<char>, start: int) -> bool {
    let point = start + digit_run(s, start);
    let has_point = point < s.len() && s[point] == '.';
    let end = if has_point {
        point + 1 + digit_run(s, point + 1)
    } else {
        point
    };
    let digits = if has_point {
        end - start - 1
    } else {
        end - start
    };
    &&& digits > 0
    &&& (end == s.len() || is_exponent(s, end))
}

/// Whether a text is a floating-point literal: an optional sign, then `inf`,
/// `infinity` or `nan` in any mix of cases, or a decimal number.
pub open spec fn is_float_literal(s: Seq<char>) -> bool {
    let body = s.skip(sign_len(s));
    is_inf(body) || is_infinity(body) || is_nan(body) || is_decimal(s, sign_len(s))
}

/// The position after the digits that stand in a row from `from` on.
fn skip_digits(chars: &Vec<char>, from: usize) -> (end: usize)
    requires
        from <= chars@.len(),
    ensures
        end == from + digit_run(chars@, from as int),
        end <= chars@.len(),
{
    let n = chars.len();
    let mut end: usize = from;
    while end < n && chars[end] >= '0' && chars[end] <= '9'
        invariant
            from <= end <= n,
            n == chars@.len(),
            from + digit_run(chars@, from as int) == end + digit_run(chars@, end as int),
        decreases n - end,
    {
        end += 1;
    }
    end
}

fn letter_at(chars: &Vec<char>, at: usize, lower: char, upper: char) -> (found: bool)
    requires
        at < chars@.len(),
    ensures
        found == is_letter(chars@[at as int], lower, upper),
{
    chars[at] == lower || chars[at] == upper
}

/// Whether the text from `start` on is one of the three words for a value
/// that is no number.
fn special_from(chars: &Vec<char>, start: usize) -> (found: bool)
    requires
        start <= chars@.len(),
    ensures
        found == {
            let body = chars@.skip(start as int);
            is_inf(body) || is_infinity(body) || is_nan(body)
        },
{
    let n = chars.len();
    if n - start == 3 {
        let inf = letter_at(chars, start, 'i', 'I') && letter_at(chars, start + 1, 'n', 'N')
            && letter_at(chars, start + 2, 'f', 'F');
        let nan = letter_at(chars, start, 'n', 'N') && letter_at(chars, start + 1, 'a', 'A')
            && letter_at(chars, start + 2, 'n', 'N');
        inf || nan
    } else if n - start == 8 {
        letter_at(chars, start, 'i', 'I') && letter_at(chars, start + 1, 'n', 'N') && letter_at(
            chars,
            start + 2,
            'f',
            'F',
        ) && letter_at(chars, start + 3, 'i', 'I') && letter_at(chars, start + 4, 'n', 'N')
            && letter_at(chars, start + 5, 'i', 'I') && letter_at(chars, start + 6, 't', 'T')
            && letter_at(chars, start + 7, 'y', 'Y')
    } else {
        false
    }
}

/// Whether the text from `at` on is an exponent.
fn exponent_from(chars: &Vec<char>, at: usize) -> (found: bool)
    requires
        at < chars@.len(),
    ensures
        found == is_exponent(chars@, at as int),
{
    let n = chars.len();
    if !letter_at(chars, at, 'e', 'E') {
        return false;
    }
    let digits: usize = if at + 1 < n && (chars[at + 1] == '+' || chars[at + 1] == '-') {
        at + 2
    } else {
        at + 1
    };
    let end = skip_digits(chars, digits);
    end > digits && end == n
}

/// Whether the text from `start` on is a decimal number.
fn decimal_from(chars: &Vec<char>, start: usize) -> (found: bool)
    requires
        start <= chars@.len(),
    ensures
        found == is_decimal(chars@, start as int),
{
    let n = chars.len();
    let point = skip_digits(chars, start);
    let has_point = point < n && chars[point] == '.';
    let end = if has_point {
        skip_digits(chars, point + 1)
    } else {
        point
    };
    let digits = if has_point {
        end - start - 1
    } else {
        end - start
    };
    if digits == 0 {
        return false;
    }
    if end == n {
        return true;
    }
    exponent_from(chars, end)
}

/// A floating-point literal, kept as it was written. What number it stands
/// for is left to the reader of the text.
#[derive(Debug)]
pub struct FloatLiteral {
    text: String,
}

impl View for FloatLiteral {
    type V = Seq<char>;

    closed spec fn view(&self) -> Seq<char> {
        self.text@
    }
}

impl FloatLiteral {
    /// The literal is written in the form of a floating-point number.
    pub open spec fn wf(&self) -> bool {
        is_float_literal(self@)
    }

    /// Takes a text as a literal where it is one.
    pub fn parse(text: &str) -> (literal: Option<FloatLiteral>)
        ensures
            literal is Some <==> is_float_literal(text@),
            literal matches Some(l) ==> l@ == text@ && l.wf(),
    {
        let chars = chars_of(text);
        let n = chars.len();
        let start: usize = if n > 0 && (chars[0] == '+' || chars[0] == '-') {
            1
        } else {
            0
        };
        if special_from(&chars, start) || decimal_from(&chars, start) {
            Some(FloatLiteral { text: text.to_owned() })
        } else {
            None
        }
    }

    /// The literal as it was written.
    pub fn as_str(&self) -> (text: &str)
        ensures
            text@ == self@,
    {
        self.text.as_str()
    }
}

} // verus!
