//! Decimal numbers in text: the fields of a parameter string, and the numbers
//! in a label.

use vstd::prelude::*;
use vstd::slice::slice_subrange;
use vstd::string::StringExecFns;
use crate::error::ConfigError;

verus! {

/// Whether `c` is one of the ten decimal digits.
pub open spec fn is_digit(c: char) -> bool {
    '0' <= c && c <= '9'
}

/// The value of a decimal digit.
pub open spec fn digit_value(c: char) -> nat {
    (c as int - '0' as int) as nat
}

/// The digit that stands for `d`, for `d < 10`.
pub open spec fn digit_char(d: nat) -> char {
    ('0' as int + d) as char
}

/// The value of a run of decimal digits, the first digit counting most.
pub open spec fn digits_value(s: Seq<char>) -> nat
    decreases s.len(),
{
    if s.len() == 0 {
        0
    } else {
        digits_value(s.drop_last()) * 10 + digit_value(s.last())
    }
}

/// Whether `s` holds decimal digits only.
pub open spec fn all_digits(s: Seq<char>) -> bool {
    forall|i: int| 0 <= i < s.len() ==> is_digit(#[trigger] s[i])
}

/// The text without the plus sign that may stand before a number.
pub open spec fn unsigned(s: Seq<char>) -> Seq<char> {
    if s.len() > 0 && s[0] == '+' {
        s.drop_first()
    } else {
        s
    }
}

/// The number that a text stands for: one or more decimal digits, with or
/// without a plus sign before them, whose value fits the machine's word.
/// Any other text stands for no number.
pub open spec fn number(s: Seq<char>) -> Option<usize> {
    let digits = unsigned(s);
    if digits.len() > 0 && all_digits(digits) && digits_value(digits) <= usize::MAX {
        Some(digits_value(digits) as usize)
    } else {
        None
    }
}

/// The decimal digits of `n`, without leading zeros.
pub open spec fn decimal(n: nat) -> Seq<char>
    decreases n,
{
    if n < 10 {
        seq![digit_char(n)]
    } else {
        decimal(n / 10).push(digit_char(n % 10))
    }
}

/// The length of the text before the first separator, or of the whole text
/// where it holds no separator.
pub open spec fn field_len(s: Seq<char>, sep: char) -> nat
    decreases s.len(),
{
    if s.len() == 0 || s[0] == sep {
        0
    } else {
        1 + field_len(s.drop_first(), sep)
    }
}

/// The text before the first separator.
pub open spec fn first_field(s: Seq<char>, sep: char) -> Seq<char> {
    s.take(field_len(s, sep) as int)
}

/// The text after the first separator, if there is a separator.
pub open spec fn more_fields(s: Seq<char>, sep: char) -> Option<Seq<char>> {
    if field_len(s, sep) < s.len() {
        Some(s.skip(field_len(s, sep) as int + 1))
    } else {
        None
    }
}

/// The numbers in the first `wanted` fields of a text, as far as the text
/// has that many fields; `None` if one of these fields stands for no number.
/// Fields beyond the first `wanted` are not looked at.
pub open spec fn leading_numbers(s: Seq<char>, sep: char, wanted: nat) -> Option<Seq<usize>>
    decreases wanted,
{
    if wanted == 0 {
        Some(Seq::empty())
    } else {
        match number(first_field(s, sep)) {
            None => None,
            Some(value) => match more_fields(s, sep) {
                None => Some(seq![value]),
                Some(rest) => put_before(
                    seq![value],
                    leading_numbers(rest, sep, (wanted - 1) as nat),
                ),
            },
        }
    }
}

/// The numbers `head` followed by the numbers `tail`, if there are any.
pub open spec fn put_before(head: Seq<usize>, tail: Option<Seq<usize>>) -> Option<Seq<usize>> {
    match tail {
        None => None,
        Some(rest) => Some(head + rest),
    }
}

/// A run of digits is worth no less than the digits it starts with.
pub proof fn lemma_digits_value_grows(s: Seq<char>, n: int)
    requires
        0 <= n <= s.len(),
    ensures
        digits_value(s.take(n)) <= digits_value(s),
    decreases s.len(),
{
    if n < s.len() {
        lemma_digits_value_grows(s.drop_last(), n);
        assert(s.drop_last().take(n) == s.take(n));
    } else {
        assert(s.take(n) == s);
    }
}

/// The field of a text ends at the first separator, or where the text ends.
pub proof fn lemma_field_len(s: Seq<char>, sep: char, n: int)
    requires
        0 <= n <= s.len(),
        forall|i: int| 0 <= i < n ==> s[i] != sep,
        n == s.len() || s[n] == sep,
    ensures
        field_len(s, sep) == n,
    decreases n,
{
    if n > 0 {
        lemma_field_len(s.drop_first(), sep, n - 1);
    }
}

/// Where the first fields of a text stand for numbers there is at least
/// one of them, and no more than were wanted.
pub proof fn lemma_leading_numbers_len(s: Seq<char>, sep: char, wanted: nat)
    requires
        wanted >= 1,
    ensures
        leading_numbers(s, sep, wanted) matches Some(values) ==> 1 <= values.len() <= wanted,
    decreases wanted,
{
    if wanted >= 2 {
        match more_fields(s, sep) {
            Some(rest) => {
                lemma_leading_numbers_len(rest, sep, (wanted - 1) as nat);
            },
            None => {},
        }
    } else {
        match more_fields(s, sep) {
            Some(rest) => {
                assert(leading_numbers(rest, sep, 0) == Some(Seq::<usize>::empty()));
            },
            None => {},
        }
    }
}

/// A text spelled with the decimal digits of a number stands for that
/// number.
pub proof fn lemma_decimal_is_read_back(n: nat)
    requires
        n <= usize::MAX,
    ensures
        number(decimal(n)) == Some(n as usize),
{
    lemma_decimal_digits(n);
}

/// The decimal digits of a number are digits, start with no plus sign, and
/// are worth the number.
pub proof fn lemma_decimal_digits(n: nat)
    ensures
        decimal(n).len() > 0,
        all_digits(decimal(n)),
        digits_value(decimal(n)) == n,
        unsigned(decimal(n)) == decimal(n),
    decreases n,
{
    if n < 10 {
        let s = seq![digit_char(n)];
        assert(s.drop_last() =~= Seq::<char>::empty());
        assert(digits_value(s.drop_last()) == 0);
    } else {
        lemma_decimal_digits(n / 10);
        let head = decimal(n / 10);
        let s = head.push(digit_char(n % 10));
        assert(s.drop_last() =~= head);
        assert(s[0] == head[0]);
    }
}

/// The characters of a string.
pub fn chars_of(text: &str) -> (chars: Vec<char>)
    ensures
        chars@ == text@,
{
    let mut chars: Vec<char> = Vec::new();
    for c in it: text.chars()
        invariant
            it.seq() == text@,
            chars@ == text@.take(it.index() as int),
    {
        chars.push(c);
    }
    chars
}

/// Whether two strings hold the same text.
pub fn same_text(a: &str, b: &str) -> (same: bool)
    ensures
        same == (a@ == b@),
{
    let x = chars_of(a);
    let y = chars_of(b);
    if x.len() != y.len() {
        return false;
    }
    let mut i: usize = 0;
    while i < x.len()
        invariant
            i <= x.len(),
            x.len() == y.len(),
            x@ == a@,
            y@ == b@,
            forall|j: int| 0 <= j < i ==> x@[j] == y@[j],
        decreases x.len() - i,
    {
        if x[i] != y[i] {
            return false;
        }
        i = i + 1;
    }
    assert(x@ =~= y@);
    true
}

/// The value of `c` if it is a decimal digit.
pub fn digit_of(c: char) -> (digit: Option<usize>)
    ensures
        match digit {
            Some(d) => is_digit(c) && d == digit_value(c),
            None => !is_digit(c),
        },
{
    match c {
        '0' => Some(0),
        '1' => Some(1),
        '2' => Some(2),
        '3' => Some(3),
        '4' => Some(4),
        '5' => Some(5),
        '6' => Some(6),
        '7' => Some(7),
        '8' => Some(8),
        '9' => Some(9),
        _ => None,
    }
}

/// Reads the number that a text stands for.
pub fn parse_number(text: &[char]) -> (value: Option<usize>)
    ensures
        value == number(text@),
{
    let start: usize = if text.len() > 0 && text[0] == '+' {
        1
    } else {
        0
    };
    let ghost digits = unsigned(text@);
    assert(digits == text@.skip(start as int));
    if start == text.len() {
        return None;
    }
    let mut value: usize = 0;
    let mut i: usize = start;
    while i < text.len()
        invariant
            start <= i <= text.len(),
            digits == unsigned(text@),
            digits == text@.skip(start as int),
            all_digits(digits.take(i - start)),
            value == digits_value(digits.take(i - start)),
        decreases text.len() - i,
    {
        let ghost seen = digits.take(i - start);
        let ghost next = digits.take(i + 1 - start);
        assert(next.drop_last() == seen);
        assert(next.last() == text@[i as int]);
        let d = match digit_of(text[i]) {
            Some(d) => d,
            None => {
                assert(!is_digit(digits[i - start]));
                return None;
            },
        };
        let grown = match value.checked_mul(10) {
            Some(tens) => tens.checked_add(d),
            None => None,
        };
        value = match grown {
            Some(v) => v,
            None => {
                proof {
                    lemma_digits_value_grows(digits, i + 1 - start);
                }
                return None;
            },
        };
        assert forall|j: int| 0 <= j < next.len() implies is_digit(#[trigger] next[j]) by {
            if j < seen.len() {
                assert(next[j] == seen[j]);
            }
        }
        i = i + 1;
    }
    assert(digits.take(i - start) == digits);
    Some(value)
}

/// Splits a text at its first separator: the field before it, and the rest
/// of the text after it if there is a separator.
pub fn split_field<'a>(text: &'a [char], sep: char) -> (parts: (&'a [char], Option<&'a [char]>))
    ensures
        parts.0@ == first_field(text@, sep),
        match parts.1 {
            Some(rest) => more_fields(text@, sep) == Some(rest@),
            None => more_fields(text@, sep) is None,
        },
{
    let mut n: usize = 0;
    while n < text.len() && text[n] != sep
        invariant
            n <= text.len(),
            forall|i: int| 0 <= i < n ==> text@[i] != sep,
        decreases text.len() - n,
    {
        n = n + 1;
    }
    proof {
        lemma_field_len(text@, sep, n as int);
    }
    let field = slice_subrange(text, 0, n);
    if n < text.len() {
        let rest = slice_subrange(text, n + 1, text.len());
        (field, Some(rest))
    } else {
        (field, None)
    }
}

/// Reads the numbers in the first `wanted` fields of a text, as far as the
/// text has that many fields.
pub fn parse_leading_numbers(text: &[char], sep: char, wanted: usize) -> (numbers: Result<
    Vec<usize>,
    ConfigError,
>)
    ensures
        match leading_numbers(text@, sep, wanted as nat) {
            Some(values) => numbers is Ok && numbers->Ok_0@ == values,
            None => numbers == Err::<Vec<usize>, ConfigError>(ConfigError::InvalidParameter),
        },
{
    let mut out: Vec<usize> = Vec::new();
    let mut rest: &[char] = text;
    let mut remaining: usize = wanted;
    while remaining > 0
        invariant
            leading_numbers(text@, sep, wanted as nat) == put_before(
                out@,
                leading_numbers(rest@, sep, remaining as nat),
            ),
        decreases remaining,
    {
        let ghost before = out@;
        let (field, more) = split_field(rest, sep);
        match parse_number(field) {
            None => {
                return Err(ConfigError::InvalidParameter);
            },
            Some(value) => {
                out.push(value);
                match more {
                    None => {
                        assert(before + seq![value] == out@);
                        return Ok(out);
                    },
                    Some(tail) => {
                        proof {
                            let next = leading_numbers(tail@, sep, (remaining - 1) as nat);
                            if next is Some {
                                assert(before + (seq![value] + next->Some_0) == out@
                                    + next->Some_0);
                            }
                        }
                        rest = tail;
                        remaining = remaining - 1;
                    },
                }
            },
        }
    }
    assert(out@ + Seq::<usize>::empty() == out@);
    Ok(out)
}

/// The text of one decimal digit.
pub fn digit_text(d: usize) -> (text: &'static str)
    requires
        d < 10,
    ensures
        text@ == seq![digit_char(d as nat)],
{
    proof {
        reveal_strlit("0");
        reveal_strlit("1");
        reveal_strlit("2");
        reveal_strlit("3");
        reveal_strlit("4");
        reveal_strlit("5");
        reveal_strlit("6");
        reveal_strlit("7");
        reveal_strlit("8");
        reveal_strlit("9");
    }
    let text = match d {
        0 => "0",
        1 => "1",
        2 => "2",
        3 => "3",
        4 => "4",
        5 => "5",
        6 => "6",
        7 => "7",
        8 => "8",
        _ => "9",
    };
    assert(text@ =~= seq![digit_char(d as nat)]);
    text
}

/// Writes the decimal digits of `n` at the end of `text`.
pub fn append_decimal(text: &mut String, n: usize)
    ensures
        final(text)@ == old(text)@ + decimal(n as nat),
    decreases n,
{
    if n >= 10 {
        append_decimal(text, n / 10);
    }
    text.append(digit_text(n % 10));
    assert(text@ =~= old(text)@ + decimal(n as nat));
}

} // verus!
