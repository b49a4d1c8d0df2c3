//! Numbers written in decimal.

use vstd::prelude::*;

verus! {

/// Whether `c` is a decimal digit.
pub open spec fn is_digit(c: char) -> bool {
    '0' <= c && c <= '9'
}

/// The number that a row of digits stands for.
pub open spec fn digits_value(digits: Seq<char>) -> nat
    decreases digits.len(),
{
    if digits.len() == 0 {
        0
    } else {
        10 * digits_value(digits.drop_last()) + (digits.last() as nat - '0' as nat) as nat
    }
}

/// The text without a plus sign at its front.
pub open spec fn unsigned_part(text: Seq<char>) -> Seq<char> {
    if text.len() > 0 && text[0] == '+' {
        text.skip(1)
    } else {
        text
    }
}

/// The number that `text` stands for: one or more digits, which a plus sign may precede. Any other
/// text stands for none.
pub open spec fn decimal(text: Seq<char>) -> Option<nat> {
    let digits = unsigned_part(text);
    if digits.len() > 0 && forall|i: int| 0 <= i < digits.len() ==> is_digit(#[trigger] digits[i]) {
        Some(digits_value(digits))
    } else {
        None
    }
}

/// The number that `text` stands for, where it is one of at most `limit`.
pub open spec fn decimal_within(text: Seq<char>, limit: nat) -> Option<nat> {
    match decimal(text) {
        Some(number) => if number <= limit {
            Some(number)
        } else {
            None
        },
        None => None,
    }
}

/// Numbers only grow with further digits.
proof fn lemma_digits_grow(digits: Seq<char>, n: int)
    requires
        0 <= n <= digits.len(),
    ensures
        digits_value(digits.take(n)) <= digits_value(digits),
    decreases digits.len() - n,
{
    if n == digits.len() {
        assert(digits.take(n) =~= digits);
    } else {
        lemma_digits_grow(digits, n + 1);
        assert(digits.take(n + 1).drop_last() =~= digits.take(n));
    }
}

/// Reads a number of at most `limit`.
fn read_decimal(text: &str, limit: u64) -> (number: Option<u64>)
    ensures
        match number {
            Some(n) => decimal_within(text@, limit as nat) == Some(n as nat),
            None => decimal_within(text@, limit as nat) is None,
        },
{
    let length: usize = text.unicode_len();
    let start: usize = if length > 0 && text.get_char(0) == '+' {
        1
    } else {
        0
    };
    let ghost digits = unsigned_part(text@);
    if start == length {
        return None;
    }
    let mut value: u64 = 0;
    let mut i: usize = start;
    while i < length
        invariant
            start <= i <= length,
            length == text@.len(),
            digits == text@.skip(start as int),
            digits == unsigned_part(text@),
            digits.len() > 0,
            value == digits_value(digits.take(i - start)),
            value <= limit,
            forall|j: int| 0 <= j < i - start ==> is_digit(#[trigger] digits[j]),
        decreases length - i,
    {
        let c: char = text.get_char(i);
        assert(c == digits[i - start]);
        if !('0' <= c && c <= '9') {
            return None;
        }
        let digit: u64 = c as u64 - '0' as u64;
        proof {
            assert(digits.take(i - start + 1).drop_last() =~= digits.take(i - start));
            lemma_digits_grow(digits, i - start + 1);
        }
        if value > limit / 10 {
            assert(10 * value + digit > limit);
            return None;
        }
        if digit > limit - 10 * value {
            return None;
        }
        value = 10 * value + digit;
        i = i + 1;
    }
    assert(digits.take(i - start) =~= digits);
    Some(value)
}

/// Reads a number that fits into 64 bits.
pub fn parse_u64(text: &str) -> (number: Option<u64>)
    ensures
        match number {
            Some(n) => decimal_within(text@, u64::MAX as nat) == Some(n as nat),
            None => decimal_within(text@, u64::MAX as nat) is None,
        },
{
    read_decimal(text, u64::MAX)
}

/// Reads a number that fits into a machine word.
pub fn parse_usize(text: &str) -> (number: Option<usize>)
    ensures
        match number {
            Some(n) => decimal_within(text@, usize::MAX as nat) == Some(n as nat),
            None => decimal_within(text@, usize::MAX as nat) is None,
        },
{
    match read_decimal(text, usize::MAX as u64) {
        Some(n) => Some(n as usize),
        None => None,
    }
}

/// Reads a number that fits into 16 bits.
pub fn parse_u16(text: &str) -> (number: Option<u16>)
    ensures
        match number {
            Some(n) => decimal_within(text@, u16::MAX as nat) == Some(n as nat),
            None => decimal_within(text@, u16::MAX as nat) is None,
        },
{
    match read_decimal(text, u16::MAX as u64) {
        Some(n) => Some(n as u16),
        None => None,
    }
}

/// A single digit stands for its distance from zero among the characters.
pub proof fn digits_stand_for_themselves(c: char)
    requires
        '0' <= c && c <= '9',
    ensures
        decimal(seq![c]) == Some((c as nat - '0' as nat) as nat),
{
    let text = seq![c];
    assert(text.drop_last() =~= seq![]);
    reveal_with_fuel(digits_value, 2);
    assert(unsigned_part(text) == text);
    assert(forall|i: int| 0 <= i < text.len() ==> is_digit(#[trigger] text[i]));
}

/// A further digit makes a number ten times as large and adds itself.
pub proof fn further_digits_count_ten_times(text: Seq<char>, c: char)
    requires
        decimal(text) is Some,
        '0' <= c && c <= '9',
    ensures
        decimal(text.push(c)) == Some(
            (10 * decimal(text).unwrap() + (c as nat - '0' as nat)) as nat,
        ),
{
    let longer = text.push(c);
    let digits = unsigned_part(text);
    assert(unsigned_part(longer) =~= digits.push(c));
    assert(digits.push(c).drop_last() =~= digits);
    assert forall|i: int| 0 <= i < digits.push(c).len() implies is_digit(
        #[trigger] digits.push(c)[i],
    ) by {
        if i < digits.len() {
            assert(is_digit(digits[i]));
        }
    }
}

/// A plus sign before the digits makes no difference.
pub proof fn a_plus_sign_makes_no_difference(text: Seq<char>)
    requires
        text.len() > 0,
        text[0] != '+',
    ensures
        decimal(seq!['+'] + text) == decimal(text),
{
    assert((seq!['+'] + text).skip(1) =~= text);
}

/// Nothing but digits, and a plus sign before them, stands for a number, and there must be a digit.
pub proof fn other_texts_stand_for_no_number(text: Seq<char>, i: int)
    ensures
        0 <= i < text.len() && !('0' <= text[i] && text[i] <= '9') && !(i == 0 && text[i] == '+')
            ==> decimal(text) is None,
        text.len() == 0 ==> decimal(text) is None,
        text == seq!['+'] ==> decimal(text) is None,
{
    if 0 <= i < text.len() && !('0' <= text[i] && text[i] <= '9') && !(i == 0 && text[i] == '+') {
        let digits = unsigned_part(text);
        if text.len() > 0 && text[0] == '+' {
            assert(digits[i - 1] == text[i]);
            assert(!is_digit(digits[i - 1]));
        } else {
            assert(!is_digit(digits[i]));
        }
    }
}

/// A text is read as the number that it stands for, and not at all where that is too large for the
/// type.
pub proof fn numbers_are_read_as_they_stand(
    text: &str,
    long: Option<u64>,
    word: Option<usize>,
    short: Option<u16>,
)
    requires
        call_ensures(parse_u64, (text,), long),
        call_ensures(parse_usize, (text,), word),
        call_ensures(parse_u16, (text,), short),
    ensures
        long matches Some(n) ==> decimal(text@) == Some(n as nat),
        long is None ==> decimal(text@) is None || decimal(text@).unwrap() > u64::MAX,
        word matches Some(n) ==> decimal(text@) == Some(n as nat),
        word is None ==> decimal(text@) is None || decimal(text@).unwrap() > usize::MAX,
        short matches Some(n) ==> decimal(text@) == Some(n as nat),
        short is None ==> decimal(text@) is None || decimal(text@).unwrap() > u16::MAX,
{
}

} // verus!
