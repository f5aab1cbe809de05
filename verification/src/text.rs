//! Helpers for texts: characters, decimal numbers.

use vstd::prelude::*;

verus! {

/// The characters of an optional text.
pub open spec fn text_view(text: Option<String>) -> Option<Seq<char>> {
    match text {
        Some(text) => Some(text@),
        None => None,
    }
}

/// The characters of a text, first to last.
pub fn chars_of(text: &str) -> (chars: Vec<char>)
    ensures
        chars@ == text@,
{
    let mut chars: Vec<char> = Vec::new();
    for c in iter: text.chars()
        invariant
            iter.seq() == text@,
            chars@ == iter.seq().take(iter.index() as int),
    {
        chars.push(c);
    }
    chars
}

/// One of the ten decimal digits.
pub open spec fn is_digit(c: char) -> bool {
    '0' <= c <= '9'
}

/// The number that a decimal digit stands for.
pub open spec fn digit_value(c: char) -> int {
    c as int - '0' as int
}

/// Every character is a decimal digit.
pub open spec fn all_digits(digits: Seq<char>) -> bool {
    forall|i: int| 0 <= i < digits.len() ==> is_digit(#[trigger] digits[i])
}

/// The number that a run of decimal digits stands for; none stands for 0.
pub open spec fn digits_value(digits: Seq<char>) -> int
    decreases digits.len(),
{
    if digits.len() == 0 {
        0
    } else {
        digits_value(digits.drop_last()) * 10 + digit_value(digits.last())
    }
}

/// The text starts with a sign.
pub open spec fn has_sign(text: Seq<char>) -> bool {
    text.len() > 0 && (text[0] == '-' || text[0] == '+')
}

/// The text without its sign, if it has one.
pub open spec fn unsigned_part(text: Seq<char>) -> Seq<char> {
    if has_sign(text) {
        text.skip(1)
    } else {
        text
    }
}

/// The text is a decimal integer: an optional sign, then one digit or more
/// and nothing else.
pub open spec fn is_decimal(text: Seq<char>) -> bool {
    unsigned_part(text).len() > 0 && all_digits(unsigned_part(text))
}

/// The integer that a decimal text stands for.
pub open spec fn decimal_value(text: Seq<char>) -> int {
    if text.len() > 0 && text[0] == '-' {
        -digits_value(unsigned_part(text))
    } else {
        digits_value(unsigned_part(text))
    }
}

/// A run of digits stands for no negative number.
pub proof fn lemma_digits_value_nonnegative(digits: Seq<char>)
    requires
        all_digits(digits),
    ensures
        0 <= digits_value(digits),
    decreases digits.len(),
{
    if digits.len() > 0 {
        assert(is_digit(digits.last()));
        assert forall|i: int| 0 <= i < digits.drop_last().len() implies is_digit(
            #[trigger] digits.drop_last()[i],
        ) by {
            assert(is_digit(digits[i]));
        }
        lemma_digits_value_nonnegative(digits.drop_last());
    }
}

/// Why a text is no 32-bit integer.
#[derive(Clone, Copy, Debug, PartialEq, Eq, Structural)]
pub enum NumberError {
    /// The text is not an optional sign followed by digits alone.
    NotANumber,
    /// The number does not fit into 32 bits.
    OutOfRange,
}

/// What reading a text as a 32-bit integer gives.
pub open spec fn parsed_i32(text: Seq<char>) -> Result<i32, NumberError> {
    if !is_decimal(text) {
        Err(NumberError::NotANumber)
    } else if i32::MIN <= decimal_value(text) <= i32::MAX {
        Ok(decimal_value(text) as i32)
    } else {
        Err(NumberError::OutOfRange)
    }
}

/// Reads a decimal integer: an optional `+` or `-`, then digits alone. No
/// blanks, no separators, no other scripts' digits.
pub fn parse_i32(text: &str) -> (parsed: Result<i32, NumberError>)
    ensures
        parsed == parsed_i32(text@),
{
    let chars = chars_of(text);
    let n: usize = chars.len();
    let negative: bool = n > 0 && chars[0] == '-';
    let start: usize = if n > 0 && (chars[0] == '-' || chars[0] == '+') {
        1
    } else {
        0
    };
    let ghost digits = unsigned_part(text@);
    assert(digits.len() == n - start);
    if start == n {
        return Err(NumberError::NotANumber);
    }
    // The limit is one above `i32::MAX`, the magnitude of `i32::MIN`.
    let limit: i64 = 2147483648;
    let mut value: i64 = 0;
    let mut too_large: bool = false;
    let mut index: usize = start;
    assert(digits.take(0) =~= Seq::empty());
    while index < n
        invariant
            start <= index <= n,
            n == chars.len(),
            chars@ == text@,
            digits == unsigned_part(text@),
            digits.len() == n - start,
            forall|k: int| 0 <= k < digits.len() ==> digits[k] == chars@[k + start],
            all_digits(digits.take(index - start)),
            limit == 2147483648,
            0 <= value <= limit,
            !too_large ==> value == digits_value(digits.take(index - start)),
            too_large ==> digits_value(digits.take(index - start)) > limit,
        decreases n - index,
    {
        let c: char = chars[index];
        if !(c >= '0' && c <= '9') {
            assert(!is_digit(digits[index - start]));
            return Err(NumberError::NotANumber);
        }
        let ghost seen = digits.take(index - start);
        let ghost next = digits.take(index - start + 1);
        proof {
            assert(next.drop_last() =~= seen);
            assert(next.last() == c);
            assert forall|k: int| 0 <= k < next.len() implies is_digit(#[trigger] next[k]) by {
                if k < seen.len() {
                    assert(is_digit(seen[k]));
                }
            }
            lemma_digits_value_nonnegative(seen);
        }
        if !too_large {
            let digit: i64 = (c as u32 - '0' as u32) as i64;
            let grown: i64 = value * 10 + digit;
            if grown > limit {
                too_large = true;
            } else {
                value = grown;
            }
        }
        index = index + 1;
    }
    proof {
        assert(digits.take(n - start) =~= digits);
    }
    if too_large {
        Err(NumberError::OutOfRange)
    } else if negative {
        Ok((-value) as i32)
    } else if value == limit {
        Err(NumberError::OutOfRange)
    } else {
        Ok(value as i32)
    }
}

/// A blank: a character with Unicode's White_Space property.
pub open spec fn is_whitespace(c: char) -> bool {
    ||| '\u{9}' <= c <= '\u{d}'
    ||| c == ' '
    ||| c == '\u{85}'
    ||| c == '\u{a0}'
    ||| c == '\u{1680}'
    ||| '\u{2000}' <= c <= '\u{200a}'
    ||| c == '\u{2028}'
    ||| c == '\u{2029}'
    ||| c == '\u{202f}'
    ||| c == '\u{205f}'
    ||| c == '\u{3000}'
}

/// Tells whether a character is a blank.
pub fn char_is_whitespace(c: char) -> (blank: bool)
    ensures
        blank == is_whitespace(c),
{
    (c >= '\u{9}' && c <= '\u{d}') || c == ' ' || c == '\u{85}' || c == '\u{a0}' || c
        == '\u{1680}' || (c >= '\u{2000}' && c <= '\u{200a}') || c == '\u{2028}' || c
        == '\u{2029}' || c == '\u{202f}' || c == '\u{205f}' || c == '\u{3000}'
}

/// The number of blanks that a text starts with.
pub open spec fn leading_blanks(text: Seq<char>) -> int
    decreases text.len(),
{
    if text.len() == 0 || !is_whitespace(text[0]) {
        0
    } else {
        1 + leading_blanks(text.skip(1))
    }
}

/// The number of blanks that a text ends with.
pub open spec fn trailing_blanks(text: Seq<char>) -> int
    decreases text.len(),
{
    if text.len() == 0 || !is_whitespace(text.last()) {
        0
    } else {
        1 + trailing_blanks(text.drop_last())
    }
}

/// The text without the blanks at its start and at its end.
pub open spec fn trimmed(text: Seq<char>) -> Seq<char> {
    if leading_blanks(text) == text.len() {
        Seq::empty()
    } else {
        text.subrange(leading_blanks(text), text.len() - trailing_blanks(text))
    }
}

/// The blanks at the start are blanks, and the character behind them is
/// none.
pub proof fn lemma_leading_blanks(text: Seq<char>)
    ensures
        0 <= leading_blanks(text) <= text.len(),
        forall|k: int| 0 <= k < leading_blanks(text) ==> is_whitespace(#[trigger] text[k]),
        leading_blanks(text) < text.len() ==> !is_whitespace(text[leading_blanks(text)]),
    decreases text.len(),
{
    if text.len() > 0 && is_whitespace(text[0]) {
        let rest = text.skip(1);
        lemma_leading_blanks(rest);
        assert forall|k: int| 0 <= k < leading_blanks(text) implies is_whitespace(
            #[trigger] text[k],
        ) by {
            if k > 0 {
                assert(is_whitespace(rest[k - 1]));
            }
        }
        if leading_blanks(text) < text.len() {
            assert(rest[leading_blanks(rest)] == text[leading_blanks(text)]);
        }
    }
}

/// The blanks at the end are blanks, and the character before them is none.
pub proof fn lemma_trailing_blanks(text: Seq<char>)
    ensures
        0 <= trailing_blanks(text) <= text.len(),
        forall|k: int|
            text.len() - trailing_blanks(text) <= k < text.len() ==> is_whitespace(
                #[trigger] text[k],
            ),
        trailing_blanks(text) < text.len() ==> !is_whitespace(
            text[text.len() - trailing_blanks(text) - 1],
        ),
    decreases text.len(),
{
    if text.len() > 0 && is_whitespace(text.last()) {
        let front = text.drop_last();
        lemma_trailing_blanks(front);
        assert forall|k: int| text.len() - trailing_blanks(text) <= k < text.len() implies
            is_whitespace(#[trigger] text[k]) by {
            if k < front.len() {
                assert(is_whitespace(front[k]));
            }
        }
        if trailing_blanks(text) < text.len() {
            assert(front[front.len() - trailing_blanks(front) - 1] == text[text.len()
                - trailing_blanks(text) - 1]);
        }
    }
}

/// Law: a trimmed text neither starts nor ends with a blank, and trimming
/// it again changes nothing.
pub proof fn lemma_trimmed(text: Seq<char>)
    ensures
        trimmed(text).len() <= text.len(),
        trimmed(text).len() > 0 ==> !is_whitespace(trimmed(text)[0]) && !is_whitespace(
            trimmed(text).last(),
        ),
        trimmed(text).len() == 0 <==> forall|k: int|
            0 <= k < text.len() ==> is_whitespace(#[trigger] text[k]),
        trimmed(trimmed(text)) == trimmed(text),
{
    lemma_leading_blanks(text);
    lemma_trailing_blanks(text);
    let start = leading_blanks(text);
    let stop = text.len() - trailing_blanks(text);
    if start == text.len() {
        assert(trimmed(Seq::<char>::empty()) =~= Seq::<char>::empty());
    } else {
        assert(!is_whitespace(text[start]));
        assert(start < stop) by {
            if stop <= start {
                assert(is_whitespace(text[start]));
            }
        }
        let inner = trimmed(text);
        assert(inner[0] == text[start]);
        assert(inner.last() == text[stop - 1]);
        assert(leading_blanks(inner) == 0);
        assert(trailing_blanks(inner) == 0);
        assert(inner.subrange(0, inner.len() as int) =~= inner);
        assert(!is_whitespace(inner[0]));
    }
}

/// The text without the blanks at its start and at its end.
pub fn trim(text: &str) -> (inner: String)
    ensures
        inner@ == trimmed(text@),
{
    let chars = chars_of(text);
    let n: usize = chars.len();
    let mut start: usize = 0;
    assert(text@.skip(0) =~= text@);
    while start < n && char_is_whitespace(chars[start])
        invariant
            start <= n,
            n == chars.len(),
            chars@ == text@,
            leading_blanks(text@) == start + leading_blanks(text@.skip(start as int)),
        decreases n - start,
    {
        assert(text@.skip(start as int).skip(1) =~= text@.skip(start as int + 1));
        start = start + 1;
    }
    assert(leading_blanks(text@) == start);
    if start == n {
        return String::new();
    }
    let mut stop: usize = n;
    assert(text@.take(n as int) =~= text@);
    while stop > 0 && char_is_whitespace(chars[stop - 1])
        invariant
            stop <= n,
            n == chars.len(),
            chars@ == text@,
            trailing_blanks(text@) == n - stop + trailing_blanks(text@.take(stop as int)),
        decreases stop,
    {
        assert(text@.take(stop as int).drop_last() =~= text@.take(stop as int - 1));
        stop = stop - 1;
    }
    proof {
        lemma_leading_blanks(text@);
        lemma_trailing_blanks(text@);
        if stop <= start {
            assert(is_whitespace(text@[start as int]));
        }
    }
    text.substring_char(start, stop).to_owned()
}

/// The character that stands for a digit's value.
pub open spec fn digit_char(value: int) -> char {
    if value == 0 {
        '0'
    } else if value == 1 {
        '1'
    } else if value == 2 {
        '2'
    } else if value == 3 {
        '3'
    } else if value == 4 {
        '4'
    } else if value == 5 {
        '5'
    } else if value == 6 {
        '6'
    } else if value == 7 {
        '7'
    } else if value == 8 {
        '8'
    } else {
        '9'
    }
}

/// The digits of a natural number, without leading zeros; a single `0` for
/// zero.
pub open spec fn natural_text(number: nat) -> Seq<char>
    decreases number,
{
    if number < 10 {
        seq![digit_char(number as int)]
    } else {
        natural_text(number / 10).push(digit_char((number % 10) as int))
    }
}

/// The decimal text of an integer: its digits, behind a `-` if it is
/// negative.
pub open spec fn decimal_text(number: int) -> Seq<char> {
    if number < 0 {
        seq!['-'] + natural_text((-number) as nat)
    } else {
        natural_text(number as nat)
    }
}

/// The digits of a natural number are digits, and they stand for it.
pub proof fn lemma_natural_text(number: nat)
    ensures
        natural_text(number).len() > 0,
        all_digits(natural_text(number)),
        digits_value(natural_text(number)) == number,
    decreases number,
{
    let text = natural_text(number);
    if number < 10 {
        assert(text.drop_last() =~= Seq::<char>::empty());
        assert(digits_value(text.drop_last()) == 0);
    } else {
        lemma_natural_text(number / 10);
        let front = natural_text(number / 10);
        assert(text.drop_last() =~= front);
        assert forall|i: int| 0 <= i < text.len() implies is_digit(#[trigger] text[i]) by {
            if i < front.len() {
                assert(is_digit(front[i]));
            }
        }
    }
}

/// Law: reading the decimal text of a 32-bit integer gives the integer
/// back.
pub proof fn lemma_decimal_round_trip(number: i32)
    ensures
        parsed_i32(decimal_text(number as int)) == Ok::<i32, NumberError>(number),
{
    let text = decimal_text(number as int);
    if number < 0 {
        let digits = natural_text((-number) as nat);
        lemma_natural_text((-number) as nat);
        assert(text[0] == '-');
        assert(text.skip(1) =~= digits);
    } else {
        lemma_natural_text(number as nat);
        assert(is_digit(text[0]));
    }
}

/// The text of one digit.
fn digit_text(value: u32) -> (text: &'static str)
    requires
        value < 10,
    ensures
        text@ == seq![digit_char(value as int)],
{
    proof {
        reveal_strlit("0");
        reveal_strlit("1");
        reveal_strlit("2");
        reveal_strlit("3");
        reveal_strlit("4");
        reveal_strlit("5");
        reveal_strlit("6");
        reveal_strlit("7");
        reveal_strlit("8");
        reveal_strlit("9");
    }
    let text = if value == 0 {
        "0"
    } else if value == 1 {
        "1"
    } else if value == 2 {
        "2"
    } else if value == 3 {
        "3"
    } else if value == 4 {
        "4"
    } else if value == 5 {
        "5"
    } else if value == 6 {
        "6"
    } else if value == 7 {
        "7"
    } else if value == 8 {
        "8"
    } else {
        "9"
    };
    assert(text@ =~= seq![digit_char(value as int)]);
    text
}

/// The decimal text of a 32-bit integer.
pub fn decimal_string(number: i32) -> (text: String)
    ensures
        text@ == decimal_text(number as int),
{
    let negative: bool = number < 0;
    let magnitude: u32 = if negative {
        (-(number as i64)) as u32
    } else {
        number as u32
    };
    let mut rest: u32 = magnitude / 10;
    let mut text: String = digit_text(magnitude % 10).to_owned();
    // `text` holds the digits of `magnitude` from the right; `rest` is what
    // is left of it to the left of them.
    let ghost mut tail: Seq<char> = text@;
    while rest > 0
        invariant
            text@ == tail,
            rest == 0 ==> natural_text(magnitude as nat) == tail,
            rest > 0 ==> natural_text(magnitude as nat) == natural_text(rest as nat) + tail,
        decreases rest,
    {
        let digit = digit_text(rest % 10);
        let ghost before = rest;
        let ghost old_tail = tail;
        text = digit.to_owned().concat(text.as_str());
        rest = rest / 10;
        proof {
            tail = seq![digit_char((before % 10) as int)] + old_tail;
            assert(text@ =~= tail);
            if before < 10 {
                assert(natural_text(before as nat) =~= seq![digit_char(before as int)]);
                assert(natural_text(magnitude as nat) =~= tail);
            } else {
                assert(natural_text(before as nat) =~= natural_text(rest as nat).push(
                    digit_char((before % 10) as int),
                ));
                assert(natural_text(magnitude as nat) =~= natural_text(rest as nat) + tail);
            }
        }
    }
    if negative {
        proof {
            reveal_strlit("-");
        }
        let signed = "-".to_owned().concat(text.as_str());
        assert("-"@ =~= seq!['-']);
        assert(signed@ =~= decimal_text(number as int));
        signed
    } else {
        text
    }
}

} // verus!
