//! Text helpers over the standard library's strings and characters.

use vstd::prelude::*;

verus! {

/// The character of a decimal digit.
pub open spec fn digit_char(digit: nat) -> char {
    if digit == 0 {
        '0'
    } else if digit == 1 {
        '1'
    } else if digit == 2 {
        '2'
    } else if digit == 3 {
        '3'
    } else if digit == 4 {
        '4'
    } else if digit == 5 {
        '5'
    } else if digit == 6 {
        '6'
    } else if digit == 7 {
        '7'
    } else if digit == 8 {
        '8'
    } else {
        '9'
    }
}

/// The decimal digits of a natural number, most significant first.
pub open spec fn digits(value: nat) -> Seq<char>
    decreases value,
{
    if value < 10 {
        seq![digit_char(value)]
    } else {
        digits(value / 10).push(digit_char(value % 10))
    }
}

/// The decimal form of an integer: its digits, after a minus sign where it is
/// negative.
pub open spec fn decimal(value: int) -> Seq<char> {
    if value < 0 {
        seq!['-'] + digits((-value) as nat)
    } else {
        digits(value as nat)
    }
}

/// The character of a decimal digit.
fn digit_of(digit: u64) -> (c: char)
    requires
        digit < 10,
    ensures
        c == digit_char(digit as nat),
{
    if digit == 0 {
        '0'
    } else if digit == 1 {
        '1'
    } else if digit == 2 {
        '2'
    } else if digit == 3 {
        '3'
    } else if digit == 4 {
        '4'
    } else if digit == 5 {
        '5'
    } else if digit == 6 {
        '6'
    } else if digit == 7 {
        '7'
    } else if digit == 8 {
        '8'
    } else {
        '9'
    }
}

/// The decimal form of an integer.
pub fn decimal_string(value: i64) -> (text: String)
    ensures
        text@ == decimal(value as int),
{
    let negative = value < 0;
    let magnitude: u64 = if negative {
        (-(value as i128)) as u64
    } else {
        value as u64
    };
    // The digits as they come, least significant first; `high` is the same
    // digits, most significant first.
    let mut low: Vec<char> = Vec::new();
    let mut rest: u64 = magnitude;
    low.push(digit_of(rest % 10));
    let ghost mut high: Seq<char> = seq![digit_char((rest % 10) as nat)];
    rest = rest / 10;
    while rest > 0
        invariant
            low.len() == high.len(),
            low.len() > 0,
            forall|i: int| 0 <= i < low.len() ==> low@[i] == high[high.len() - 1 - i],
            rest > 0 ==> digits(magnitude as nat) == digits(rest as nat) + high,
            rest == 0 ==> digits(magnitude as nat) == high,
        decreases rest,
    {
        let digit = digit_of(rest % 10);
        proof {
            let longer = seq![digit] + high;
            if rest >= 10 {
                assert(digits(rest as nat) + high =~= digits((rest / 10) as nat) + longer);
            } else {
                assert(digits(rest as nat) + high =~= longer);
            }
            high = longer;
        }
        low.push(digit);
        rest = rest / 10;
    }
    let mut text = String::new();
    if negative {
        push_char(&mut text, '-');
    }
    let ghost sign = text@;
    let mut i: usize = low.len();
    assert(sign + high.take(0) =~= sign);
    while i > 0
        invariant
            i <= low.len(),
            low.len() == high.len(),
            forall|j: int| 0 <= j < low.len() ==> low@[j] == high[high.len() - 1 - j],
            text@ == sign + high.take(low.len() - i),
        decreases i,
    {
        i -= 1;
        push_char(&mut text, low[i]);
        assert(text@ =~= sign + high.take(low.len() - i));
    }
    assert(high.take(high.len() as int) =~= high);
    text
}

/// `String::push`. Trusted: the character is appended to the text.
#[verifier::external_body]
pub(crate) fn push_char(text: &mut String, c: char)
    ensures
        final(text)@ == old(text)@.push(c),
{
    text.push(c)
}

/// Whether a text spells a word.
pub fn spells(text: &String, word: &str) -> (answer: bool)
    ensures
        answer == (text@ == word@),
{
    let other = String::from_str(word);
    *text == other
}

/// The text of one character.
pub fn text_of(c: char) -> (text: String)
    ensures
        text@ == seq![c],
{
    let mut text = String::new();
    push_char(&mut text, c);
    assert(text@ =~= seq![c]);
    text
}

/// The characters of a text, in order.
pub fn chars_of(text: &str) -> (chars: Vec<char>)
    ensures
        chars@ == text@,
{
    let mut chars: Vec<char> = Vec::new();
    for c in it: text.chars()
        invariant
            it.seq() == text@,
            chars@ == it.history(),
    {
        chars.push(c);
    }
    assert(chars@ =~= text@);
    chars
}

/// Whether the standard library counts a character as alphabetic.
pub uninterp spec fn alphabetic(c: char) -> bool;

/// `char::is_alphabetic`. Trusted: the answer depends on the character alone.
#[verifier::external_body]
pub(crate) fn is_alphabetic(c: char) -> (answer: bool)
    ensures
        answer == alphabetic(c),
{
    c.is_alphabetic()
}

} // verus!
