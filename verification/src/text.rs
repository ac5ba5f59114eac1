//! Numerals: how integers are written as text.

use vstd::prelude::*;

verus! {

/// The character for one digit of a base up to sixteen, letters in upper case.
pub open spec fn digit_char(d: int) -> char {
    if d == 0 {
        '0'
    } else if d == 1 {
        '1'
    } else if d == 2 {
        '2'
    } else if d == 3 {
        '3'
    } else if d == 4 {
        '4'
    } else if d == 5 {
        '5'
    } else if d == 6 {
        '6'
    } else if d == 7 {
        '7'
    } else if d == 8 {
        '8'
    } else if d == 9 {
        '9'
    } else if d == 10 {
        'A'
    } else if d == 11 {
        'B'
    } else if d == 12 {
        'C'
    } else if d == 13 {
        'D'
    } else if d == 14 {
        'E'
    } else {
        'F'
    }
}

/// The decimal digits of a natural number, most significant first, without
/// leading zeros; zero is written as the single digit `0`.
pub open spec fn digits(n: nat) -> Seq<char>
    decreases n,
{
    if n < 10 {
        seq![digit_char(n as int)]
    } else {
        digits(n / 10).push(digit_char((n % 10) as int))
    }
}

/// The decimal numeral of an integer: a minus sign for a negative number,
/// then the digits of its magnitude.
pub open spec fn decimal(n: int) -> Seq<char> {
    if n < 0 {
        seq!['-'] + digits((-n) as nat)
    } else {
        digits(n as nat)
    }
}

/// A word as four hexadecimal digits in upper case behind the prefix `0x`.
pub open spec fn hex_word(w: u16) -> Seq<char> {
    seq![
        '0',
        'x',
        digit_char(w as int / 0x1000),
        digit_char((w as int / 0x100) % 16),
        digit_char((w as int / 0x10) % 16),
        digit_char(w as int % 16),
    ]
}

/// The binary digit of `w` at place `place`, where place 0 is the least
/// significant.
pub open spec fn bit_char(w: u16, place: int) -> char {
    if (w >> (place as u16)) & 1 == 1 {
        '1'
    } else {
        '0'
    }
}

/// A word as sixteen binary digits, most significant first.
pub open spec fn binary_word(w: u16) -> Seq<char> {
    Seq::new(16, |i: int| bit_char(w, 15 - i))
}

/// A byte as two hexadecimal digits in upper case.
pub open spec fn hex_byte(b: u8) -> Seq<char> {
    seq![digit_char(b as int / 16), digit_char(b as int % 16)]
}

/// Appends one character to a string, through `String::push`.
#[verifier::external_body]
pub(crate) fn push_char(text: &mut String, c: char)
    ensures
        final(text)@ == old(text)@.push(c),
{
    text.push(c)
}

/// The character of a digit below sixteen.
pub fn digit_to_char(d: u8) -> (c: char)
    requires
        d < 16,
    ensures
        c == digit_char(d as int),
{
    match d {
        0 => '0',
        1 => '1',
        2 => '2',
        3 => '3',
        4 => '4',
        5 => '5',
        6 => '6',
        7 => '7',
        8 => '8',
        9 => '9',
        10 => 'A',
        11 => 'B',
        12 => 'C',
        13 => 'D',
        14 => 'E',
        _ => 'F',
    }
}

/// Writes a magnitude in decimal, behind a minus sign if `negative` is set.
fn signed_digits_text(magnitude: u64, negative: bool) -> (text: String)
    ensures
        text@ == (if negative {
            seq!['-']
        } else {
            Seq::<char>::empty()
        }) + digits(magnitude as nat),
{
    let mut rest: u64 = magnitude / 10;
    let mut low_first: Vec<char> = Vec::new();
    low_first.push(digit_to_char((magnitude % 10) as u8));
    while rest > 0
        invariant
            digits(magnitude as nat) == (if rest > 0 {
                digits(rest as nat)
            } else {
                Seq::<char>::empty()
            }) + low_first@.reverse(),
        decreases rest,
    {
        let ghost before = low_first@;
        low_first.push(digit_to_char((rest % 10) as u8));
        assert(low_first@.reverse() =~= seq![digit_char((rest % 10) as int)] + before.reverse());
        rest = rest / 10;
    }
    let mut text: String = String::new();
    if negative {
        push_char(&mut text, '-');
    }
    let ghost sign = text@;
    let mut left: usize = low_first.len();
    while left > 0
        invariant
            left <= low_first.len(),
            text@ == sign + low_first@.reverse().take(low_first.len() - left),
        decreases left,
    {
        left = left - 1;
        push_char(&mut text, low_first[left]);
    }
    assert(low_first@.reverse().take(low_first.len() as int) =~= low_first@.reverse());
    text
}

/// Writes an integer as its decimal numeral.
pub fn decimal_text(value: i64) -> (text: String)
    ensures
        text@ == decimal(value as int),
{
    if value < 0 {
        signed_digits_text(((-(value + 1)) as u64) + 1, true)
    } else {
        signed_digits_text(value as u64, false)
    }
}

/// Writes a natural number as its decimal numeral.
pub fn natural_text(value: u64) -> (text: String)
    ensures
        text@ == decimal(value as int),
{
    signed_digits_text(value, false)
}

/// Writes a word as `0x` and four hexadecimal digits in upper case.
pub fn hex_word_text(w: u16) -> (text: String)
    ensures
        text@ == hex_word(w),
{
    let mut text: String = String::new();
    push_char(&mut text, '0');
    push_char(&mut text, 'x');
    push_char(&mut text, digit_to_char((w / 0x1000) as u8));
    push_char(&mut text, digit_to_char(((w / 0x100) % 16) as u8));
    push_char(&mut text, digit_to_char(((w / 0x10) % 16) as u8));
    push_char(&mut text, digit_to_char((w % 16) as u8));
    text
}

/// Writes a word as sixteen binary digits.
pub fn binary_word_text(w: u16) -> (text: String)
    ensures
        text@ == binary_word(w),
{
    let mut text: String = String::new();
    let mut done: u16 = 0;
    while done < 16
        invariant
            done <= 16,
            text@ == binary_word(w).take(done as int),
        decreases 16 - done,
    {
        let place: u16 = 15 - done;
        let c: char = if (w >> place) & 1 == 1 {
            '1'
        } else {
            '0'
        };
        push_char(&mut text, c);
        done = done + 1;
        assert(text@ =~= binary_word(w).take(done as int));
    }
    assert(binary_word(w).take(16) =~= binary_word(w));
    text
}

} // verus!
