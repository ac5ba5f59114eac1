//! Bytes written as hexadecimal text, and read back from it.

use vstd::prelude::*;
use crate::text::{digit_char, digit_to_char, hex_byte, push_char};

verus! {

/// The text without its space characters.
pub open spec fn squeezed(s: Seq<char>) -> Seq<char> {
    s.filter(|c: char| c != ' ')
}

/// The value of a hexadecimal digit, in either case; `None` for any other
/// character.
pub open spec fn hex_value(c: char) -> Option<int> {
    if '0' <= c <= '9' {
        Some(c as int - '0' as int)
    } else if 'a' <= c <= 'f' {
        Some(c as int - 'a' as int + 10)
    } else if 'A' <= c <= 'F' {
        Some(c as int - 'A' as int + 10)
    } else {
        None
    }
}

/// The byte that two characters stand for: two hexadecimal digits, or a plus
/// sign and one hexadecimal digit; `None` for any other pair.
pub open spec fn pair_value(first: char, second: char) -> Option<u8> {
    match hex_value(second) {
        None => None,
        Some(low) => if first == '+' {
            Some(low as u8)
        } else {
            match hex_value(first) {
                None => None,
                Some(high) => Some((16 * high + low) as u8),
            }
        },
    }
}

/// Whether a squeezed text is a whole number of pairs that each stand for a
/// byte.
pub open spec fn pairs_ok(c: Seq<char>) -> bool {
    &&& c.len() % 2 == 0
    &&& forall|i: int| 0 <= i < c.len() / 2 ==> (#[trigger] pair_value(c[2 * i], c[2 * i + 1])) is Some
}

/// The bytes that the pairs of a squeezed text stand for.
pub open spec fn pairs_bytes(c: Seq<char>) -> Seq<u8> {
    Seq::new(c.len() / 2, |i: int| pair_value(c[2 * i], c[2 * i + 1]).unwrap())
}

/// Whether a text stands for bytes: with its spaces taken out, it is a
/// whole number of pairs, each of which stands for a byte.
pub open spec fn is_hex_text(s: Seq<char>) -> bool {
    pairs_ok(squeezed(s))
}

/// The bytes that a hexadecimal text stands for, pair by pair, spaces
/// ignored.
pub open spec fn hex_bytes(s: Seq<char>) -> Seq<u8> {
    pairs_bytes(squeezed(s))
}

/// Bytes as text: two upper-case hexadecimal digits each, one space between
/// neighbours.
pub open spec fn hex_string(bytes: Seq<u8>) -> Seq<char>
    decreases bytes.len(),
{
    if bytes.len() == 0 {
        Seq::empty()
    } else if bytes.len() == 1 {
        hex_byte(bytes[0])
    } else {
        hex_string(bytes.drop_last()) + seq![' '] + hex_byte(bytes.last())
    }
}

/// The value of a hexadecimal digit, if `c` is one.
pub fn hex_digit_value(c: char) -> (value: Option<u8>)
    ensures
        match value {
            Some(v) => hex_value(c) == Some(v as int),
            None => hex_value(c) is None,
        },
{
    let code: u32 = c as u32;
    if '0' <= c && c <= '9' {
        Some((code - 48) as u8)
    } else if 'a' <= c && c <= 'f' {
        Some((code - 97 + 10) as u8)
    } else if 'A' <= c && c <= 'F' {
        Some((code - 65 + 10) as u8)
    } else {
        None
    }
}

/// The byte that a pair of characters stands for, if it stands for one.
pub fn pair_byte(first: char, second: char) -> (value: Option<u8>)
    ensures
        value == pair_value(first, second),
{
    match hex_digit_value(second) {
        None => None,
        Some(low) => {
            if first == '+' {
                Some(low)
            } else {
                match hex_digit_value(first) {
                    None => None,
                    Some(high) => Some(16 * high + low),
                }
            }
        },
    }
}

/// Reads hexadecimal text as bytes, or tells that it stands for none.
///
/// Spaces are ignored wherever they stand. What is left must be pairs of
/// hexadecimal digits (a plus sign may stand in place of a pair's first
/// digit); a text with anything else, or with a digit left over, gives `None`.
pub fn try_hex_to_bytes(hex_str: &str) -> (parsed: Option<Vec<u8>>)
    ensures
        match parsed {
            Some(bytes) => is_hex_text(hex_str@) && bytes@ == hex_bytes(hex_str@),
            None => !is_hex_text(hex_str@),
        },
{
    let mut cleaned: Vec<char> = Vec::new();
    for c in it: hex_str.chars()
        invariant
            it.seq() == hex_str@,
            cleaned@ == squeezed(hex_str@.take(it.index() as int)),
    {
        proof {
            let before = hex_str@.take(it.index() as int);
            let after = hex_str@.take(it.index() + 1);
            assert(after.drop_last() =~= before);
            assert(after.last() == c);
            reveal(Seq::filter);
        }
        if c != ' ' {
            cleaned.push(c);
        }
    }
    assert(hex_str@.take(hex_str@.len() as int) =~= hex_str@);
    if cleaned.len() % 2 != 0 {
        return None;
    }
    let count: usize = cleaned.len() / 2;
    let mut bytes: Vec<u8> = Vec::new();
    let mut i: usize = 0;
    while i < count
        invariant
            cleaned@ == squeezed(hex_str@),
            cleaned.len() == 2 * count,
            i <= count,
            bytes.len() == i,
            forall|j: int|
                0 <= j < i ==> (#[trigger] pair_value(cleaned@[2 * j], cleaned@[2 * j + 1])) == Some(
                    bytes@[j],
                ),
        decreases count - i,
    {
        match pair_byte(cleaned[2 * i], cleaned[2 * i + 1]) {
            None => {
                assert(pair_value(cleaned@[2 * (i as int)], cleaned@[2 * (i as int) + 1]) is None);
                return None;
            },
            Some(b) => {
                bytes.push(b);
            },
        }
        i = i + 1;
    }
    assert(bytes@ =~= hex_bytes(hex_str@));
    Some(bytes)
}

/// Reads hexadecimal text as bytes: `"01 ff"` gives the bytes 1 and 255.
pub fn hex_to_bytes(hex_str: &str) -> (bytes: Vec<u8>)
    requires
        is_hex_text(hex_str@),
    ensures
        bytes@ == hex_bytes(hex_str@),
{
    match try_hex_to_bytes(hex_str) {
        Some(bytes) => bytes,
        None => Vec::new(),
    }
}

/// Writes bytes as text: two upper-case hexadecimal digits for each, one
/// space between neighbours.
pub fn bytes_to_hex_string(bytes: &[u8]) -> (text: String)
    ensures
        text@ == hex_string(bytes@),
{
    let mut text: String = String::new();
    let mut i: usize = 0;
    while i < bytes.len()
        invariant
            i <= bytes.len(),
            text@ == hex_string(bytes@.take(i as int)),
        decreases bytes.len() - i,
    {
        proof {
            let before = bytes@.take(i as int);
            let after = bytes@.take(i + 1);
            assert(after.drop_last() =~= before);
            assert(after.last() == bytes@[i as int]);
        }
        if i > 0 {
            push_char(&mut text, ' ');
        }
        let b: u8 = bytes[i];
        push_char(&mut text, digit_to_char(b / 16));
        push_char(&mut text, digit_to_char(b % 16));
        i = i + 1;
        assert(text@ =~= hex_string(bytes@.take(i as int)));
    }
    assert(bytes@.take(bytes@.len() as int) =~= bytes@);
    text
}

/// The digits of bytes, two for each, with nothing in between.
pub open spec fn packed_digits(bytes: Seq<u8>) -> Seq<char> {
    Seq::new(
        2 * bytes.len(),
        |k: int|
            if k % 2 == 0 {
                digit_char(bytes[k / 2] as int / 16)
            } else {
                digit_char(bytes[k / 2] as int % 16)
            },
    )
}

/// A digit character stands for its digit, and is no space and no plus sign.
proof fn lemma_digit_char_value(d: int)
    requires
        0 <= d < 16,
    ensures
        hex_value(digit_char(d)) == Some(d),
        digit_char(d) != ' ',
        digit_char(d) != '+',
{
}

/// With its spaces taken out, the text of bytes is their digits.
proof fn lemma_hex_string_squeezed(bytes: Seq<u8>)
    ensures
        squeezed(hex_string(bytes)) == packed_digits(bytes),
    decreases bytes.len(),
{
    let keep = |c: char| c != ' ';
    reveal_with_fuel(Seq::filter, 3);
    if bytes.len() == 0 {
        assert(squeezed(hex_string(bytes)) =~= packed_digits(bytes));
    } else {
        let last = bytes.last();
        lemma_digit_char_value(last as int / 16);
        lemma_digit_char_value(last as int % 16);
        let pair = hex_byte(last);
        assert(pair.drop_last() =~= seq![pair[0]]);
        assert(pair.drop_last().drop_last() =~= Seq::<char>::empty());
        assert(pair.filter(keep) =~= pair);
        if bytes.len() == 1 {
            assert(squeezed(hex_string(bytes)) =~= packed_digits(bytes));
        } else {
            let front = bytes.drop_last();
            lemma_hex_string_squeezed(front);
            let gap = seq![' '];
            assert(gap.drop_last() =~= Seq::<char>::empty());
            assert(gap.filter(keep) =~= Seq::<char>::empty());
            Seq::filter_distributes_over_add(hex_string(front), gap, keep);
            Seq::filter_distributes_over_add(hex_string(front) + gap, pair, keep);
            assert(squeezed(hex_string(bytes)) =~= packed_digits(front) + pair);
            assert(packed_digits(front) + pair =~= packed_digits(bytes)) by {
                assert forall|k: int| 0 <= k < 2 * bytes.len() implies (packed_digits(front)
                    + pair)[k] == packed_digits(bytes)[k] by {
                    if k < 2 * front.len() {
                        assert(front[k / 2] == bytes[k / 2]);
                    } else {
                        assert(k / 2 == bytes.len() - 1);
                    }
                }
            }
        }
    }
}

/// Bytes written as text and read back are the same bytes: the text of any
/// bytes stands for bytes, and for those.
pub proof fn lemma_hex_round_trip(bytes: Seq<u8>)
    ensures
        is_hex_text(hex_string(bytes)),
        hex_bytes(hex_string(bytes)) == bytes,
{
    lemma_hex_string_squeezed(bytes);
    let c = packed_digits(bytes);
    assert forall|i: int| 0 <= i < c.len() / 2 implies (#[trigger] pair_value(
        c[2 * i],
        c[2 * i + 1],
    )) == Some(bytes[i]) by {
        lemma_digit_char_value(bytes[i] as int / 16);
        lemma_digit_char_value(bytes[i] as int % 16);
        assert((2 * i) / 2 == i && (2 * i) % 2 == 0);
        assert((2 * i + 1) / 2 == i && (2 * i + 1) % 2 == 1);
    }
    assert(hex_bytes(hex_string(bytes)) =~= bytes);
}

} // verus!
