//! The register codec: raw 16-bit words, read under a display format.

use vstd::prelude::*;
use crate::text::{
    binary_word, binary_word_text, decimal, decimal_text, hex_word, hex_word_text, push_char,
};

verus! {

/// How a group of registers is shown.
///
/// The one-word formats read the first word; `Long` and `Float` read two
/// words, `Double` reads four. In the direct formats the first word is the
/// most significant, in the inverse formats the last one is.
#[derive(PartialEq, Eq, Structural, Clone, Copy, Debug)]
pub enum DisplayFormat {
    Signed,
    Unsigned,
    Hex,
    Binary,
    Long,
    LongInverse,
    Float,
    FloatInverse,
    Double,
    DoubleInverse,
}

/// What decoding a group of registers gives.
///
/// Integer formats give finished text. The floating-point formats give the
/// IEEE-754 bit pattern that the words assemble to; writing that value as text
/// is left to the caller.
#[derive(Clone, Debug, PartialEq, Eq)]
pub enum Decoded {
    Text(String),
    Single(u32),
    Double(u64),
}

/// The model of a [`Decoded`]: text as a sequence of characters.
pub enum Reading {
    Text(Seq<char>),
    Single(u32),
    Double(u64),
}

impl View for Decoded {
    type V = Reading;

    open spec fn view(&self) -> Reading {
        match self {
            Decoded::Text(s) => Reading::Text(s@),
            Decoded::Single(bits) => Reading::Single(*bits),
            Decoded::Double(bits) => Reading::Double(*bits),
        }
    }
}

/// The text shown where a format needs more words than there are.
pub open spec fn unavailable() -> Seq<char> {
    seq!['-']
}

/// A word read as a 16-bit two's-complement integer.
pub open spec fn signed16(w: u16) -> int {
    if w < 0x8000 {
        w as int
    } else {
        w as int - 0x1_0000
    }
}

/// A 32-bit pattern read as a two's-complement integer.
pub open spec fn signed32(v: u32) -> int {
    if v < 0x8000_0000 {
        v as int
    } else {
        v as int - 0x1_0000_0000
    }
}

/// The 32-bit pattern with `high` as its upper and `low` as its lower half.
pub open spec fn join32(high: u16, low: u16) -> u32 {
    (high as int * 0x1_0000 + low as int) as u32
}

/// The 64-bit pattern made of four words, `w0` the most significant.
pub open spec fn join64(w0: u16, w1: u16, w2: u16, w3: u16) -> u64 {
    (w0 as int * 0x1_0000_0000_0000 + w1 as int * 0x1_0000_0000 + w2 as int * 0x1_0000
        + w3 as int) as u64
}

/// What `words` show under `format`: the unavailable mark if they are fewer
/// than the format reads, else the reading of the first words.
pub open spec fn decode(format: DisplayFormat, words: Seq<u16>) -> Reading {
    if words.len() < format.word_count() {
        Reading::Text(unavailable())
    } else {
        match format {
            DisplayFormat::Signed => Reading::Text(decimal(signed16(words[0]))),
            DisplayFormat::Unsigned => Reading::Text(decimal(words[0] as int)),
            DisplayFormat::Hex => Reading::Text(hex_word(words[0])),
            DisplayFormat::Binary => Reading::Text(binary_word(words[0])),
            DisplayFormat::Long => Reading::Text(decimal(signed32(join32(words[0], words[1])))),
            DisplayFormat::LongInverse => Reading::Text(
                decimal(signed32(join32(words[1], words[0]))),
            ),
            DisplayFormat::Float => Reading::Single(join32(words[0], words[1])),
            DisplayFormat::FloatInverse => Reading::Single(join32(words[1], words[0])),
            DisplayFormat::Double => Reading::Double(
                join64(words[0], words[1], words[2], words[3]),
            ),
            DisplayFormat::DoubleInverse => Reading::Double(
                join64(words[3], words[2], words[1], words[0]),
            ),
        }
    }
}

impl DisplayFormat {
    /// The number of words that the format reads.
    pub open spec fn word_count(self) -> nat {
        match self {
            DisplayFormat::Signed
            | DisplayFormat::Unsigned
            | DisplayFormat::Hex
            | DisplayFormat::Binary => 1,
            DisplayFormat::Long
            | DisplayFormat::LongInverse
            | DisplayFormat::Float
            | DisplayFormat::FloatInverse => 2,
            DisplayFormat::Double | DisplayFormat::DoubleInverse => 4,
        }
    }

    /// Whether the last word that the format reads is the most significant.
    pub open spec fn inverse(self) -> bool {
        self == DisplayFormat::LongInverse || self == DisplayFormat::FloatInverse || self
            == DisplayFormat::DoubleInverse
    }

    /// The format that reads the same words in the other order; a one-word
    /// format is its own counterpart.
    pub open spec fn counterpart(self) -> DisplayFormat {
        match self {
            DisplayFormat::Long => DisplayFormat::LongInverse,
            DisplayFormat::LongInverse => DisplayFormat::Long,
            DisplayFormat::Float => DisplayFormat::FloatInverse,
            DisplayFormat::FloatInverse => DisplayFormat::Float,
            DisplayFormat::Double => DisplayFormat::DoubleInverse,
            DisplayFormat::DoubleInverse => DisplayFormat::Double,
            other => other,
        }
    }

    /// The name of the format as shown to the user.
    pub open spec fn label_text(self) -> Seq<char> {
        match self {
            DisplayFormat::Signed => "Signed"@,
            DisplayFormat::Unsigned => "Unsigned"@,
            DisplayFormat::Hex => "Hex"@,
            DisplayFormat::Binary => "Binary"@,
            DisplayFormat::Long => "Long"@,
            DisplayFormat::LongInverse => "Long Inverse"@,
            DisplayFormat::Float => "Float"@,
            DisplayFormat::FloatInverse => "Float Inverse"@,
            DisplayFormat::Double => "Double"@,
            DisplayFormat::DoubleInverse => "Double Inverse"@,
        }
    }

    /// The name of the format as shown to the user.
    pub fn label(&self) -> (name: &'static str)
        ensures
            name@ == self.label_text(),
    {
        match self {
            DisplayFormat::Signed => "Signed",
            DisplayFormat::Unsigned => "Unsigned",
            DisplayFormat::Hex => "Hex",
            DisplayFormat::Binary => "Binary",
            DisplayFormat::Long => "Long",
            DisplayFormat::LongInverse => "Long Inverse",
            DisplayFormat::Float => "Float",
            DisplayFormat::FloatInverse => "Float Inverse",
            DisplayFormat::Double => "Double",
            DisplayFormat::DoubleInverse => "Double Inverse",
        }
    }

    /// The number of registers that one value of the format takes.
    pub fn register_count(&self) -> (count: usize)
        ensures
            count == self.word_count(),
    {
        match self {
            DisplayFormat::Signed
            | DisplayFormat::Unsigned
            | DisplayFormat::Hex
            | DisplayFormat::Binary => 1,
            DisplayFormat::Long
            | DisplayFormat::LongInverse
            | DisplayFormat::Float
            | DisplayFormat::FloatInverse => 2,
            DisplayFormat::Double | DisplayFormat::DoubleInverse => 4,
        }
    }

    /// Whether the format takes its last word as the most significant.
    pub fn is_inverse(&self) -> (yes: bool)
        ensures
            yes == self.inverse(),
    {
        match self {
            DisplayFormat::LongInverse
            | DisplayFormat::FloatInverse
            | DisplayFormat::DoubleInverse => true,
            _ => false,
        }
    }

    /// Every format, in the order in which a chooser lists them.
    pub const ALL: [DisplayFormat; 10] = [
        DisplayFormat::Signed,
        DisplayFormat::Unsigned,
        DisplayFormat::Hex,
        DisplayFormat::Binary,
        DisplayFormat::Long,
        DisplayFormat::LongInverse,
        DisplayFormat::Float,
        DisplayFormat::FloatInverse,
        DisplayFormat::Double,
        DisplayFormat::DoubleInverse,
    ];

    /// Decodes the first words of `raw` under this format.
    ///
    /// Never fails: where `raw` holds fewer words than the format reads, the
    /// result is the text `-`.
    pub fn format(&self, raw: &[u16]) -> (out: Decoded)
        ensures
            out@ == decode(*self, raw@),
    {
        if raw.len() < self.register_count() {
            return Decoded::Text(unavailable_text());
        }
        match self {
            DisplayFormat::Signed => Decoded::Text(decimal_text(word_as_signed(raw[0]) as i64)),
            DisplayFormat::Unsigned => Decoded::Text(decimal_text(raw[0] as i64)),
            DisplayFormat::Hex => Decoded::Text(hex_word_text(raw[0])),
            DisplayFormat::Binary => Decoded::Text(binary_word_text(raw[0])),
            DisplayFormat::Long => Decoded::Text(
                decimal_text(pattern_as_signed(assemble32(raw[0], raw[1])) as i64),
            ),
            DisplayFormat::LongInverse => Decoded::Text(
                decimal_text(pattern_as_signed(assemble32(raw[1], raw[0])) as i64),
            ),
            DisplayFormat::Float => Decoded::Single(assemble32(raw[0], raw[1])),
            DisplayFormat::FloatInverse => Decoded::Single(assemble32(raw[1], raw[0])),
            DisplayFormat::Double => Decoded::Double(assemble64(raw[0], raw[1], raw[2], raw[3])),
            DisplayFormat::DoubleInverse => Decoded::Double(
                assemble64(raw[3], raw[2], raw[1], raw[0]),
            ),
        }
    }
}

/// The text `-`.
pub fn unavailable_text() -> (text: String)
    ensures
        text@ == unavailable(),
{
    let mut text: String = String::new();
    push_char(&mut text, '-');
    text
}

/// Reads a word as a 16-bit two's-complement integer.
pub fn word_as_signed(w: u16) -> (v: i16)
    ensures
        v == signed16(w),
{
    let v: i16 = #[verifier::truncate]
    (w as i16);
    assert(v == (if w < 0x8000u16 {
        w as int
    } else {
        w as int - 0x1_0000
    })) by (bit_vector)
        requires
            v == w as i16,
    ;
    v
}

/// Reads a 32-bit pattern as a two's-complement integer.
pub fn pattern_as_signed(bits: u32) -> (v: i32)
    ensures
        v == signed32(bits),
{
    let v: i32 = #[verifier::truncate]
    (bits as i32);
    assert(v == (if bits < 0x8000_0000u32 {
        bits as int
    } else {
        bits as int - 0x1_0000_0000
    })) by (bit_vector)
        requires
            v == bits as i32,
    ;
    v
}

/// Puts two words together, `high` above `low`.
pub fn assemble32(high: u16, low: u16) -> (bits: u32)
    ensures
        bits == join32(high, low),
{
    let bits: u32 = ((high as u32) << 16) | (low as u32);
    assert(bits == high as int * 0x1_0000 + low as int) by (bit_vector)
        requires
            bits == ((high as u32) << 16) | (low as u32),
    ;
    bits
}

/// Puts four words together, `w0` the most significant.
pub fn assemble64(w0: u16, w1: u16, w2: u16, w3: u16) -> (bits: u64)
    ensures
        bits == join64(w0, w1, w2, w3),
{
    let bits: u64 = ((w0 as u64) << 48) | ((w1 as u64) << 32) | ((w2 as u64) << 16) | (w3 as u64);
    assert(bits == w0 as int * 0x1_0000_0000_0000 + w1 as int * 0x1_0000_0000 + w2 as int
        * 0x1_0000 + w3 as int) by (bit_vector)
        requires
            bits == ((w0 as u64) << 48) | ((w1 as u64) << 32) | ((w2 as u64) << 16) | (w3 as u64),
    ;
    bits
}

/// Too few words always decode to the unavailable mark, whatever they hold.
pub proof fn lemma_short_input_is_unavailable(format: DisplayFormat, words: Seq<u16>)
    requires
        words.len() < format.word_count(),
    ensures
        decode(format, words) == Reading::Text(unavailable()),
{
}

/// Decoding reads only the first words that the format takes, and is a
/// function of them: two inputs that agree on those words decode alike. In
/// particular the same words decoded twice give the same reading.
pub proof fn lemma_decode_reads_prefix(format: DisplayFormat, a: Seq<u16>, b: Seq<u16>)
    requires
        a.len() >= format.word_count(),
        b.len() >= format.word_count(),
        a.take(format.word_count() as int) == b.take(format.word_count() as int),
    ensures
        decode(format, a) == decode(format, b),
        decode(format, a) == decode(format, a.take(format.word_count() as int)),
{
    let k = format.word_count() as int;
    assert forall|i: int| 0 <= i < k implies a[i] == b[i] by {
        assert(a.take(k)[i] == b.take(k)[i]);
    }
    assert forall|i: int| 0 <= i < k implies a.take(k)[i] == a[i] by {}
}

/// Decoding is repeatable: the same words under the same format give the
/// same reading, however often they are decoded.
pub proof fn lemma_decode_is_repeatable(
    format: DisplayFormat,
    words: Seq<u16>,
    first: Decoded,
    second: Decoded,
)
    requires
        first@ == decode(format, words),
        second@ == decode(format, words),
    ensures
        first@ == second@,
{
}

/// An inverse format reads the words of its direct counterpart backwards.
pub proof fn lemma_counterpart_reads_backwards(format: DisplayFormat, words: Seq<u16>)
    requires
        words.len() == format.word_count(),
    ensures
        decode(format.counterpart(), words) == decode(format, words.reverse()),
{
}

} // verus!
