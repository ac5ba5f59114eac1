//! The settings of a serial line.

use vstd::prelude::*;

verus! {

/// The number of data bits in a character.
#[derive(PartialEq, Eq, Structural, Clone, Copy, Debug)]
pub enum DataBits {
    Five,
    Six,
    Seven,
    Eight,
}

/// The parity bit of a character.
#[derive(PartialEq, Eq, Structural, Clone, Copy, Debug)]
pub enum Parity {
    NoParity,
    Odd,
    Even,
}

/// The number of stop bits behind a character.
#[derive(PartialEq, Eq, Structural, Clone, Copy, Debug)]
pub enum StopBits {
    One,
    Two,
}

impl DataBits {
    /// The number of bits.
    pub open spec fn count(self) -> u8 {
        match self {
            DataBits::Five => 5,
            DataBits::Six => 6,
            DataBits::Seven => 7,
            DataBits::Eight => 8,
        }
    }

    /// The number of bits: 5 to 8.
    pub fn bits(&self) -> (n: u8)
        ensures
            n == self.count(),
    {
        match self {
            DataBits::Five => 5,
            DataBits::Six => 6,
            DataBits::Seven => 7,
            DataBits::Eight => 8,
        }
    }
}

impl StopBits {
    /// The number of bits.
    pub open spec fn count(self) -> u8 {
        match self {
            StopBits::One => 1,
            StopBits::Two => 2,
        }
    }

    /// The number of bits: 1 or 2.
    pub fn bits(&self) -> (n: u8)
        ensures
            n == self.count(),
    {
        match self {
            StopBits::One => 1,
            StopBits::Two => 2,
        }
    }
}

/// The time that one read on a serial line may take, in milliseconds.
pub const READ_TIMEOUT_MS: u64 = 100;

/// What it takes to open a serial line.
#[derive(Clone, Debug, PartialEq, Eq)]
pub struct SerialSettings {
    pub port_name: String,
    pub baud_rate: u32,
    pub data_bits: DataBits,
    pub parity: Parity,
    pub stop_bits: StopBits,
    /// The longest that one read may take, in milliseconds.
    pub timeout_ms: u64,
}

/// The model of [`SerialSettings`].
pub struct SettingsView {
    pub port_name: Seq<char>,
    pub baud_rate: u32,
    pub data_bits: DataBits,
    pub parity: Parity,
    pub stop_bits: StopBits,
    pub timeout_ms: u64,
}

impl View for SerialSettings {
    type V = SettingsView;

    open spec fn view(&self) -> SettingsView {
        SettingsView {
            port_name: self.port_name@,
            baud_rate: self.baud_rate,
            data_bits: self.data_bits,
            parity: self.parity,
            stop_bits: self.stop_bits,
            timeout_ms: self.timeout_ms,
        }
    }
}

/// The texts of a list of strings.
pub open spec fn texts(list: Seq<String>) -> Seq<Seq<char>> {
    Seq::new(list.len(), |i: int| list[i]@)
}

/// The text of a string that may be missing.
pub open spec fn text_of(s: Option<String>) -> Option<Seq<char>> {
    match s {
        Some(s) => Some(s@),
        None => None,
    }
}

} // verus!
