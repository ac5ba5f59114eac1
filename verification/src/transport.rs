//! The register transport: what is asked of a device, and what its reply
//! becomes.
//!
//! A request is one exchange over a connection of its own. This module holds
//! the values that go out and come back and the mapping from a reply to a
//! block of words; the connection itself is the caller's.

use vstd::prelude::*;
use vstd::string::StringExecFns;
use crate::text::{decimal, decimal_text, push_char};

verus! {

/// The least and greatest unit id that a device can have.
pub const UNIT_ID_MIN: u8 = 1;

pub const UNIT_ID_MAX: u8 = 247;

/// The least and greatest number of items that one request can ask for.
pub const QUANTITY_MIN: u16 = 1;

pub const QUANTITY_MAX: u16 = 125;

/// The link that a device is reached over.
#[derive(PartialEq, Eq, Structural, Clone, Copy, Debug)]
pub enum ModbusMode {
    Tcp,
    Rtu,
}

/// The read functions of the protocol.
#[derive(PartialEq, Eq, Structural, Clone, Copy, Debug)]
pub enum ModbusFunction {
    ReadCoils,
    ReadDiscrete,
    ReadHolding,
    ReadInput,
}

impl ModbusFunction {
    /// The function code on the wire.
    pub open spec fn wire_code(self) -> u8 {
        match self {
            ModbusFunction::ReadCoils => 1,
            ModbusFunction::ReadDiscrete => 2,
            ModbusFunction::ReadHolding => 3,
            ModbusFunction::ReadInput => 4,
        }
    }

    /// Whether the device answers the function with single bits rather than
    /// with words.
    pub open spec fn bitwise(self) -> bool {
        self == ModbusFunction::ReadCoils || self == ModbusFunction::ReadDiscrete
    }

    /// The function code on the wire: 1 to 4.
    pub fn code(&self) -> (code: u8)
        ensures
            code == self.wire_code(),
    {
        match self {
            ModbusFunction::ReadCoils => 1,
            ModbusFunction::ReadDiscrete => 2,
            ModbusFunction::ReadHolding => 3,
            ModbusFunction::ReadInput => 4,
        }
    }

    /// The function with the given code, if it is a read function.
    pub fn from_code(code: u8) -> (function: Option<ModbusFunction>)
        ensures
            match function {
                Some(f) => f.wire_code() == code,
                None => !(1 <= code <= 4),
            },
    {
        match code {
            1 => Some(ModbusFunction::ReadCoils),
            2 => Some(ModbusFunction::ReadDiscrete),
            3 => Some(ModbusFunction::ReadHolding),
            4 => Some(ModbusFunction::ReadInput),
            _ => None,
        }
    }

    /// Whether the device answers the function with single bits.
    pub fn reads_bits(&self) -> (yes: bool)
        ensures
            yes == self.bitwise(),
    {
        match self {
            ModbusFunction::ReadCoils | ModbusFunction::ReadDiscrete => true,
            ModbusFunction::ReadHolding | ModbusFunction::ReadInput => false,
        }
    }
}

/// One request: where to send it, whom to ask, and for what.
#[derive(Clone, Debug)]
pub struct PollRequest {
    pub host: String,
    pub port: u16,
    pub unit_id: u8,
    pub function: ModbusFunction,
    pub address: u16,
    pub quantity: u16,
}

/// The model of a [`PollRequest`].
pub struct RequestView {
    pub host: Seq<char>,
    pub port: u16,
    pub unit_id: u8,
    pub function: ModbusFunction,
    pub address: u16,
    pub quantity: u16,
}

impl View for PollRequest {
    type V = RequestView;

    open spec fn view(&self) -> RequestView {
        RequestView {
            host: self.host@,
            port: self.port,
            unit_id: self.unit_id,
            function: self.function,
            address: self.address,
            quantity: self.quantity,
        }
    }
}

impl RequestView {
    /// The endpoint as text: the host, a colon, the port in decimal.
    pub open spec fn endpoint(self) -> Seq<char> {
        self.host + seq![':'] + decimal(self.port as int)
    }

    /// The unit id and the quantity are within what the protocol allows.
    pub open spec fn in_range(self) -> bool {
        &&& UNIT_ID_MIN <= self.unit_id <= UNIT_ID_MAX
        &&& QUANTITY_MIN <= self.quantity <= QUANTITY_MAX
    }
}

impl PollRequest {
    /// The endpoint as text, `host:port`.
    pub fn endpoint(&self) -> (text: String)
        ensures
            text@ == self@.endpoint(),
    {
        let mut text: String = self.host.clone();
        push_char(&mut text, ':');
        let port: String = decimal_text(self.port as i64);
        text.append(port.as_str());
        text
    }

    /// Whether the unit id is one of 1 to 247 and the quantity one of 1 to
    /// 125. The transport does not test this: whoever builds a request does.
    pub fn is_in_range(&self) -> (ok: bool)
        ensures
            ok == self@.in_range(),
    {
        UNIT_ID_MIN <= self.unit_id && self.unit_id <= UNIT_ID_MAX && QUANTITY_MIN
            <= self.quantity && self.quantity <= QUANTITY_MAX
    }
}

/// What a device sent back, as the protocol layer hands it over.
#[derive(Clone, Debug, PartialEq, Eq)]
pub enum Reply {
    Bits(Vec<bool>),
    Words(Vec<u16>),
}

/// The result of one request: the words of one reply, in the order of the
/// reply.
#[derive(Clone, Debug, PartialEq, Eq)]
pub struct RegisterBlock {
    pub words: Vec<u16>,
}

impl View for RegisterBlock {
    type V = Seq<u16>;

    open spec fn view(&self) -> Seq<u16> {
        self.words@
    }
}

/// A request that gave no block. Why it failed is not told apart.
#[derive(PartialEq, Eq, Structural, Clone, Copy, Debug)]
pub struct TransportFailure;

/// A bit as a word: 1 for a set bit, 0 for a clear one.
pub open spec fn bit_word(bit: bool) -> u16 {
    if bit {
        1
    } else {
        0
    }
}

/// Bits as words, one word for each bit, in order.
pub open spec fn widened(bits: Seq<bool>) -> Seq<u16> {
    Seq::new(bits.len(), |i: int| bit_word(bits[i]))
}

impl Reply {
    /// The number of items in the reply.
    pub open spec fn count(self) -> nat {
        match self {
            Reply::Bits(bits) => bits@.len(),
            Reply::Words(words) => words@.len(),
        }
    }

    /// The reply as words: bits widened, words as they are.
    pub open spec fn words(self) -> Seq<u16> {
        match self {
            Reply::Bits(bits) => widened(bits@),
            Reply::Words(words) => words@,
        }
    }

    /// Whether the reply answers a request for `quantity` items by
    /// `function`: it is of the kind that the function reads, and holds as
    /// many items as were asked for.
    pub open spec fn answers(self, function: ModbusFunction, quantity: u16) -> bool {
        &&& (self is Bits) == function.bitwise()
        &&& self.count() == quantity
    }
}

/// Widens bits to words: 1 for a set bit, 0 for a clear one.
pub fn widen_bits(bits: &[bool]) -> (words: Vec<u16>)
    ensures
        words@ == widened(bits@),
{
    let mut words: Vec<u16> = Vec::new();
    let mut i: usize = 0;
    while i < bits.len()
        invariant
            i <= bits.len(),
            words.len() == i,
            forall|j: int| 0 <= j < i ==> words@[j] == bit_word(bits@[j]),
        decreases bits.len() - i,
    {
        let word: u16 = if bits[i] {
            1
        } else {
            0
        };
        words.push(word);
        i = i + 1;
    }
    assert(words@ =~= widened(bits@));
    words
}

/// Turns the reply to a request for `quantity` items by `function` into a
/// block.
///
/// A reply of bits is widened, a reply of words is taken as it is, the order
/// kept. A reply of the wrong kind for the function, or with more or fewer
/// items than were asked for, is a failure.
pub fn block_from_reply(function: ModbusFunction, quantity: u16, reply: Reply) -> (result: Result<
    RegisterBlock,
    TransportFailure,
>)
    ensures
        match result {
            Ok(block) => reply.answers(function, quantity) && block@ == reply.words(),
            Err(_) => !reply.answers(function, quantity),
        },
{
    match reply {
        Reply::Bits(bits) => {
            if function.reads_bits() && bits.len() == quantity as usize {
                Ok(RegisterBlock { words: widen_bits(bits.as_slice()) })
            } else {
                Err(TransportFailure)
            }
        },
        Reply::Words(words) => {
            if !function.reads_bits() && words.len() == quantity as usize {
                Ok(RegisterBlock { words })
            } else {
                Err(TransportFailure)
            }
        },
    }
}

/// A function is found again from its code.
pub proof fn lemma_code_round_trip(function: ModbusFunction)
    ensures
        1 <= function.wire_code() <= 4,
        forall|other: ModbusFunction| other.wire_code() == function.wire_code() ==> other == function,
{
}

} // verus!
