//! One exchange with a device, step by step.
//!
//! An exchange resolves the endpoint, opens a connection, sends one read
//! and ends. It does none of this itself: it asks for each step and takes
//! what came of it. Whatever goes wrong on the way, the exchange ends with the
//! one failure that stands for all.

use vstd::prelude::*;
use crate::transport::{
    block_from_reply, ModbusFunction, PollRequest, RegisterBlock, Reply, RequestView,
    TransportFailure,
};

verus! {

/// How far an exchange has come: what it waits for.
#[derive(PartialEq, Eq, Structural, Clone, Copy, Debug)]
pub enum Stage {
    /// Not yet started.
    Created,
    /// The endpoint is being resolved.
    Resolving,
    /// The connection is being opened.
    Connecting,
    /// The read is under way.
    Reading,
    /// The exchange has ended.
    Done,
}

/// The read that an exchange sends.
#[derive(PartialEq, Eq, Structural, Clone, Copy, Debug)]
pub struct ReadCall {
    pub unit_id: u8,
    pub function: ModbusFunction,
    pub address: u16,
    pub quantity: u16,
}

/// What came of the step that an exchange asked for.
#[derive(Debug)]
pub enum ExchangeEvent {
    /// The exchange has been taken up.
    Started,
    /// The endpoint was looked at; `valid` tells whether it is an address.
    Resolved { valid: bool },
    /// The connection was tried; `open` tells whether it stands.
    Connected { open: bool },
    /// The read ended, with a reply or without one.
    Answered(Option<Reply>),
}

/// What an exchange asks for next.
#[derive(Debug, PartialEq, Eq)]
pub enum ExchangeAction {
    /// Read this text as an address. Nothing is to be opened yet.
    Resolve(String),
    /// Open a connection to the address.
    Connect,
    /// Send this read over the connection.
    Read(ReadCall),
    /// Drop the connection; this is the result.
    Finish(Result<RegisterBlock, TransportFailure>),
}

/// The model of an [`ExchangeAction`].
pub enum Move {
    Resolve { endpoint: Seq<char> },
    Connect,
    Read { call: ReadCall },
    Finish { block: Option<Seq<u16>> },
}

impl View for ExchangeAction {
    type V = Move;

    open spec fn view(&self) -> Move {
        match self {
            ExchangeAction::Resolve(endpoint) => Move::Resolve { endpoint: endpoint@ },
            ExchangeAction::Connect => Move::Connect,
            ExchangeAction::Read(call) => Move::Read { call: *call },
            ExchangeAction::Finish(Ok(block)) => Move::Finish { block: Some(block@) },
            ExchangeAction::Finish(Err(_)) => Move::Finish { block: None },
        }
    }
}

/// The model of an exchange.
pub struct ExchangeState {
    pub request: RequestView,
    pub stage: Stage,
}

impl RequestView {
    /// The read that the request asks for.
    pub open spec fn call(self) -> ReadCall {
        ReadCall {
            unit_id: self.unit_id,
            function: self.function,
            address: self.address,
            quantity: self.quantity,
        }
    }

    /// The block that a reply to the request gives, or `None` where the
    /// reply does not answer the request.
    pub open spec fn block_of(self, reply: Reply) -> Option<Seq<u16>> {
        if reply.answers(self.function, self.quantity) {
            Some(reply.words())
        } else {
            None
        }
    }
}

impl ExchangeState {
    /// The exchange at another stage.
    pub open spec fn at(self, stage: Stage) -> ExchangeState {
        ExchangeState { stage, ..self }
    }

    /// The exchange, ended without a block.
    pub open spec fn failed(self) -> (ExchangeState, Move) {
        (self.at(Stage::Done), Move::Finish { block: None })
    }

    /// The state after an event, and the step that answers it.
    ///
    /// The endpoint is resolved first, and an endpoint that is no address
    /// ends the exchange before anything is opened. Then the connection is
    /// opened, then the one read is sent, and its reply becomes the block. A
    /// connection that does not open, a read without a reply, a reply that
    /// does not answer the request and an event out of turn all end the
    /// exchange with the same failure.
    pub open spec fn step(self, event: ExchangeEvent) -> (ExchangeState, Move) {
        match (self.stage, event) {
            (Stage::Created, ExchangeEvent::Started) => (
                self.at(Stage::Resolving),
                Move::Resolve { endpoint: self.request.endpoint() },
            ),
            (Stage::Resolving, ExchangeEvent::Resolved { valid }) => if valid {
                (self.at(Stage::Connecting), Move::Connect)
            } else {
                self.failed()
            },
            (Stage::Connecting, ExchangeEvent::Connected { open }) => if open {
                (self.at(Stage::Reading), Move::Read { call: self.request.call() })
            } else {
                self.failed()
            },
            (Stage::Reading, ExchangeEvent::Answered(Some(reply))) => (
                self.at(Stage::Done),
                Move::Finish { block: self.request.block_of(reply) },
            ),
            _ => self.failed(),
        }
    }

    /// The state after a sequence of events, and the steps that answered
    /// them, in order.
    pub open spec fn run(self, events: Seq<ExchangeEvent>) -> (ExchangeState, Seq<Move>)
        decreases events.len(),
    {
        if events.len() == 0 {
            (self, Seq::empty())
        } else {
            let (mid, moves) = self.run(events.drop_last());
            let (end, next) = mid.step(events.last());
            (end, moves.push(next))
        }
    }
}

/// The decisions of one exchange.
pub struct Exchange {
    request: PollRequest,
    stage: Stage,
}

impl View for Exchange {
    type V = ExchangeState;

    closed spec fn view(&self) -> ExchangeState {
        ExchangeState { request: self.request@, stage: self.stage }
    }
}

impl Exchange {
    /// An exchange for `request`, not yet started.
    pub fn new(request: PollRequest) -> (exchange: Exchange)
        ensures
            exchange@ == (ExchangeState { request: request@, stage: Stage::Created }),
    {
        Exchange { request, stage: Stage::Created }
    }

    /// What the exchange waits for.
    pub fn stage(&self) -> (stage: Stage)
        ensures
            stage == self@.stage,
    {
        self.stage
    }

    /// Takes what came of the last step and answers with the next one.
    pub fn step(&mut self, event: ExchangeEvent) -> (action: ExchangeAction)
        ensures
            final(self)@ == old(self)@.step(event).0,
            action@ == old(self)@.step(event).1,
    {
        match (self.stage, event) {
            (Stage::Created, ExchangeEvent::Started) => {
                self.stage = Stage::Resolving;
                ExchangeAction::Resolve(self.request.endpoint())
            },
            (Stage::Resolving, ExchangeEvent::Resolved { valid: true }) => {
                self.stage = Stage::Connecting;
                ExchangeAction::Connect
            },
            (Stage::Connecting, ExchangeEvent::Connected { open: true }) => {
                self.stage = Stage::Reading;
                ExchangeAction::Read(
                    ReadCall {
                        unit_id: self.request.unit_id,
                        function: self.request.function,
                        address: self.request.address,
                        quantity: self.request.quantity,
                    },
                )
            },
            (Stage::Reading, ExchangeEvent::Answered(Some(reply))) => {
                self.stage = Stage::Done;
                ExchangeAction::Finish(
                    block_from_reply(self.request.function, self.request.quantity, reply),
                )
            },
            _ => {
                self.stage = Stage::Done;
                ExchangeAction::Finish(Err(TransportFailure))
            },
        }
    }
}

/// The number of steps in a sequence that touch the network: connections
/// and reads.
pub open spec fn network_steps(moves: Seq<Move>) -> nat
    decreases moves.len(),
{
    if moves.len() == 0 {
        0
    } else {
        network_steps(moves.drop_last()) + (if moves.last() is Connect || moves.last() is Read {
            1nat
        } else {
            0nat
        })
    }
}

/// The network steps that an exchange may still ask for.
pub open spec fn steps_ahead(stage: Stage) -> nat {
    match stage {
        Stage::Created => 2,
        Stage::Resolving => 2,
        Stage::Connecting => 1,
        Stage::Reading => 0,
        Stage::Done => 0,
    }
}

/// An exchange is one exchange: whatever events come, it opens at most one
/// connection and sends at most one read.
pub proof fn lemma_one_exchange(exchange: ExchangeState, events: Seq<ExchangeEvent>)
    ensures
        network_steps(exchange.run(events).1) + steps_ahead(exchange.run(events).0.stage)
            <= steps_ahead(exchange.stage),
    decreases events.len(),
{
    if events.len() > 0 {
        lemma_one_exchange(exchange, events.drop_last());
        assert(exchange.run(events).1.drop_last() =~= exchange.run(events.drop_last()).1);
    }
}

/// An endpoint that is no address fails fast: the exchange ends at once,
/// without a block, and whatever events follow, it never asks for a
/// connection or a read.
pub proof fn lemma_bad_endpoint_fails_fast(request: RequestView, later: Seq<ExchangeEvent>)
    ensures
        ({
            let fresh = ExchangeState { request, stage: Stage::Created };
            let resolving = fresh.step(ExchangeEvent::Started).0;
            let (ended, answer) = resolving.step(ExchangeEvent::Resolved { valid: false });
            &&& fresh.step(ExchangeEvent::Started).1 == Move::Resolve { endpoint: request.endpoint() }
            &&& answer == Move::Finish { block: None }
            &&& ended.stage == Stage::Done
            &&& network_steps(ended.run(later).1) == 0
        }),
{
    let fresh = ExchangeState { request, stage: Stage::Created };
    let resolving = fresh.step(ExchangeEvent::Started).0;
    let ended = resolving.step(ExchangeEvent::Resolved { valid: false }).0;
    lemma_one_exchange(ended, later);
}

/// An exchange that has ended stays ended, and gives no block any more.
pub proof fn lemma_ended_is_final(exchange: ExchangeState, event: ExchangeEvent)
    requires
        exchange.stage == Stage::Done,
    ensures
        exchange.step(event) == (exchange, Move::Finish { block: None }),
{
}

} // verus!
