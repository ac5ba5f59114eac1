//! Polling: the decisions of the background loop that asks a device again
//! and again, and of the session that starts and stops it.
//!
//! Neither does any waiting or sending. The loop that runs a worker performs
//! each action that the worker asks for and hands back what came of it; the
//! worker decides what follows.

use vstd::prelude::*;
use crate::transport::{PollRequest, RegisterBlock, RequestView, TransportFailure};

verus! {

/// The pause between two cycles of a continuous poll, in milliseconds.
pub const POLL_INTERVAL_MS: u64 = 1000;

/// Where a block comes from: a single read, or the session with the given
/// number.
#[derive(PartialEq, Eq, Structural, Clone, Copy, Debug)]
pub enum Origin {
    Once,
    Session(u64),
}

/// Whether a worker polls until it is stopped or reads once.
#[derive(PartialEq, Eq, Structural, Clone, Copy, Debug)]
pub enum Cadence {
    Continuous,
    Once,
}

/// Where a worker stands in its loop: what it waits for.
#[derive(PartialEq, Eq, Structural, Clone, Copy, Debug)]
pub enum Phase {
    /// Not yet started.
    Created,
    /// At the top of the loop, waiting for the state of the stop signal.
    Ready,
    /// A request is under way.
    Exchanging,
    /// A block is being handed to the sink.
    Delivering,
    /// A failure is being reported.
    Reporting,
    /// Asleep between two cycles.
    Resting,
    /// The loop has ended.
    Done,
}

/// A block on its way to the consumer, with its origin.
#[derive(Clone, Debug, PartialEq, Eq)]
pub struct Delivery {
    pub origin: Origin,
    pub block: RegisterBlock,
}

/// What came of the action that a worker asked for.
#[derive(Debug)]
pub enum WorkerEvent {
    /// The loop has been spawned.
    Started,
    /// The stop signal was read.
    Checked { cancelled: bool },
    /// The request ended.
    Replied(Result<RegisterBlock, TransportFailure>),
    /// The block was handed over; `accepted` is false if the sink is gone.
    Delivered { accepted: bool },
    /// The failure was reported.
    Reported,
    /// The pause is over.
    Rested,
}

/// What a worker asks its loop to do next.
#[derive(Debug, PartialEq, Eq)]
pub enum WorkerAction {
    /// Read the stop signal.
    Check,
    /// Send the request of the worker and wait for the reply.
    Exchange,
    /// Hand the block to the sink.
    Deliver(Delivery),
    /// Report the failure.
    Report(TransportFailure),
    /// Sleep for so many milliseconds.
    Rest(u64),
    /// Leave the loop.
    Exit,
}

/// The model of a [`WorkerEvent`].
pub enum Outcome {
    Started,
    Checked { cancelled: bool },
    Replied { block: Option<Seq<u16>> },
    Delivered { accepted: bool },
    Reported,
    Rested,
}

/// The model of a [`WorkerAction`].
pub enum Command {
    Check,
    Exchange,
    Deliver { origin: Origin, words: Seq<u16> },
    Report,
    Rest { millis: u64 },
    Exit,
}

impl View for WorkerEvent {
    type V = Outcome;

    open spec fn view(&self) -> Outcome {
        match self {
            WorkerEvent::Started => Outcome::Started,
            WorkerEvent::Checked { cancelled } => Outcome::Checked { cancelled: *cancelled },
            WorkerEvent::Replied(Ok(block)) => Outcome::Replied { block: Some(block@) },
            WorkerEvent::Replied(Err(_)) => Outcome::Replied { block: None },
            WorkerEvent::Delivered { accepted } => Outcome::Delivered { accepted: *accepted },
            WorkerEvent::Reported => Outcome::Reported,
            WorkerEvent::Rested => Outcome::Rested,
        }
    }
}

impl View for WorkerAction {
    type V = Command;

    open spec fn view(&self) -> Command {
        match self {
            WorkerAction::Check => Command::Check,
            WorkerAction::Exchange => Command::Exchange,
            WorkerAction::Deliver(d) => Command::Deliver { origin: d.origin, words: d.block@ },
            WorkerAction::Report(_) => Command::Report,
            WorkerAction::Rest(millis) => Command::Rest { millis: *millis },
            WorkerAction::Exit => Command::Exit,
        }
    }
}

/// The model of a worker.
pub struct WorkerState {
    pub cadence: Cadence,
    pub origin: Origin,
    pub request: RequestView,
    pub phase: Phase,
}

impl WorkerState {
    /// The worker in another phase.
    pub open spec fn at(self, phase: Phase) -> WorkerState {
        WorkerState { phase, ..self }
    }

    /// The state after an event, and the action that answers it.
    ///
    /// A continuous worker goes round: check, exchange, deliver or report,
    /// rest. It leaves the loop when the check finds the stop signal set or
    /// the sink is gone. A single read exchanges, delivers or reports, and
    /// leaves. An event that the phase does not wait for ends the loop.
    pub open spec fn step(self, event: Outcome) -> (WorkerState, Command) {
        match (self.phase, event) {
            (Phase::Created, Outcome::Started) => if self.cadence == Cadence::Continuous {
                (self.at(Phase::Ready), Command::Check)
            } else {
                (self.at(Phase::Exchanging), Command::Exchange)
            },
            (Phase::Ready, Outcome::Checked { cancelled }) => if cancelled {
                (self.at(Phase::Done), Command::Exit)
            } else {
                (self.at(Phase::Exchanging), Command::Exchange)
            },
            (Phase::Exchanging, Outcome::Replied { block: Some(words) }) => (
                self.at(Phase::Delivering),
                Command::Deliver { origin: self.origin, words },
            ),
            (Phase::Exchanging, Outcome::Replied { block: None }) => (
                self.at(Phase::Reporting),
                Command::Report,
            ),
            (Phase::Delivering, Outcome::Delivered { accepted }) => if self.cadence
                == Cadence::Continuous && accepted {
                (self.at(Phase::Resting), Command::Rest { millis: POLL_INTERVAL_MS })
            } else {
                (self.at(Phase::Done), Command::Exit)
            },
            (Phase::Reporting, Outcome::Reported) => if self.cadence == Cadence::Continuous {
                (self.at(Phase::Resting), Command::Rest { millis: POLL_INTERVAL_MS })
            } else {
                (self.at(Phase::Done), Command::Exit)
            },
            (Phase::Resting, Outcome::Rested) => (self.at(Phase::Ready), Command::Check),
            _ => (self.at(Phase::Done), Command::Exit),
        }
    }

    /// The state after a sequence of events, and the actions that answered
    /// them, in order.
    pub open spec fn run(self, events: Seq<Outcome>) -> (WorkerState, Seq<Command>)
        decreases events.len(),
    {
        if events.len() == 0 {
            (self, Seq::empty())
        } else {
            let (mid, commands) = self.run(events.drop_last());
            let (end, command) = mid.step(events.last());
            (end, commands.push(command))
        }
    }
}

/// The decisions of one background poll loop.
pub struct PollWorker {
    cadence: Cadence,
    origin: Origin,
    request: PollRequest,
    phase: Phase,
}

impl View for PollWorker {
    type V = WorkerState;

    closed spec fn view(&self) -> WorkerState {
        WorkerState {
            cadence: self.cadence,
            origin: self.origin,
            request: self.request@,
            phase: self.phase,
        }
    }
}

impl PollWorker {
    /// A worker that polls with `request` for the session numbered `epoch`
    /// until it is stopped.
    pub fn continuous(request: PollRequest, epoch: u64) -> (worker: PollWorker)
        ensures
            worker@ == (WorkerState {
                cadence: Cadence::Continuous,
                origin: Origin::Session(epoch),
                request: request@,
                phase: Phase::Created,
            }),
    {
        PollWorker {
            cadence: Cadence::Continuous,
            origin: Origin::Session(epoch),
            request,
            phase: Phase::Created,
        }
    }

    /// A worker that sends `request` once.
    pub fn once(request: PollRequest) -> (worker: PollWorker)
        ensures
            worker@ == (WorkerState {
                cadence: Cadence::Once,
                origin: Origin::Once,
                request: request@,
                phase: Phase::Created,
            }),
    {
        PollWorker { cadence: Cadence::Once, origin: Origin::Once, request, phase: Phase::Created }
    }

    /// The request that the worker sends in every cycle.
    pub fn request(&self) -> (request: &PollRequest)
        ensures
            request@ == self@.request,
    {
        &self.request
    }

    /// What the worker waits for.
    pub fn phase(&self) -> (phase: Phase)
        ensures
            phase == self@.phase,
    {
        self.phase
    }

    /// Takes what came of the last action and answers with the next one.
    ///
    /// Only the phase changes: the request, the cadence and the origin of a
    /// worker are fixed when it is made.
    pub fn step(&mut self, event: WorkerEvent) -> (action: WorkerAction)
        ensures
            final(self)@ == old(self)@.step(event@).0,
            action@ == old(self)@.step(event@).1,
    {
        let continuous: bool = match self.cadence {
            Cadence::Continuous => true,
            Cadence::Once => false,
        };
        match (self.phase, event) {
            (Phase::Created, WorkerEvent::Started) => {
                if continuous {
                    self.phase = Phase::Ready;
                    WorkerAction::Check
                } else {
                    self.phase = Phase::Exchanging;
                    WorkerAction::Exchange
                }
            },
            (Phase::Ready, WorkerEvent::Checked { cancelled }) => {
                if cancelled {
                    self.phase = Phase::Done;
                    WorkerAction::Exit
                } else {
                    self.phase = Phase::Exchanging;
                    WorkerAction::Exchange
                }
            },
            (Phase::Exchanging, WorkerEvent::Replied(Ok(block))) => {
                self.phase = Phase::Delivering;
                WorkerAction::Deliver(Delivery { origin: self.origin, block })
            },
            (Phase::Exchanging, WorkerEvent::Replied(Err(failure))) => {
                self.phase = Phase::Reporting;
                WorkerAction::Report(failure)
            },
            (Phase::Delivering, WorkerEvent::Delivered { accepted }) => {
                if continuous && accepted {
                    self.phase = Phase::Resting;
                    WorkerAction::Rest(POLL_INTERVAL_MS)
                } else {
                    self.phase = Phase::Done;
                    WorkerAction::Exit
                }
            },
            (Phase::Reporting, WorkerEvent::Reported) => {
                if continuous {
                    self.phase = Phase::Resting;
                    WorkerAction::Rest(POLL_INTERVAL_MS)
                } else {
                    self.phase = Phase::Done;
                    WorkerAction::Exit
                }
            },
            (Phase::Resting, WorkerEvent::Rested) => {
                self.phase = Phase::Ready;
                WorkerAction::Check
            },
            _ => {
                self.phase = Phase::Done;
                WorkerAction::Exit
            },
        }
    }
}

/// Whether a session has a background loop.
#[derive(PartialEq, Eq, Structural, Clone, Copy, Debug)]
pub enum SessionState {
    Idle,
    Running,
}

/// What a call of `start` asks of the caller.
#[derive(PartialEq, Eq, Structural, Clone, Copy, Debug)]
pub enum Launch {
    /// Spawn a loop for the session with this number, on a sink of its own.
    Spawn { epoch: u64 },
    /// Nothing: the session with this number is running.
    AlreadyRunning { epoch: u64 },
}

/// The model of a session.
pub struct SessionView {
    pub state: SessionState,
    /// The number of the session that was started last; 0 before the first.
    pub epoch: nat,
}

impl SessionView {
    /// The session before its first start.
    pub open spec fn fresh() -> SessionView {
        SessionView { state: SessionState::Idle, epoch: 0 }
    }

    /// The session after `start`: a running session stays as it is, an idle
    /// one runs under the next number.
    pub open spec fn started(self) -> SessionView {
        if self.state == SessionState::Running {
            self
        } else {
            SessionView { state: SessionState::Running, epoch: self.epoch + 1 }
        }
    }

    /// The session after `stop`.
    pub open spec fn stopped(self) -> SessionView {
        SessionView { state: SessionState::Idle, ..self }
    }

    /// The session after the loop numbered `epoch` ended by itself.
    pub open spec fn ended(self, epoch: u64) -> SessionView {
        if epoch == self.epoch {
            SessionView { state: SessionState::Idle, ..self }
        } else {
            self
        }
    }

    /// Whether a block of that origin is taken: one of a single read always,
    /// one of a session only if no session was started after it.
    pub open spec fn accepts(self, origin: Origin) -> bool {
        match origin {
            Origin::Once => true,
            Origin::Session(epoch) => epoch == self.epoch,
        }
    }
}

/// The foreground side of a poll: started and stopped by the user.
///
/// A session owns no loop. `start` tells whether one is to be spawned and
/// under which number; `stop` tells whether the stop signal is to be raised.
pub struct PollSession {
    state: SessionState,
    epoch: u64,
}

impl View for PollSession {
    type V = SessionView;

    closed spec fn view(&self) -> SessionView {
        SessionView { state: self.state, epoch: self.epoch as nat }
    }
}

impl PollSession {
    /// An idle session that has never run.
    pub fn new() -> (session: PollSession)
        ensures
            session@ == SessionView::fresh(),
    {
        PollSession { state: SessionState::Idle, epoch: 0 }
    }

    /// Whether the session is idle or running.
    pub fn state(&self) -> (state: SessionState)
        ensures
            state == self@.state,
    {
        self.state
    }

    /// The number of the session that was started last.
    pub fn epoch(&self) -> (epoch: u64)
        ensures
            epoch == self@.epoch,
    {
        self.epoch
    }

    /// Starts the session. A running session is left as it is; an idle one
    /// runs from now on, under the next number.
    pub fn start(&mut self) -> (launch: Launch)
        requires
            old(self)@.epoch < u64::MAX,
        ensures
            final(self)@ == old(self)@.started(),
            launch == (if old(self)@.state == SessionState::Running {
                Launch::AlreadyRunning { epoch: old(self)@.epoch as u64 }
            } else {
                Launch::Spawn { epoch: (old(self)@.epoch + 1) as u64 }
            }),
    {
        match self.state {
            SessionState::Running => Launch::AlreadyRunning { epoch: self.epoch },
            SessionState::Idle => {
                self.epoch = self.epoch + 1;
                self.state = SessionState::Running;
                Launch::Spawn { epoch: self.epoch }
            },
        }
    }

    /// Stops the session, and tells whether there is a loop whose stop signal
    /// is to be raised. Does not wait for the loop.
    pub fn stop(&mut self) -> (signal: bool)
        ensures
            final(self)@ == old(self)@.stopped(),
            signal == (old(self)@.state == SessionState::Running),
    {
        let signal: bool = match self.state {
            SessionState::Running => true,
            SessionState::Idle => false,
        };
        self.state = SessionState::Idle;
        signal
    }

    /// Notes that the loop numbered `epoch` has ended by itself. If it is the
    /// loop of the current session, the session is idle from now on.
    pub fn worker_ended(&mut self, epoch: u64)
        ensures
            final(self)@ == old(self)@.ended(epoch),
    {
        if epoch == self.epoch {
            self.state = SessionState::Idle;
        }
    }

    /// Whether a block of that origin is taken rather than discarded as
    /// stale.
    pub fn accepts(&self, origin: Origin) -> (taken: bool)
        ensures
            taken == self@.accepts(origin),
    {
        match origin {
            Origin::Once => true,
            Origin::Session(epoch) => epoch == self.epoch,
        }
    }
}

/// The number of blocks that a sequence of actions hands to the sink.
pub open spec fn deliveries(commands: Seq<Command>) -> nat
    decreases commands.len(),
{
    if commands.len() == 0 {
        0
    } else {
        deliveries(commands.drop_last()) + (if commands.last() is Deliver {
            1nat
        } else {
            0nat
        })
    }
}

/// Whether every check in a sequence of events finds the stop signal set.
pub open spec fn stop_signal_set(events: Seq<Outcome>) -> bool {
    forall|i: int|
        0 <= i < events.len() ==> ((#[trigger] events[i]) matches Outcome::Checked { cancelled }
            ==> cancelled)
}

/// The blocks that a worker may still deliver once the stop signal is set:
/// the one of the request that is under way, if there is one.
pub open spec fn in_flight(w: WorkerState) -> nat {
    if w.phase == Phase::Exchanging || (w.phase == Phase::Created && w.cadence == Cadence::Once) {
        1
    } else {
        0
    }
}

/// Once the stop signal is set, a worker delivers no block but that of the
/// request under way: whatever events follow, as long as every check finds
/// the signal set, at most that one block reaches the sink, and none if no
/// request was under way.
pub proof fn lemma_stop_ends_deliveries(w: WorkerState, events: Seq<Outcome>)
    requires
        stop_signal_set(events),
    ensures
        deliveries(w.run(events).1) + in_flight(w.run(events).0) <= in_flight(w),
    decreases events.len(),
{
    if events.len() > 0 {
        let earlier = events.drop_last();
        assert(stop_signal_set(earlier)) by {
            assert forall|i: int| 0 <= i < earlier.len() implies ((#[trigger] earlier[i]) matches Outcome::Checked {
                cancelled,
            } ==> cancelled) by {
                assert(earlier[i] == events[i]);
            }
        }
        lemma_stop_ends_deliveries(w, earlier);
        assert(events[events.len() - 1] == events.last());
        assert(w.run(events).1.drop_last() =~= w.run(earlier).1);
    }
}

/// A worker that has left its loop stays out of it and delivers nothing.
pub proof fn lemma_done_is_final(w: WorkerState, events: Seq<Outcome>)
    requires
        w.phase == Phase::Done,
    ensures
        w.run(events).0 == w,
        deliveries(w.run(events).1) == 0,
    decreases events.len(),
{
    if events.len() > 0 {
        lemma_done_is_final(w, events.drop_last());
        assert(w.run(events).1.drop_last() =~= w.run(events.drop_last()).1);
    }
}

/// A worker sends the same request in every cycle: no event changes the
/// request, the cadence or the origin.
pub proof fn lemma_request_is_fixed(w: WorkerState, events: Seq<Outcome>)
    ensures
        w.run(events).0.request == w.request,
        w.run(events).0.cadence == w.cadence,
        w.run(events).0.origin == w.origin,
    decreases events.len(),
{
    if events.len() > 0 {
        lemma_request_is_fixed(w, events.drop_last());
    }
}

/// Every block that a worker hands to the sink carries the origin of the
/// worker.
pub proof fn lemma_deliveries_carry_origin(w: WorkerState, events: Seq<Outcome>, i: int)
    requires
        0 <= i < events.len(),
        w.run(events).1[i] is Deliver,
    ensures
        w.run(events).1.len() == events.len(),
        w.run(events).1[i] matches Command::Deliver { origin, words } && origin == w.origin,
    decreases events.len(),
{
    lemma_run_length(w, events);
    lemma_request_is_fixed(w, events.drop_last());
    if i < events.len() - 1 {
        lemma_run_length(w, events.drop_last());
        lemma_deliveries_carry_origin(w, events.drop_last(), i);
    }
}

/// A worker answers every event with one action.
pub proof fn lemma_run_length(w: WorkerState, events: Seq<Outcome>)
    ensures
        w.run(events).1.len() == events.len(),
    decreases events.len(),
{
    if events.len() > 0 {
        lemma_run_length(w, events.drop_last());
    }
}

/// A start that spawns a loop retires every earlier session: no block of a
/// session that was started before is taken any more, so the consumer of the
/// new session sees nothing left over from an old one.
pub proof fn lemma_start_retires_earlier_sessions(session: SessionView, earlier: u64)
    requires
        session.state == SessionState::Idle,
        earlier <= session.epoch,
    ensures
        !session.started().accepts(Origin::Session(earlier)),
        session.started().state == SessionState::Running,
{
}

/// A start on a running session changes nothing: no second loop comes to
/// be, and the blocks of the running one are still taken. So starting twice
/// is starting once.
pub proof fn lemma_second_start_changes_nothing(session: SessionView)
    ensures
        session.state == SessionState::Running ==> session.started() == session,
        session.started().started() == session.started(),
{
}

/// A continuous poll survives failures: a request that fails is reported,
/// and after the pause the worker stands at the top of its loop again. What
/// ends the loop is a set stop signal, a sink that is gone, or an event out of
/// turn.
pub proof fn lemma_poll_survives_failures(w: WorkerState)
    requires
        w.cadence == Cadence::Continuous,
        w.phase == Phase::Exchanging,
    ensures
        w.run(seq![Outcome::Replied { block: None }, Outcome::Reported, Outcome::Rested]) == (
            w.at(Phase::Ready),
            seq![Command::Report, Command::Rest { millis: POLL_INTERVAL_MS }, Command::Check],
        ),
{
    let events = seq![Outcome::Replied { block: None }, Outcome::Reported, Outcome::Rested];
    let two = events.drop_last();
    let one = two.drop_last();
    assert(one.drop_last() =~= Seq::<Outcome>::empty());
    assert(w.run(one.drop_last()) == (w, Seq::<Command>::empty()));
    assert(w.run(one).0 == w.at(Phase::Reporting));
    assert(w.run(one).1 =~= seq![Command::Report]);
    assert(w.run(two).0 == w.at(Phase::Resting));
    assert(w.run(two).1 =~= seq![Command::Report, Command::Rest { millis: POLL_INTERVAL_MS }]);
    assert(w.run(events).1 =~= seq![
        Command::Report,
        Command::Rest { millis: POLL_INTERVAL_MS },
        Command::Check,
    ]);
}

} // verus!
