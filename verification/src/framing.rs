//! Frame assembly: a byte stream cut into frames where the line falls silent.
//!
//! The assembler holds the decisions of a reader loop and does no reading
//! itself. The loop hands it what each read attempt brought, with the time on
//! a millisecond clock, and gets back the frame to pass on, if one is due, and
//! what to do next.

use vstd::prelude::*;

verus! {

/// The silence, in milliseconds, that ends a frame.
pub const IDLE_THRESHOLD_MS: u64 = 30;

/// A run of bytes bounded by silence on the stream.
#[derive(Clone, Debug, PartialEq, Eq)]
pub struct Frame {
    pub bytes: Vec<u8>,
}

impl View for Frame {
    type V = Seq<u8>;

    open spec fn view(&self) -> Seq<u8> {
        self.bytes@
    }
}

/// What one turn of the reader loop saw.
#[derive(Debug)]
pub enum ReadEvent {
    /// The read brought these bytes. No bytes at all count as `Quiet`.
    Data(Vec<u8>),
    /// The read timed out without a byte.
    Quiet,
    /// The read failed otherwise; the handle is of no more use.
    Failed,
    /// The stop flag was found set at the top of the loop.
    Cancelled,
}

/// What the reader loop does after a step.
#[derive(PartialEq, Eq, Structural, Clone, Copy, Debug)]
pub enum Next {
    /// Read again at once.
    Read,
    /// Nothing is pending: sleep briefly, then read again.
    Pause,
    /// Leave the loop.
    Stop,
}

/// The answer of the assembler to one event.
#[derive(Debug)]
pub struct Step {
    pub frame: Option<Frame>,
    pub next: Next,
}

/// The model of an event, with the time at which it was seen.
pub enum Event {
    Data { bytes: Seq<u8>, at: u64 },
    Quiet { at: u64 },
    Failed,
    Cancelled,
}

/// The model of the assembler.
pub struct AssemblerState {
    /// The bytes received since the last frame.
    pub buffer: Seq<u8>,
    /// When the last byte came in.
    pub idle_since: u64,
    /// Whether the loop has ended; nothing is accepted or emitted afterwards.
    pub finished: bool,
}

/// The time from `since` to `now`; zero if the clock stepped back.
pub open spec fn elapsed(since: u64, now: u64) -> int {
    if now >= since {
        now - since
    } else {
        0
    }
}

impl AssemblerState {
    /// The state before the first read.
    pub open spec fn fresh() -> AssemblerState {
        AssemblerState { buffer: Seq::empty(), idle_since: 0, finished: false }
    }

    /// A read that brought nothing: the pending bytes leave as a frame once
    /// the line has been silent for the threshold.
    pub open spec fn on_quiet(self, at: u64) -> (AssemblerState, Option<Seq<u8>>) {
        if self.buffer.len() > 0 && elapsed(self.idle_since, at) >= IDLE_THRESHOLD_MS {
            (AssemblerState { buffer: Seq::empty(), ..self }, Some(self.buffer))
        } else {
            (self, None)
        }
    }

    /// The end of the loop: what is pending leaves as a last frame.
    pub open spec fn on_end(self) -> (AssemblerState, Option<Seq<u8>>) {
        (
            AssemblerState { buffer: Seq::empty(), finished: true, ..self },
            if self.buffer.len() > 0 {
                Some(self.buffer)
            } else {
                None
            },
        )
    }

    /// The state after an event, and the frame that the event releases.
    pub open spec fn step(self, event: Event) -> (AssemblerState, Option<Seq<u8>>) {
        if self.finished {
            (self, None)
        } else {
            match event {
                Event::Data { bytes, at } => if bytes.len() > 0 {
                    (AssemblerState { buffer: self.buffer + bytes, idle_since: at, ..self }, None)
                } else {
                    self.on_quiet(at)
                },
                Event::Quiet { at } => self.on_quiet(at),
                Event::Failed => self.on_end(),
                Event::Cancelled => self.on_end(),
            }
        }
    }

    /// What the loop does after an event.
    pub open spec fn directive(self, event: Event) -> Next {
        if self.finished {
            Next::Stop
        } else {
            match event {
                Event::Data { bytes, at } => if bytes.len() > 0 || self.buffer.len() > 0 {
                    Next::Read
                } else {
                    Next::Pause
                },
                Event::Quiet { at } => if self.buffer.len() > 0 {
                    Next::Read
                } else {
                    Next::Pause
                },
                Event::Failed => Next::Stop,
                Event::Cancelled => Next::Stop,
            }
        }
    }

    /// The state after a sequence of events, and the frames released on the
    /// way, in order.
    pub open spec fn run(self, events: Seq<Event>) -> (AssemblerState, Seq<Seq<u8>>)
        decreases events.len(),
    {
        if events.len() == 0 {
            (self, Seq::empty())
        } else {
            let (mid, frames) = self.run(events.drop_last());
            let (end, frame) = mid.step(events.last());
            (
                end,
                match frame {
                    Some(f) => frames.push(f),
                    None => frames,
                },
            )
        }
    }
}

impl ReadEvent {
    /// The event as the model sees it, seen at time `at`.
    pub open spec fn seen(self, at: u64) -> Event {
        match self {
            ReadEvent::Data(bytes) => Event::Data { bytes: bytes@, at },
            ReadEvent::Quiet => Event::Quiet { at },
            ReadEvent::Failed => Event::Failed,
            ReadEvent::Cancelled => Event::Cancelled,
        }
    }
}

impl Step {
    /// The bytes of the frame that the step released, if it released one.
    pub open spec fn released(self) -> Option<Seq<u8>> {
        match self.frame {
            Some(f) => Some(f@),
            None => None,
        }
    }
}

/// The decisions of a serial reader loop.
pub struct FrameAssembler {
    buffer: Vec<u8>,
    idle_since: u64,
    finished: bool,
}

impl View for FrameAssembler {
    type V = AssemblerState;

    closed spec fn view(&self) -> AssemblerState {
        AssemblerState { buffer: self.buffer@, idle_since: self.idle_since, finished: self.finished }
    }
}

impl FrameAssembler {
    /// An assembler with nothing pending.
    pub fn new() -> (assembler: FrameAssembler)
        ensures
            assembler@ == AssemblerState::fresh(),
    {
        FrameAssembler { buffer: Vec::new(), idle_since: 0, finished: false }
    }

    /// The number of bytes received since the last frame.
    pub fn pending(&self) -> (count: usize)
        ensures
            count == self@.buffer.len(),
    {
        self.buffer.len()
    }

    /// Whether the loop has ended.
    pub fn is_finished(&self) -> (done: bool)
        ensures
            done == self@.finished,
    {
        self.finished
    }

    /// Takes what is pending out of the buffer, as a frame if there is any.
    fn flush(&mut self) -> (frame: Option<Frame>)
        ensures
            final(self)@ == (AssemblerState { buffer: Seq::empty(), ..old(self)@ }),
            match frame {
                Some(f) => old(self)@.buffer.len() > 0 && f@ == old(self)@.buffer,
                None => old(self)@.buffer.len() == 0,
            },
    {
        if self.buffer.len() == 0 {
            assert(self.buffer@ =~= Seq::empty());
            None
        } else {
            let mut bytes: Vec<u8> = Vec::new();
            core::mem::swap(&mut self.buffer, &mut bytes);
            Some(Frame { bytes })
        }
    }

    /// Takes one event of the reader loop, seen at `now_ms` on a millisecond
    /// clock, and answers with the frame to pass on and what to do next.
    ///
    /// Bytes are added to what is pending and release nothing. A read that
    /// brought nothing releases the pending bytes as one frame once the last
    /// byte is at least [`IDLE_THRESHOLD_MS`] old. A failed read and a
    /// cancellation release what is pending as a last frame and end the loop;
    /// from then on every event is answered with no frame and `Stop`.
    pub fn step(&mut self, event: ReadEvent, now_ms: u64) -> (out: Step)
        ensures
            final(self)@ == old(self)@.step(event.seen(now_ms)).0,
            out.released() == old(self)@.step(event.seen(now_ms)).1,
            out.next == old(self)@.directive(event.seen(now_ms)),
    {
        if self.finished {
            return Step { frame: None, next: Next::Stop };
        }
        match event {
            ReadEvent::Data(bytes) => {
                if bytes.len() > 0 {
                    let mut bytes = bytes;
                    self.buffer.append(&mut bytes);
                    self.idle_since = now_ms;
                    Step { frame: None, next: Next::Read }
                } else {
                    self.quiet(now_ms)
                }
            },
            ReadEvent::Quiet => self.quiet(now_ms),
            ReadEvent::Failed | ReadEvent::Cancelled => {
                let frame = self.flush();
                self.finished = true;
                Step { frame, next: Next::Stop }
            },
        }
    }

    /// A read that brought nothing.
    fn quiet(&mut self, now_ms: u64) -> (out: Step)
        requires
            !old(self)@.finished,
        ensures
            final(self)@ == old(self)@.on_quiet(now_ms).0,
            out.released() == old(self)@.on_quiet(now_ms).1,
            out.next == (if old(self)@.buffer.len() > 0 {
                Next::Read
            } else {
                Next::Pause
            }),
    {
        if self.buffer.len() == 0 {
            return Step { frame: None, next: Next::Pause };
        }
        let silent: u64 = if now_ms >= self.idle_since {
            now_ms - self.idle_since
        } else {
            0
        };
        if silent >= IDLE_THRESHOLD_MS {
            let frame = self.flush();
            Step { frame, next: Next::Read }
        } else {
            Step { frame: None, next: Next::Read }
        }
    }
}

/// The bytes that a sequence of events brings, in order.
pub open spec fn payload(events: Seq<Event>) -> Seq<u8>
    decreases events.len(),
{
    if events.len() == 0 {
        Seq::empty()
    } else {
        payload(events.drop_last()) + (match events.last() {
            Event::Data { bytes, at } => bytes,
            _ => Seq::empty(),
        })
    }
}

/// When the last bytes of a sequence of events came in; `None` if it
/// brings none.
pub open spec fn last_arrival(events: Seq<Event>) -> Option<u64>
    decreases events.len(),
{
    if events.len() == 0 {
        None
    } else {
        match events.last() {
            Event::Data { bytes, at } => Some(at),
            _ => last_arrival(events.drop_last()),
        }
    }
}

/// Whether a sequence of events is one unbroken burst: only reads, each of
/// which brings bytes or comes back empty before the line has been silent for
/// the threshold.
pub open spec fn unbroken(events: Seq<Event>) -> bool
    decreases events.len(),
{
    if events.len() == 0 {
        true
    } else {
        &&& unbroken(events.drop_last())
        &&& match events.last() {
            Event::Data { bytes, at } => bytes.len() > 0,
            Event::Quiet { at } => match last_arrival(events.drop_last()) {
                Some(t) => elapsed(t, at) < IDLE_THRESHOLD_MS,
                None => true,
            },
            _ => false,
        }
    }
}

/// A group of bytes on the line: a burst of reads, then a read that finds
/// the line silent.
pub struct Group {
    /// The reads that bring the bytes of the group.
    pub reads: Seq<Event>,
    /// The time of the empty read that follows the group.
    pub silence_at: u64,
}

impl Group {
    /// The group brings at least one byte in one unbroken burst, and the
    /// read after it comes when the line has been silent for the threshold or
    /// longer.
    pub open spec fn well_formed(self) -> bool {
        &&& unbroken(self.reads)
        &&& match last_arrival(self.reads) {
            Some(t) => elapsed(t, self.silence_at) >= IDLE_THRESHOLD_MS,
            None => false,
        }
    }

    /// The bytes of the group.
    pub open spec fn bytes(self) -> Seq<u8> {
        payload(self.reads)
    }

    /// The events of the group as the reader loop sees them.
    pub open spec fn events(self) -> Seq<Event> {
        self.reads.push(Event::Quiet { at: self.silence_at })
    }
}

/// The events of a sequence of groups, one group after the other.
pub open spec fn schedule(groups: Seq<Group>) -> Seq<Event>
    decreases groups.len(),
{
    if groups.len() == 0 {
        Seq::empty()
    } else {
        schedule(groups.drop_last()) + groups.last().events()
    }
}

/// Running two sequences of events one after the other is running their
/// concatenation.
pub proof fn lemma_run_concat(s: AssemblerState, a: Seq<Event>, b: Seq<Event>)
    ensures
        s.run(a + b).0 == s.run(a).0.run(b).0,
        s.run(a + b).1 == s.run(a).1 + s.run(a).0.run(b).1,
    decreases b.len(),
{
    if b.len() == 0 {
        assert(a + b =~= a);
        assert(s.run(a).1 + Seq::<Seq<u8>>::empty() =~= s.run(a).1);
    } else {
        assert((a + b).drop_last() =~= a + b.drop_last());
        assert((a + b).last() == b.last());
        lemma_run_concat(s, a, b.drop_last());
        let mid = s.run(a).0.run(b.drop_last());
        let (end, frame) = mid.0.step(b.last());
        match frame {
            Some(f) => {
                assert(s.run(a).1 + mid.1.push(f) =~= (s.run(a).1 + mid.1).push(f));
            },
            None => {},
        }
    }
}

/// An unbroken burst brings bytes exactly if it has a last arrival.
proof fn lemma_burst_arrival(reads: Seq<Event>)
    requires
        unbroken(reads),
    ensures
        payload(reads).len() > 0 <==> last_arrival(reads) is Some,
    decreases reads.len(),
{
    if reads.len() > 0 {
        lemma_burst_arrival(reads.drop_last());
    }
}

/// An unbroken burst releases no frame: its bytes gather in the buffer.
proof fn lemma_burst_gathers(s: AssemblerState, reads: Seq<Event>)
    requires
        !s.finished,
        s.buffer.len() == 0,
        unbroken(reads),
    ensures
        s.run(reads).1 == Seq::<Seq<u8>>::empty(),
        s.run(reads).0.buffer == payload(reads),
        !s.run(reads).0.finished,
        last_arrival(reads) matches Some(t) ==> s.run(reads).0.idle_since == t,
    decreases reads.len(),
{
    if reads.len() == 0 {
        assert(s.buffer =~= Seq::empty());
    } else {
        lemma_burst_gathers(s, reads.drop_last());
        lemma_burst_arrival(reads.drop_last());
        match reads.last() {
            Event::Data { bytes, at } => {},
            _ => {
                assert(payload(reads) =~= payload(reads.drop_last()));
            },
        }
    }
}

/// A group releases one frame, which holds the bytes of the group, and
/// leaves nothing pending.
proof fn lemma_group_is_one_frame(s: AssemblerState, g: Group)
    requires
        !s.finished,
        s.buffer.len() == 0,
        g.well_formed(),
    ensures
        s.run(g.events()).1 == seq![g.bytes()],
        s.run(g.events()).0.buffer.len() == 0,
        !s.run(g.events()).0.finished,
{
    lemma_burst_gathers(s, g.reads);
    lemma_burst_arrival(g.reads);
    assert(g.events().drop_last() =~= g.reads);
    assert(s.run(g.events()).1 =~= seq![g.bytes()]);
}

/// Bytes that come in groups, each followed by a read that finds the line
/// silent for the threshold or longer, leave as one frame per group: as many
/// frames as groups, each with the bytes of its group, in order, and nothing
/// left pending.
pub proof fn lemma_groups_become_frames(groups: Seq<Group>)
    requires
        forall|i: int| 0 <= i < groups.len() ==> (#[trigger] groups[i]).well_formed(),
    ensures
        AssemblerState::fresh().run(schedule(groups)).1 == Seq::new(
            groups.len(),
            |i: int| groups[i].bytes(),
        ),
        AssemblerState::fresh().run(schedule(groups)).0.buffer.len() == 0,
        !AssemblerState::fresh().run(schedule(groups)).0.finished,
    decreases groups.len(),
{
    let start = AssemblerState::fresh();
    if groups.len() == 0 {
        assert(start.run(schedule(groups)).1 =~= Seq::new(0, |i: int| groups[i].bytes()));
    } else {
        let before = groups.drop_last();
        let g = groups.last();
        lemma_groups_become_frames(before);
        lemma_run_concat(start, schedule(before), g.events());
        lemma_group_is_one_frame(start.run(schedule(before)).0, g);
        assert(start.run(schedule(groups)).1 =~= Seq::new(
            groups.len(),
            |i: int| groups[i].bytes(),
        ));
    }
}

/// Nothing leaves an assembler that has finished: every later event is
/// answered with no frame.
pub proof fn lemma_finished_is_silent(s: AssemblerState, events: Seq<Event>)
    requires
        s.finished,
    ensures
        s.run(events).0 == s,
        s.run(events).1 == Seq::<Seq<u8>>::empty(),
    decreases events.len(),
{
    if events.len() > 0 {
        lemma_finished_is_silent(s, events.drop_last());
    }
}

/// The bytes of a sequence of frames, one frame after the other.
pub open spec fn joined(frames: Seq<Seq<u8>>) -> Seq<u8>
    decreases frames.len(),
{
    if frames.len() == 0 {
        Seq::empty()
    } else {
        joined(frames.drop_last()) + frames.last()
    }
}

/// Whether a sequence of events holds reads only: none failed, and the loop
/// was not cancelled.
pub open spec fn reads_only(events: Seq<Event>) -> bool {
    forall|i: int| 0 <= i < events.len() ==> (#[trigger] events[i]) is Data || events[i] is Quiet
}

/// No byte is lost, doubled or moved: whatever the timing, the frames that
/// have left, followed by what is pending, are the bytes that came in, in
/// their order.
pub proof fn lemma_no_byte_is_lost(s: AssemblerState, events: Seq<Event>)
    requires
        !s.finished,
        reads_only(events),
    ensures
        joined(s.run(events).1) + s.run(events).0.buffer == s.buffer + payload(events),
        !s.run(events).0.finished,
    decreases events.len(),
{
    if events.len() == 0 {
        assert(joined(s.run(events).1) + s.buffer =~= s.buffer + payload(events));
    } else {
        let earlier = events.drop_last();
        assert(reads_only(earlier)) by {
            assert forall|i: int| 0 <= i < earlier.len() implies (#[trigger] earlier[i]) is Data
                || earlier[i] is Quiet by {
                assert(earlier[i] == events[i]);
            }
        }
        lemma_no_byte_is_lost(s, earlier);
        let (mid, frames) = s.run(earlier);
        let (end, frame) = mid.step(events.last());
        assert(events[events.len() - 1] == events.last());
        match frame {
            Some(f) => {
                assert(frames.push(f).drop_last() =~= frames);
                assert(joined(frames.push(f)) + end.buffer =~= joined(frames) + mid.buffer);
                assert(payload(events) =~= payload(earlier));
            },
            None => {
                match events.last() {
                    Event::Data { bytes, at } => {
                        assert(joined(frames) + (mid.buffer + bytes) =~= (joined(frames)
                            + mid.buffer) + bytes);
                        assert(s.buffer + (payload(earlier) + bytes) =~= (s.buffer + payload(
                            earlier,
                        )) + bytes);
                    },
                    _ => {
                        assert(payload(events) =~= payload(earlier));
                    },
                }
            },
        }
    }
}

/// A stop flushes: when the loop is cancelled or a read fails, all bytes
/// that came in have left in frames, and nothing is pending.
pub proof fn lemma_stop_flushes(s: AssemblerState, events: Seq<Event>, last: Event)
    requires
        !s.finished,
        reads_only(events),
        last is Cancelled || last is Failed,
    ensures
        joined(s.run(events.push(last)).1) == s.buffer + payload(events),
        s.run(events.push(last)).0.buffer.len() == 0,
        s.run(events.push(last)).0.finished,
{
    lemma_no_byte_is_lost(s, events);
    assert(events.push(last).drop_last() =~= events);
    let (mid, frames) = s.run(events);
    let (end, frame) = mid.step(last);
    match frame {
        Some(f) => {
            assert(frames.push(f).drop_last() =~= frames);
        },
        None => {
            assert(joined(frames) + mid.buffer =~= joined(frames));
        },
    }
}

/// No frame is empty.
pub proof fn lemma_frames_are_not_empty(s: AssemblerState, events: Seq<Event>, i: int)
    requires
        0 <= i < s.run(events).1.len(),
    ensures
        s.run(events).1[i].len() > 0,
    decreases events.len(),
{
    if events.len() > 0 {
        if i < s.run(events.drop_last()).1.len() {
            lemma_frames_are_not_empty(s, events.drop_last(), i);
        }
    }
}

} // verus!
