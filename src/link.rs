//! Decisions of the task that owns the serial link.
//!
//! The task itself (queue, stream, deadlines, event bus) lives with the
//! runtime; it reports what happened here and does what it is told: whether to
//! drain stale bytes before a query, whether to publish `Disconnected`, what
//! to answer the caller.
use vstd::prelude::*;

use crate::error::Error;
use crate::text::{decode_lossy, utf8_lossy};

verus! {

/// Deadline for a query's reply line, in milliseconds.
pub const READ_DEADLINE_MS: u64 = 1000;

/// Total time that one stale-byte drain may take, in milliseconds.
pub const DRAIN_WINDOW_MS: u64 = 200;

/// How long one drain read waits for bytes before the drain ends, in milliseconds.
pub const DRAIN_IDLE_MS: u64 = 20;

/// What the link task remembers between requests.
#[derive(Debug, Clone, Copy, PartialEq, Eq, Structural)]
pub struct LinkState {
    /// `Disconnected` has been published.
    pub disconnected_sent: bool,
    /// A query timed out; its reply may still arrive and must be drained
    /// before the next query.
    pub needs_drain: bool,
    /// The task has stopped; nothing changes any more.
    pub terminated: bool,
}

/// What happened on the link, as the task reports it.
#[derive(Debug, Clone, Copy, PartialEq, Eq, Structural)]
pub enum LinkEvent {
    /// A query (a command whose reply line is read back) is about to be written.
    QueryStarted,
    /// The stream failed a write or a read.
    StreamFailed,
    /// A query's reply did not arrive before the deadline.
    ReadTimedOut,
    /// Shutdown was requested, the queue closed, or the task was cancelled.
    Stopped,
}

/// What the task must do after an event.
#[derive(Debug, Clone, Copy, PartialEq, Eq, Structural)]
pub struct LinkEffects {
    /// Drain stale bytes before writing the query.
    pub drain_first: bool,
    /// Publish `SwitchEvent::Disconnected`.
    pub emit_disconnected: bool,
}

pub open spec fn fresh_link() -> LinkState {
    LinkState { disconnected_sent: false, needs_drain: false, terminated: false }
}

pub open spec fn next_link(s: LinkState, e: LinkEvent) -> LinkState {
    if s.terminated {
        s
    } else {
        match e {
            LinkEvent::QueryStarted => LinkState { needs_drain: false, ..s },
            LinkEvent::StreamFailed => LinkState { disconnected_sent: true, ..s },
            LinkEvent::ReadTimedOut => LinkState { needs_drain: true, ..s },
            LinkEvent::Stopped => LinkState { disconnected_sent: true, terminated: true, ..s },
        }
    }
}

pub open spec fn link_effects(s: LinkState, e: LinkEvent) -> LinkEffects {
    if s.terminated {
        LinkEffects { drain_first: false, emit_disconnected: false }
    } else {
        match e {
            LinkEvent::QueryStarted => LinkEffects {
                drain_first: s.needs_drain,
                emit_disconnected: false,
            },
            LinkEvent::StreamFailed | LinkEvent::Stopped => LinkEffects {
                drain_first: false,
                emit_disconnected: !s.disconnected_sent,
            },
            LinkEvent::ReadTimedOut => LinkEffects { drain_first: false, emit_disconnected: false },
        }
    }
}

/// The state after a sequence of events, first to last.
pub open spec fn run_link(s: LinkState, events: Seq<LinkEvent>) -> LinkState
    decreases events.len(),
{
    if events.len() == 0 {
        s
    } else {
        run_link(next_link(s, events[0]), events.drop_first())
    }
}

/// How many times `Disconnected` is published over a sequence of events.
pub open spec fn disconnects(s: LinkState, events: Seq<LinkEvent>) -> nat
    decreases events.len(),
{
    if events.len() == 0 {
        0
    } else {
        (if link_effects(s, events[0]).emit_disconnected {
            1nat
        } else {
            0nat
        }) + disconnects(next_link(s, events[0]), events.drop_first())
    }
}

pub open spec fn ends_link(e: LinkEvent) -> bool {
    e is StreamFailed || e is Stopped
}

/// Some event of the sequence is a stream failure or a stop.
pub open spec fn has_link_end(events: Seq<LinkEvent>) -> bool {
    exists|i: int| 0 <= i < events.len() && ends_link(#[trigger] events[i])
}

proof fn lemma_has_link_end_split(events: Seq<LinkEvent>)
    requires
        events.len() > 0,
    ensures
        has_link_end(events) <==> ends_link(events[0]) || has_link_end(events.drop_first()),
{
    let rest = events.drop_first();
    if has_link_end(rest) {
        let i = choose|i: int| 0 <= i < rest.len() && ends_link(#[trigger] rest[i]);
        assert(ends_link(events[i + 1]));
    }
    if has_link_end(events) && !ends_link(events[0]) {
        let i = choose|i: int| 0 <= i < events.len() && ends_link(#[trigger] events[i]);
        assert(ends_link(rest[i - 1]));
    }
}

/// However many stream failures and stops a running link task sees, it
/// publishes `Disconnected` once if it has not yet done so and any of them
/// occurs, and never otherwise.
pub proof fn lemma_single_disconnect(s: LinkState, events: Seq<LinkEvent>)
    ensures
        disconnects(s, events) == if !s.terminated && !s.disconnected_sent && has_link_end(
            events,
        ) {
            1nat
        } else {
            0nat
        },
    decreases events.len(),
{
    if events.len() > 0 {
        lemma_has_link_end_split(events);
        lemma_single_disconnect(next_link(s, events[0]), events.drop_first());
    }
}

/// From its start, a link task publishes `Disconnected` exactly once when a
/// stream failure or a stop occurs, however many failures there are.
pub proof fn lemma_disconnected_once_per_lifetime(events: Seq<LinkEvent>)
    ensures
        disconnects(fresh_link(), events) == if has_link_end(events) {
            1nat
        } else {
            0nat
        },
{
    lemma_single_disconnect(fresh_link(), events);
}

/// A stop after a stop changes nothing and publishes nothing, nor does any
/// event after it.
pub proof fn lemma_stop_idempotent(s: LinkState, later: Seq<LinkEvent>)
    ensures
        next_link(next_link(s, LinkEvent::Stopped), LinkEvent::Stopped) == next_link(
            s,
            LinkEvent::Stopped,
        ),
        !link_effects(next_link(s, LinkEvent::Stopped), LinkEvent::Stopped).emit_disconnected,
        disconnects(next_link(s, LinkEvent::Stopped), later) == 0,
{
    lemma_single_disconnect(next_link(s, LinkEvent::Stopped), later);
}

proof fn lemma_run_keeps_drain(s: LinkState, events: Seq<LinkEvent>)
    requires
        forall|i: int| 0 <= i < events.len() ==> !(#[trigger] events[i] is QueryStarted),
    ensures
        !s.terminated && s.needs_drain ==> run_link(s, events).terminated || run_link(
            s,
            events,
        ).needs_drain,
        (!s.needs_drain && (forall|i: int| 0 <= i < events.len() ==> !(
        #[trigger] events[i] is ReadTimedOut))) ==> !run_link(s, events).needs_drain,
    decreases events.len(),
{
    if events.len() > 0 {
        let rest = events.drop_first();
        assert forall|i: int| 0 <= i < rest.len() implies !(#[trigger] rest[i] is QueryStarted) by {
            assert(rest[i] == events[i + 1]);
        }
        if forall|i: int| 0 <= i < events.len() ==> !(#[trigger] events[i] is ReadTimedOut) {
            assert forall|i: int| 0 <= i < rest.len() implies !(
            #[trigger] rest[i] is ReadTimedOut) by {
                assert(rest[i] == events[i + 1]);
            }
        }
        assert(!(events[0] is QueryStarted));
        if next_link(s, events[0]).terminated {
            lemma_run_keeps_terminated(next_link(s, events[0]), rest);
        }
        lemma_run_keeps_drain(next_link(s, events[0]), rest);
    }
}

/// After a query times out, the next query drains stale bytes before it is
/// written, whatever failures come between; unless the task has stopped.
pub proof fn lemma_drain_after_timeout(s: LinkState, between: Seq<LinkEvent>)
    requires
        !s.terminated,
        forall|i: int| 0 <= i < between.len() ==> !(#[trigger] between[i] is QueryStarted),
    ensures
        ({
            let t = run_link(next_link(s, LinkEvent::ReadTimedOut), between);
            !t.terminated ==> link_effects(t, LinkEvent::QueryStarted).drain_first
        }),
{
    lemma_run_keeps_drain(next_link(s, LinkEvent::ReadTimedOut), between);
}

/// A query drains only when a timeout came after the previous query.
pub proof fn lemma_no_drain_without_timeout(s: LinkState, between: Seq<LinkEvent>)
    requires
        forall|i: int| 0 <= i < between.len() ==> !(#[trigger] between[i] is QueryStarted),
        forall|i: int| 0 <= i < between.len() ==> !(#[trigger] between[i] is ReadTimedOut),
    ensures
        !link_effects(
            run_link(next_link(s, LinkEvent::QueryStarted), between),
            LinkEvent::QueryStarted,
        ).drain_first,
{
    let t = next_link(s, LinkEvent::QueryStarted);
    if s.terminated {
        lemma_run_keeps_terminated(t, between);
    } else {
        lemma_run_keeps_drain(t, between);
    }
}

proof fn lemma_run_keeps_terminated(s: LinkState, events: Seq<LinkEvent>)
    requires
        s.terminated,
    ensures
        run_link(s, events) == s,
    decreases events.len(),
{
    if events.len() > 0 {
        lemma_run_keeps_terminated(s, events.drop_first());
    }
}

impl LinkState {
    /// The state of a link task that has just started.
    pub fn new() -> (r: LinkState)
        ensures
            r == fresh_link(),
    {
        LinkState { disconnected_sent: false, needs_drain: false, terminated: false }
    }

    /// Takes one event and says what to do about it.
    pub fn step(&mut self, e: LinkEvent) -> (r: LinkEffects)
        ensures
            *final(self) == next_link(*old(self), e),
            r == link_effects(*old(self), e),
    {
        if self.terminated {
            return LinkEffects { drain_first: false, emit_disconnected: false };
        }
        match e {
            LinkEvent::QueryStarted => {
                let drain = self.needs_drain;
                self.needs_drain = false;
                LinkEffects { drain_first: drain, emit_disconnected: false }
            },
            LinkEvent::StreamFailed => {
                let emit = !self.disconnected_sent;
                self.disconnected_sent = true;
                LinkEffects { drain_first: false, emit_disconnected: emit }
            },
            LinkEvent::ReadTimedOut => {
                self.needs_drain = true;
                LinkEffects { drain_first: false, emit_disconnected: false }
            },
            LinkEvent::Stopped => {
                let emit = !self.disconnected_sent;
                self.disconnected_sent = true;
                self.terminated = true;
                LinkEffects { drain_first: false, emit_disconnected: emit }
            },
        }
    }

    /// The answer to a write request, given what the stream reported; a
    /// failure is also a stream failure of the link.
    pub fn finish_write(&mut self, written: Result<(), String>) -> (r: Outcome<()>)
        ensures
            written is Ok ==> *final(self) == *old(self) && r.reply is Ok && !r.emit_disconnected,
            written matches Err(m) ==> (r.reply matches Err(Error::Io(e)) && e@ == m@),
            written is Err ==> *final(self) == next_link(*old(self), LinkEvent::StreamFailed)
                && r.emit_disconnected == link_effects(
                *old(self),
                LinkEvent::StreamFailed,
            ).emit_disconnected,
    {
        match written {
            Ok(()) => Outcome { reply: Ok(()), emit_disconnected: false },
            Err(m) => {
                let fx = self.step(LinkEvent::StreamFailed);
                Outcome { reply: Err(Error::Io(m)), emit_disconnected: fx.emit_disconnected }
            },
        }
    }

    /// The answer to a query, given how it ended. A timeout arms the drain
    /// for the next query; a stream failure is reported as such.
    pub fn finish_query(&mut self, outcome: QueryOutcome) -> (r: Outcome<String>)
        ensures
            outcome matches QueryOutcome::Line(l) ==> (*final(self) == *old(self)
                && !r.emit_disconnected && (r.reply matches Ok(s) && s@ == l@)),
            outcome matches QueryOutcome::Failed(m) ==> (r.reply matches Err(Error::Io(e)) && e@
                == m@),
            outcome is Failed ==> *final(self) == next_link(*old(self), LinkEvent::StreamFailed)
                && r.emit_disconnected == link_effects(
                *old(self),
                LinkEvent::StreamFailed,
            ).emit_disconnected,
            outcome is TimedOut ==> *final(self) == next_link(*old(self), LinkEvent::ReadTimedOut)
                && !r.emit_disconnected && r.reply matches Err(Error::Timeout),
    {
        match outcome {
            QueryOutcome::Line(l) => Outcome { reply: Ok(l), emit_disconnected: false },
            QueryOutcome::Failed(m) => {
                let fx = self.step(LinkEvent::StreamFailed);
                Outcome { reply: Err(Error::Io(m)), emit_disconnected: fx.emit_disconnected }
            },
            QueryOutcome::TimedOut => {
                self.step(LinkEvent::ReadTimedOut);
                Outcome { reply: Err(Error::Timeout), emit_disconnected: false }
            },
        }
    }
}

/// How a query ended on the stream.
pub enum QueryOutcome {
    /// A reply line arrived.
    Line(String),
    /// The stream failed the write or the read, with its message.
    Failed(String),
    /// No line arrived before the deadline.
    TimedOut,
}

/// The answer for the caller, and whether to publish `Disconnected`.
pub struct Outcome<T> {
    pub reply: Result<T, Error>,
    pub emit_disconnected: bool,
}

/// How long the next drain read may wait, given the milliseconds spent
/// draining so far; `None` once the drain window is used up.
pub fn drain_wait(elapsed_ms: u64) -> (r: Option<u64>)
    ensures
        elapsed_ms >= DRAIN_WINDOW_MS <==> r is None,
        r matches Some(w) ==> w == if DRAIN_WINDOW_MS - elapsed_ms < DRAIN_IDLE_MS {
            (DRAIN_WINDOW_MS - elapsed_ms) as u64
        } else {
            DRAIN_IDLE_MS
        },
        r matches Some(w) ==> 0 < w <= DRAIN_IDLE_MS && elapsed_ms + w <= DRAIN_WINDOW_MS,
{
    if elapsed_ms >= DRAIN_WINDOW_MS {
        return None;
    }
    let remaining = DRAIN_WINDOW_MS - elapsed_ms;
    if remaining < DRAIN_IDLE_MS {
        Some(remaining)
    } else {
        Some(DRAIN_IDLE_MS)
    }
}

/// What one drain read gave.
#[derive(Debug, Clone, Copy, PartialEq, Eq, Structural)]
pub enum DrainRead {
    /// The read returned this many bytes.
    Bytes(usize),
    /// No byte came within the wait.
    Idle,
    /// The stream reported an error.
    Failed,
}

/// Whether the drain goes on after a read: only while bytes keep coming.
pub fn drain_continues(read: DrainRead) -> (r: bool)
    ensures
        r <==> (read matches DrainRead::Bytes(n) && n > 0),
{
    match read {
        DrainRead::Bytes(n) => n > 0,
        _ => false,
    }
}

pub open spec fn is_line_end(b: u8) -> bool {
    b == 13 || b == 10
}

/// Bytes of a reply line, gathered one at a time until CR or LF.
pub struct LineReader {
    /// The bytes so far, the terminator included once it came.
    pub buf: Vec<u8>,
    /// The terminator has come.
    pub complete: bool,
}

impl LineReader {
    /// Only the last byte of a line may be a terminator, and it is one
    /// exactly when the line is complete.
    pub open spec fn wf(&self) -> bool {
        &&& forall|i: int| 0 <= i < self.buf@.len() - 1 ==> !is_line_end(#[trigger] self.buf@[i])
        &&& self.complete <==> (self.buf@.len() > 0 && is_line_end(self.buf@.last()))
    }

    pub fn new() -> (r: LineReader)
        ensures
            r.wf(),
            r.buf@ == Seq::<u8>::empty(),
            !r.complete,
    {
        LineReader { buf: Vec::new(), complete: false }
    }

    /// Takes the next byte of the line; returns whether the line is complete.
    pub fn push(&mut self, b: u8) -> (done: bool)
        requires
            old(self).wf(),
            !old(self).complete,
        ensures
            final(self).wf(),
            final(self).buf@ == old(self).buf@.push(b),
            done == final(self).complete,
            done == is_line_end(b),
    {
        self.buf.push(b);
        self.complete = b == 13 || b == 10;
        self.complete
    }

    /// The line as text, invalid UTF-8 replaced.
    pub fn text(&self) -> (r: String)
        ensures
            r@ == utf8_lossy(self.buf@),
    {
        decode_lossy(self.buf.as_slice())
    }
}

/// How a caller's request came back from the link task.
pub enum Delivery<T> {
    /// The task answered.
    Replied(Result<T, Error>),
    /// The request could not be queued, the task dropped it, or the caller's
    /// overall deadline passed.
    Unreachable,
}

/// The caller's result: the task's answer, or `NotConnected` when the task
/// could not be reached in time.
pub fn settle<T>(d: Delivery<T>) -> (r: Result<T, Error>)
    ensures
        d is Unreachable ==> r matches Err(Error::NotConnected),
        d matches Delivery::Replied(a) ==> r == a,
{
    match d {
        Delivery::Replied(a) => a,
        Delivery::Unreachable => Err(Error::NotConnected),
    }
}

/// The result of a shutdown request, and whether the task must be cancelled
/// because it could not be reached: closing is best effort and succeeds then.
pub fn settle_shutdown(d: Delivery<()>) -> (r: (Result<(), Error>, bool))
    ensures
        d is Unreachable ==> r.0 is Ok && r.1,
        d matches Delivery::Replied(a) ==> r.0 == a && !r.1,
{
    match d {
        Delivery::Replied(a) => (a, false),
        Delivery::Unreachable => (Ok(()), true),
    }
}

} // verus!
