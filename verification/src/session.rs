//! Connection state machine of the streaming ingestion client. The client
//! cycles through connecting, streaming and backing off; it stops permanently
//! only when the consumer of its output has detached. The machine is pure:
//! each step takes one observation of the outside world and answers with the
//! next action to perform, so the surrounding I/O loop holds no logic of its
//! own.

use vstd::prelude::*;

use crate::backoff::{next_delay, Backoff, INITIAL_BACKOFF_UNITS, MAX_BACKOFF_UNITS};
use crate::mevshare::{buffered_events, drain_frames, Event};

verus! {

/// Where the client stands in its connect / stream / retry cycle.
#[derive(Clone, Copy, Debug, PartialEq, Eq, Structural)]
pub enum Phase {
    /// A connection attempt is in flight.
    Connecting,
    /// A connection is open and chunks are being read.
    Streaming,
    /// A failure was observed; the client waits before reconnecting.
    Backoff,
    /// The consumer detached; the client never reconnects.
    Stopped,
}

/// One observation handed to the state machine by the I/O loop.
pub enum StreamInput {
    /// The connection attempt succeeded.
    Connected,
    /// The connection attempt failed.
    ConnectFailed,
    /// One chunk of bytes arrived on the open connection.
    Chunk(Vec<u8>),
    /// The open connection ended or failed mid-stream.
    StreamEnded,
    /// The requested delay has elapsed.
    Slept,
    /// The events of the last chunk were forwarded and the consumer is still
    /// there.
    Forwarded,
    /// The consumer of the output channel has been dropped.
    ReceiverClosed,
}

/// The next action the I/O loop is asked to perform.
pub enum StreamCommand {
    /// Issue a connection attempt.
    Connect,
    /// Read the next chunk from the open connection.
    ReadChunk,
    /// Forward these events to the output channel.
    Emit(Vec<Event>),
    /// Wait this many time units.
    Sleep(u64),
    /// Exit permanently.
    Stop,
}

/// Mathematical state of the client: phase, reconnect delay, and the bytes
/// that wait for their frame separator.
pub struct SessionModel {
    /// Where the client stands.
    pub phase: Phase,
    /// The delay the next failure will wait.
    pub delay: u64,
    /// Bytes received but not yet part of a complete frame.
    pub buffer: Seq<u8>,
}

/// Mathematical form of one observation.
pub enum InputModel {
    /// The connection attempt succeeded.
    Connected,
    /// The connection attempt failed.
    ConnectFailed,
    /// One chunk of bytes arrived.
    Chunk(Seq<u8>),
    /// The open connection ended or failed mid-stream.
    StreamEnded,
    /// The requested delay has elapsed.
    Slept,
    /// The emitted events were forwarded.
    Forwarded,
    /// The consumer detached.
    ReceiverClosed,
}

/// Mathematical form of one command.
pub enum CommandModel {
    /// Issue a connection attempt.
    Connect,
    /// Read the next chunk.
    ReadChunk,
    /// Forward these events.
    Emit(Seq<Event>),
    /// Wait this many time units.
    Sleep(u64),
    /// Exit permanently.
    Stop,
}

/// Which observations the protocol can hand to which phase: a detached
/// consumer can be observed at any time, a stopped client ignores everything,
/// and otherwise each phase waits for the outcome of the action it asked for.
pub open spec fn session_accepts(m: SessionModel, i: InputModel) -> bool {
    ||| m.phase is Stopped
    ||| i is ReceiverClosed
    ||| match m.phase {
        Phase::Connecting => i is Connected || i is ConnectFailed,
        Phase::Streaming => i is Chunk || i is StreamEnded || i is Forwarded,
        Phase::Backoff => i is Slept,
        Phase::Stopped => true,
    }
}

/// The transition relation of the client, as a function: the state after one
/// observation, and the action the I/O loop is asked to perform next.
///
/// A successful connect enters the streaming phase, resets the delay to its
/// initial value and starts a fresh buffer. A failed connect, a stream end or
/// a mid-stream error asks for a wait of the current delay and doubles it,
/// capped. A chunk is appended to the buffer, every complete frame is
/// extracted, and the events those frames carry are emitted. A detached
/// consumer stops the client permanently, and a stopped client answers every
/// observation with `Stop`.
pub open spec fn session_step(m: SessionModel, i: InputModel) -> (SessionModel, CommandModel) {
    if m.phase is Stopped {
        (m, CommandModel::Stop)
    } else if i is ReceiverClosed {
        (SessionModel { phase: Phase::Stopped, ..m }, CommandModel::Stop)
    } else {
        match (m.phase, i) {
            (Phase::Connecting, InputModel::Connected) => (
                SessionModel { phase: Phase::Streaming, delay: INITIAL_BACKOFF_UNITS, buffer: Seq::empty() },
                CommandModel::ReadChunk,
            ),
            (Phase::Connecting, InputModel::ConnectFailed) => (
                SessionModel { phase: Phase::Backoff, delay: next_delay(m.delay), ..m },
                CommandModel::Sleep(m.delay),
            ),
            (Phase::Streaming, InputModel::Chunk(c)) => (
                SessionModel { buffer: drain_frames(m.buffer + c).1, ..m },
                CommandModel::Emit(buffered_events(m.buffer + c)),
            ),
            (Phase::Streaming, InputModel::Forwarded) => (m, CommandModel::ReadChunk),
            (Phase::Streaming, InputModel::StreamEnded) => (
                SessionModel { phase: Phase::Backoff, delay: next_delay(m.delay), ..m },
                CommandModel::Sleep(m.delay),
            ),
            (Phase::Backoff, InputModel::Slept) => (
                SessionModel { phase: Phase::Connecting, ..m },
                CommandModel::Connect,
            ),
            _ => (m, CommandModel::Stop),
        }
    }
}

/// Executable state of the streaming client between two observations.
pub struct StreamSession {
    phase: Phase,
    backoff: Backoff,
    buffer: Vec<u8>,
}

impl View for StreamSession {
    type V = SessionModel;

    closed spec fn view(&self) -> SessionModel {
        SessionModel { phase: self.phase, delay: self.backoff.delay(), buffer: self.buffer@ }
    }
}

impl View for StreamInput {
    type V = InputModel;

    open spec fn view(&self) -> InputModel {
        match self {
            StreamInput::Connected => InputModel::Connected,
            StreamInput::ConnectFailed => InputModel::ConnectFailed,
            StreamInput::Chunk(c) => InputModel::Chunk(c@),
            StreamInput::StreamEnded => InputModel::StreamEnded,
            StreamInput::Slept => InputModel::Slept,
            StreamInput::Forwarded => InputModel::Forwarded,
            StreamInput::ReceiverClosed => InputModel::ReceiverClosed,
        }
    }
}

impl View for StreamCommand {
    type V = CommandModel;

    open spec fn view(&self) -> CommandModel {
        match self {
            StreamCommand::Connect => CommandModel::Connect,
            StreamCommand::ReadChunk => CommandModel::ReadChunk,
            StreamCommand::Emit(es) => CommandModel::Emit(es@),
            StreamCommand::Sleep(d) => CommandModel::Sleep(*d),
            StreamCommand::Stop => CommandModel::Stop,
        }
    }
}

impl StreamSession {
    /// The reconnect delay stays between its initial value and the cap.
    pub open spec fn wf(&self) -> bool {
        INITIAL_BACKOFF_UNITS <= self@.delay <= MAX_BACKOFF_UNITS
    }

    /// A fresh session: about to attempt its first connection, with the
    /// initial delay and an empty buffer. The first command is `Connect`.
    pub fn new() -> (r: StreamSession)
        ensures
            r@.phase is Connecting,
            r@.delay == INITIAL_BACKOFF_UNITS,
            r@.buffer == Seq::<u8>::empty(),
            r.wf(),
    {
        let s = StreamSession { phase: Phase::Connecting, backoff: Backoff::new(), buffer: Vec::new() };
        proof {
            assert(s@.buffer =~= Seq::<u8>::empty());
        }
        s
    }

    /// Advance the machine by one observation and answer with the next
    /// action, exactly as [`session_step`] says.
    pub fn step(&mut self, input: StreamInput) -> (cmd: StreamCommand)
        requires
            old(self).wf(),
            session_accepts(old(self)@, input@),
        ensures
            final (self)@ == session_step(old(self)@, input@).0,
            cmd@ == session_step(old(self)@, input@).1,
            final (self).wf(),
    {
        match self.phase {
            Phase::Stopped => StreamCommand::Stop,
            _ => {
                match input {
                    StreamInput::ReceiverClosed => {
                        self.phase = Phase::Stopped;
                        StreamCommand::Stop
                    },
                    StreamInput::Connected => {
                        self.phase = Phase::Streaming;
                        self.backoff.reset();
                        self.buffer = Vec::new();
                        proof {
                            assert(self@.buffer =~= Seq::<u8>::empty());
                        }
                        StreamCommand::ReadChunk
                    },
                    StreamInput::ConnectFailed => {
                        let d = self.backoff.current();
                        self.backoff.advance();
                        self.phase = Phase::Backoff;
                        StreamCommand::Sleep(d)
                    },
                    StreamInput::Chunk(c) => {
                        let events = crate::mevshare::process_chunk(&mut self.buffer, c);
                        StreamCommand::Emit(events)
                    },
                    StreamInput::Forwarded => StreamCommand::ReadChunk,
                    StreamInput::StreamEnded => {
                        let d = self.backoff.current();
                        self.backoff.advance();
                        self.phase = Phase::Backoff;
                        StreamCommand::Sleep(d)
                    },
                    StreamInput::Slept => {
                        self.phase = Phase::Connecting;
                        StreamCommand::Connect
                    },
                }
            },
        }
    }
}

/// Once the consumer has detached, the client stops at that very step and
/// never again asks for a connection attempt: observing the detachment stops
/// it, and a stopped client answers every further observation with `Stop`.
pub proof fn lemma_detachment_terminates(m: SessionModel, i: InputModel)
    ensures
        session_step(m, InputModel::ReceiverClosed).0.phase is Stopped,
        session_step(m, InputModel::ReceiverClosed).1 is Stop,
        m.phase is Stopped ==> session_step(m, i).0 == m,
        m.phase is Stopped ==> session_step(m, i).1 is Stop,
{
}

/// A successful connect resets the delay to its initial value; chunks and
/// forwarding do not change it; so the first failure after a successful
/// connect — even one whose stream ends at once — waits the initial delay,
/// not a continuation of the earlier doubling.
pub proof fn lemma_backoff_reset(m: SessionModel, c: Seq<u8>)
    requires
        m.phase is Connecting,
    ensures
        session_step(m, InputModel::Connected).0.delay == INITIAL_BACKOFF_UNITS,
        session_step(m, InputModel::Connected).0.phase is Streaming,
        forall|s: SessionModel, cc: Seq<u8>|
            s.phase is Streaming ==> (#[trigger] session_step(s, InputModel::Chunk(cc)).0).delay
                == s.delay && session_step(s, InputModel::Chunk(cc)).0.phase is Streaming,
        forall|s: SessionModel|
            s.phase is Streaming ==> (#[trigger] session_step(s, InputModel::Forwarded).0) == s,
        forall|s: SessionModel|
            s.phase is Streaming ==> #[trigger] session_step(s, InputModel::StreamEnded).1
                == CommandModel::Sleep(s.delay),
{
}

} // verus!
