//! The decisions of a network connection's tasks: when its read and write loops
//! may start, what its accept loop does with each incoming connection, and which
//! task handles a readiness event.
use vstd::prelude::*;

verus! {

/// Whether the read and write loops of a connection have been let go.
pub struct Readiness {
    read_ready: bool,
    write_ready: bool,
}

/// What asking a connection to get ready came to.
#[derive(PartialEq, Eq, Structural, Debug)]
pub enum ReadyOutcome {
    /// The connection was ready already; nothing was changed or told.
    AlreadyReady,
    /// Both loops were marked ready and are to be woken.
    Notified,
}

impl Readiness {
    /// The read loop may run.
    pub closed spec fn reading(&self) -> bool {
        self.read_ready
    }

    /// The write loop may run.
    pub closed spec fn writing(&self) -> bool {
        self.write_ready
    }

    /// A connection whose loops wait.
    pub fn new() -> (r: Self)
        ensures
            !r.reading(),
            !r.writing(),
    {
        Readiness { read_ready: false, write_ready: false }
    }

    /// Whether the connection is ready: its read loop may run.
    pub fn is_ready(&self) -> (b: bool)
        ensures
            b == self.reading(),
    {
        self.read_ready
    }

    /// Whether the write loop may run.
    pub fn write_ready(&self) -> (b: bool)
        ensures
            b == self.writing(),
    {
        self.write_ready
    }

    /// Lets both loops go, unless the read loop was let go already.
    pub fn ready(&mut self) -> (r: ReadyOutcome)
        ensures
            old(self).reading() ==> r == ReadyOutcome::AlreadyReady && *final(self) == *old(self),
            !old(self).reading() ==> r == ReadyOutcome::Notified && final(self).reading()
                && final(self).writing(),
    {
        if self.read_ready {
            return ReadyOutcome::AlreadyReady;
        }
        self.read_ready = true;
        self.write_ready = true;
        ReadyOutcome::Notified
    }
}

/// What the stream of incoming connections yielded.
pub enum AcceptEvent {
    /// A connection, with whether its peer address could be read.
    Connection { peer_known: bool },
    /// Accepting a connection failed.
    Failed,
    /// No more connections will come.
    Closed,
}

/// What the accept loop does next.
#[derive(PartialEq, Eq, Structural, Debug)]
pub enum AcceptAction {
    /// Set up a client for the connection, register it and hand it on.
    Serve,
    /// Log the failure and wait for the next connection.
    Continue,
    /// Stop the loop; with an error when it stops on one.
    Stop { failed: bool },
}

/// The accept loop's answer to what the incoming stream yielded.
pub fn accept_step(event: AcceptEvent) -> (a: AcceptAction)
    ensures
        a == (match event {
            AcceptEvent::Connection { peer_known } => if peer_known {
                AcceptAction::Serve
            } else {
                AcceptAction::Stop { failed: true }
            },
            AcceptEvent::Failed => AcceptAction::Continue,
            AcceptEvent::Closed => AcceptAction::Stop { failed: false },
        }),
{
    match event {
        AcceptEvent::Connection { peer_known } => {
            if peer_known {
                AcceptAction::Serve
            } else {
                AcceptAction::Stop { failed: true }
            }
        },
        AcceptEvent::Failed => AcceptAction::Continue,
        AcceptEvent::Closed => AcceptAction::Stop { failed: false },
    }
}

/// What an accept loop does when a client it set up is not taken.
#[derive(PartialEq, Eq, Structural, Debug, Clone, Copy)]
pub enum HandOffPolicy {
    /// Stop with an error: no one takes the connections any more.
    StopWhenUntaken,
    /// Log it and go on accepting.
    KeepAccepting,
}

/// The accept loop's answer once a served connection was handed on, or not,
/// under `policy`: a client that could not be set up is logged and skipped, and
/// a client that was set up but not taken stops the loop with an error under
/// `StopWhenUntaken` and is logged and skipped under `KeepAccepting`.
pub fn hand_off_step_with(policy: HandOffPolicy, client_built: bool, handed_on: bool) -> (a:
    AcceptAction)
    ensures
        a == (if client_built && !handed_on && policy == HandOffPolicy::StopWhenUntaken {
            AcceptAction::Stop { failed: true }
        } else {
            AcceptAction::Continue
        }),
{
    match policy {
        HandOffPolicy::StopWhenUntaken => {
            if client_built && !handed_on {
                AcceptAction::Stop { failed: true }
            } else {
                AcceptAction::Continue
            }
        },
        HandOffPolicy::KeepAccepting => AcceptAction::Continue,
    }
}

/// The answer of the server's accept loop once a served connection was handed
/// on, or not: a client that could not be set up is logged and skipped, and the
/// loop stops with an error when no one takes the connections any more.
pub fn hand_off_step(client_built: bool, handed_on: bool) -> (a: AcceptAction)
    ensures
        a == (if client_built && !handed_on {
            AcceptAction::Stop { failed: true }
        } else {
            AcceptAction::Continue
        }),
{
    hand_off_step_with(HandOffPolicy::StopWhenUntaken, client_built, handed_on)
}

/// The task that handles a readiness event of the connection's poller.
#[derive(PartialEq, Eq, Structural, Debug)]
pub enum PollAction {
    /// Read the data that arrived and pass it on.
    Read,
    /// Write the data waiting to be sent.
    Write,
    /// An event of no registered source: log it.
    Unhandled,
}

/// The token under which the read side is registered with the poller.
pub const DATA_READ: usize = 0;

/// The token under which the write side is registered with the poller.
pub const DATA_WRITE: usize = 1;

/// The task that handles an event of the source registered under `token`.
pub fn poll_action(token: usize) -> (a: PollAction)
    ensures
        a == (if token == DATA_READ {
            PollAction::Read
        } else if token == DATA_WRITE {
            PollAction::Write
        } else {
            PollAction::Unhandled
        }),
{
    if token == DATA_READ {
        PollAction::Read
    } else if token == DATA_WRITE {
        PollAction::Write
    } else {
        PollAction::Unhandled
    }
}

} // verus!
